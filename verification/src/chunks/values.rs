//! Runtime values and the constant pool.

use vstd::prelude::*;

verus! {

/// The runtime's scalar datum: a 64-bit quantity, copied by value and
/// immutable once produced. The core moves values between the constant
/// pool and the operand stack without interpreting them; the embedder
/// that drives the machine gives the bits their numeric meaning (an
/// IEEE-754 double in this runtime).
#[derive(Clone, Copy, Debug, PartialEq, Eq, Structural)]
pub struct Value {
    /// The value's 64-bit pattern.
    pub bits: u64,
}

impl Value {
    /// The value carrying the given 64-bit pattern.
    pub fn from_bits(bits: u64) -> (v: Value)
        ensures
            v.bits == bits,
    {
        Value { bits }
    }

    /// The value's 64-bit pattern.
    pub fn to_bits(self) -> (bits: u64)
        ensures
            bits == self.bits,
    {
        self.bits
    }
}

/// The constant pool: an append-only, insertion-ordered sequence of
/// values, referenced by 0-based index from `Constant` instructions.
#[derive(Debug)]
pub struct Values {
    values: Vec<Value>,
}

impl View for Values {
    type V = Seq<Value>;

    closed spec fn view(&self) -> Seq<Value> {
        self.values@
    }
}

impl Values {
    /// Appends `value`; its index is the pool's count before the call.
    pub fn write(&mut self, value: Value)
        ensures
            final(self)@ == old(self)@.push(value),
    {
        self.values.push(value)
    }

    /// How many values the pool holds.
    pub fn count(&self) -> (n: usize)
        ensures
            n == self@.len(),
    {
        self.values.len()
    }

    /// Read-only access to the pooled values.
    pub fn values(&self) -> (r: &Vec<Value>)
        ensures
            r@ == self@,
    {
        &self.values
    }
}

impl Default for Values {
    /// An empty pool.
    fn default() -> (r: Self)
        ensures
            r@ == Seq::<Value>::empty(),
    {
        Self { values: Vec::new() }
    }
}

} // verus!
