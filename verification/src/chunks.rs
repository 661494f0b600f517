//! Chunks: units of compiled bytecode. A chunk owns the encoded
//! instruction stream, a parallel per-byte table of source lines, and the
//! constant pool that `Constant` instructions index into.

use vstd::prelude::*;

use crate::chunks::opcode::Opcode;
use crate::chunks::values::{Value, Values};

pub mod opcode;
pub mod values;

verus! {

/// One cell of the encoded instruction stream.
pub type Byte = u8;

/// An encoded instruction stream.
pub type Code = Vec<Byte>;

/// What a chunk is, mathematically: its three parallel structures.
pub ghost struct ChunkView {
    /// The encoded instruction stream, one byte per cell.
    pub code: Seq<Byte>,
    /// The constant pool, in insertion order.
    pub constants: Seq<Value>,
    /// The source line of each byte of `code`.
    pub lines: Seq<u32>,
}

/// Appending one datum and its source line to a chunk. The three
/// implementations accept an opcode, a raw byte, or a constant-pool
/// index; each appends one byte to the code and the line to the line
/// table, in lock-step, leaving the constant pool untouched.
pub trait Write<A> {
    fn write(&mut self, value: A, line: u32);
}

#[derive(Debug)]
pub struct Chunk {
    code: Code,
    constants: Values,
    lines: Vec<u32>,
}

impl View for Chunk {
    type V = ChunkView;

    closed spec fn view(&self) -> ChunkView {
        ChunkView { code: self.code@, constants: self.constants@, lines: self.lines@ }
    }
}

impl Chunk {
    /// The structural invariant: one line-table entry per byte of code.
    pub open spec fn wf(&self) -> bool {
        self@.code.len() == self@.lines.len()
    }

    /// A chunk over the given code, with an empty constant pool and an
    /// empty line table. Well-formed only when `code` itself is empty;
    /// producers start from that and append through `write`.
    pub fn new(code: Code) -> (c: Self)
        ensures
            c@.code == code@,
            c@.constants == Seq::<Value>::empty(),
            c@.lines == Seq::<u32>::empty(),
    {
        Self { code, constants: Values::default(), lines: Vec::new() }
    }

    /// Appends `value` to the constant pool and returns its index.
    /// Identical values get separate slots; indices, once handed out,
    /// stay valid (the pool is append-only).
    pub fn add_constant(&mut self, value: Value) -> (index: usize)
        ensures
            final(self)@.constants == old(self)@.constants.push(value),
            final(self)@.code == old(self)@.code,
            final(self)@.lines == old(self)@.lines,
            index == old(self)@.constants.len(),
    {
        self.constants.write(value);
        self.constants.count() - 1
    }

    /// Read-only access to the instruction stream.
    pub fn code(&self) -> (r: &Code)
        ensures
            r@ == self@.code,
    {
        &self.code
    }

    /// Read-only access to the constant pool.
    pub fn constants(&self) -> (r: &Values)
        ensures
            r@ == self@.constants,
    {
        &self.constants
    }

    /// Read-only access to the line table.
    pub fn lines(&self) -> (r: &Vec<u32>)
        ensures
            r@ == self@.lines,
    {
        &self.lines
    }
}

impl Default for Chunk {
    /// An empty chunk: no code, no constants, no lines.
    fn default() -> (c: Self)
        ensures
            c@.code == Seq::<Byte>::empty(),
            c@.constants == Seq::<Value>::empty(),
            c@.lines == Seq::<u32>::empty(),
            c.wf(),
    {
        Chunk::new(Vec::new())
    }
}

impl Write<Byte> for Chunk {
    fn write(&mut self, byte: Byte, line: u32)
        ensures
            final(self)@.code == old(self)@.code.push(byte),
            final(self)@.lines == old(self)@.lines.push(line),
            final(self)@.constants == old(self)@.constants,
    {
        self.code.push(byte);
        self.lines.push(line);
    }
}

impl Write<Opcode> for Chunk {
    fn write(&mut self, opcode: Opcode, line: u32)
        ensures
            final(self)@.code == old(self)@.code.push(opcode.spec_byte()),
            final(self)@.lines == old(self)@.lines.push(line),
            final(self)@.constants == old(self)@.constants,
    {
        let byte = opcode.encode();
        Write::<Byte>::write(self, byte, line)
    }
}

impl Write<usize> for Chunk {
    fn write(&mut self, value: usize, line: u32)
        ensures
            final(self)@.code == old(self)@.code.push((value % 256) as Byte),
            final(self)@.lines == old(self)@.lines.push(line),
            final(self)@.constants == old(self)@.constants,
    {
        Write::<Byte>::write(self, (value % 256) as Byte, line)
    }
}

} // verus!
