//! The closed instruction set and its one-byte encoding.

use vstd::prelude::*;

verus! {

/// An instruction tag. Each variant encodes to one byte, assigned by
/// declaration order starting at 0; `Constant` is followed in the code by
/// one operand byte (a constant-pool index), every other opcode stands
/// alone.
#[derive(Clone, Copy, Debug, PartialEq, Eq, Structural)]
pub enum Opcode {
    Constant,
    Add,
    Subtract,
    Multiply,
    Divide,
    Negate,
    Return,
}

impl Opcode {
    /// The byte this opcode encodes to.
    pub open spec fn spec_byte(self) -> u8 {
        match self {
            Opcode::Constant => 0,
            Opcode::Add => 1,
            Opcode::Subtract => 2,
            Opcode::Multiply => 3,
            Opcode::Divide => 4,
            Opcode::Negate => 5,
            Opcode::Return => 6,
        }
    }

    /// The opcode a byte decodes to, or `None` when the byte is no
    /// currently-defined encoding. An undecodable byte in a code stream
    /// is an internal-consistency fault: the producer is trusted to emit
    /// only valid opcodes, and there is no recovery path.
    pub open spec fn spec_decode(byte: u8) -> Option<Opcode> {
        match byte {
            0u8 => Some(Opcode::Constant),
            1u8 => Some(Opcode::Add),
            2u8 => Some(Opcode::Subtract),
            3u8 => Some(Opcode::Multiply),
            4u8 => Some(Opcode::Divide),
            5u8 => Some(Opcode::Negate),
            6u8 => Some(Opcode::Return),
            _ => None,
        }
    }

    /// How many bytes of code the instruction starting with this opcode
    /// occupies: the opcode byte itself plus `Constant`'s operand byte.
    pub open spec fn spec_width(self) -> int {
        match self {
            Opcode::Constant => 2,
            _ => 1,
        }
    }

    /// Encodes this opcode as its byte.
    pub fn encode(self) -> (byte: u8)
        ensures
            byte == self.spec_byte(),
    {
        match self {
            Opcode::Constant => 0,
            Opcode::Add => 1,
            Opcode::Subtract => 2,
            Opcode::Multiply => 3,
            Opcode::Divide => 4,
            Opcode::Negate => 5,
            Opcode::Return => 6,
        }
    }

    /// Decodes a byte, refusing any byte outside the defined encodings.
    pub fn decode(byte: u8) -> (r: Option<Opcode>)
        ensures
            r == Opcode::spec_decode(byte),
    {
        match byte {
            0u8 => Some(Opcode::Constant),
            1u8 => Some(Opcode::Add),
            2u8 => Some(Opcode::Subtract),
            3u8 => Some(Opcode::Multiply),
            4u8 => Some(Opcode::Divide),
            5u8 => Some(Opcode::Negate),
            6u8 => Some(Opcode::Return),
            _ => None,
        }
    }

    /// The opcode's human-readable name, as the disassembler prints it.
    pub open spec fn spec_show(self) -> Seq<char> {
        match self {
            Opcode::Constant => "OP_CONSTANT"@,
            Opcode::Add => "OP_ADD"@,
            Opcode::Subtract => "OP_SUBTRACT"@,
            Opcode::Multiply => "OP_MULTIPLY"@,
            Opcode::Divide => "OP_DIVIDE"@,
            Opcode::Negate => "OP_NEGATE"@,
            Opcode::Return => "OP_RETURN"@,
        }
    }

    /// The opcode's human-readable name: `OP_` followed by the variant's
    /// name in upper case.
    pub fn show(&self) -> (name: String)
        ensures
            name@ == self.spec_show(),
    {
        match self {
            Opcode::Constant => "OP_CONSTANT".to_owned(),
            Opcode::Add => "OP_ADD".to_owned(),
            Opcode::Subtract => "OP_SUBTRACT".to_owned(),
            Opcode::Multiply => "OP_MULTIPLY".to_owned(),
            Opcode::Divide => "OP_DIVIDE".to_owned(),
            Opcode::Negate => "OP_NEGATE".to_owned(),
            Opcode::Return => "OP_RETURN".to_owned(),
        }
    }
}

/// The encoding is bidirectional: decoding an opcode's byte gives the
/// opcode back, and a byte that decodes at all re-encodes to itself.
pub proof fn lemma_encoding_bidirectional()
    ensures
        forall|op: Opcode| #[trigger] Opcode::spec_decode(op.spec_byte()) == Some(op),
        forall|byte: u8|
            #[trigger] Opcode::spec_decode(byte) matches Some(op) ==> op.spec_byte() == byte,
{
}

} // verus!
