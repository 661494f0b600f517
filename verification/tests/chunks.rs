use dry::chunks::opcode::Opcode;
use dry::chunks::values::{Value, Values};
use dry::chunks::{Chunk, Write};

#[test]
fn new_chunk_is_empty_but_for_its_code() {
    let chunk = Chunk::new(vec![1u8, 2u8]);
    assert_eq!(chunk.code(), &vec![1u8, 2u8]);
    assert_eq!(chunk.constants().count(), 0);
    assert_eq!(chunk.lines().len(), 0);
}

#[test]
fn default_chunk_is_empty() {
    let chunk = Chunk::default();
    assert_eq!(chunk.code().len(), 0);
    assert_eq!(chunk.constants().count(), 0);
    assert_eq!(chunk.lines().len(), 0);
}

#[test]
fn write_keeps_code_and_lines_in_lock_step() {
    let mut chunk = Chunk::new(Vec::new());
    chunk.write(Opcode::Constant, 10);
    chunk.write(0usize, 10);
    chunk.write(Opcode::Return, 11);
    assert_eq!(chunk.code(), &vec![0u8, 0u8, 6u8]);
    assert_eq!(chunk.lines(), &vec![10u32, 10u32, 11u32]);
}

#[test]
fn write_usize_keeps_the_low_byte() {
    let mut chunk = Chunk::new(Vec::new());
    chunk.write(300usize, 1);
    assert_eq!(chunk.code(), &vec![44u8]);
}

#[test]
fn add_constant_returns_consecutive_indices() {
    let mut chunk = Chunk::new(Vec::new());
    let a = chunk.add_constant(Value::from_bits(1.2f64.to_bits()));
    let b = chunk.add_constant(Value::from_bits(3.4f64.to_bits()));
    assert_eq!(a, 0);
    assert_eq!(b, 1);
    assert_eq!(chunk.constants().count(), 2);
}

#[test]
fn add_constant_does_not_deduplicate() {
    let mut chunk = Chunk::new(Vec::new());
    let v = Value::from_bits(1.2f64.to_bits());
    let a = chunk.add_constant(v);
    let b = chunk.add_constant(v);
    assert_eq!(a, 0);
    assert_eq!(b, 1);
    assert_eq!(chunk.constants().count(), 2);
}

#[test]
fn values_pool_keeps_insertion_order() {
    let mut pool = Values::default();
    pool.write(Value::from_bits(1u64));
    pool.write(Value::from_bits(2u64));
    assert_eq!(pool.count(), 2);
    assert_eq!(pool.values()[0].to_bits(), 1u64);
    assert_eq!(pool.values()[1].to_bits(), 2u64);
}

#[test]
fn value_round_trips_its_bits() {
    let v = Value::from_bits(0x3FF3333333333333);
    assert_eq!(v.to_bits(), 0x3FF3333333333333);
    assert_eq!(f64::from_bits(v.to_bits()), 1.2);
}

#[test]
fn opcode_bytes_follow_declaration_order() {
    let all = [
        Opcode::Constant,
        Opcode::Add,
        Opcode::Subtract,
        Opcode::Multiply,
        Opcode::Divide,
        Opcode::Negate,
        Opcode::Return,
    ];
    for (i, op) in all.iter().enumerate() {
        assert_eq!(op.encode() as usize, i);
    }
}

#[test]
fn opcode_encoding_round_trips() {
    let all = [
        Opcode::Constant,
        Opcode::Add,
        Opcode::Subtract,
        Opcode::Multiply,
        Opcode::Divide,
        Opcode::Negate,
        Opcode::Return,
    ];
    for op in all {
        assert_eq!(Opcode::decode(op.encode()), Some(op));
    }
}

#[test]
fn decoding_an_unknown_byte_is_refused() {
    assert_eq!(Opcode::decode(7), None);
    assert_eq!(Opcode::decode(42), None);
    assert_eq!(Opcode::decode(255), None);
}

#[test]
fn opcode_show_derives_the_printed_name() {
    assert_eq!(Opcode::Constant.show(), "OP_CONSTANT");
    assert_eq!(Opcode::Add.show(), "OP_ADD");
    assert_eq!(Opcode::Subtract.show(), "OP_SUBTRACT");
    assert_eq!(Opcode::Multiply.show(), "OP_MULTIPLY");
    assert_eq!(Opcode::Divide.show(), "OP_DIVIDE");
    assert_eq!(Opcode::Negate.show(), "OP_NEGATE");
    assert_eq!(Opcode::Return.show(), "OP_RETURN");
}
