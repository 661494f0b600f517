use dry::chunks::opcode::Opcode;
use dry::chunks::values::Value;
use dry::chunks::{Chunk, Write};
use dry::vm::{BinaryOp, Step, VmFault, VmResult, VM};

/// Drives the machine to completion, computing the arithmetic it requests
/// on IEEE-754 doubles, as an embedder would.
fn run(chunk: Chunk) -> (VmResult, Option<f64>) {
    let mut vm = VM::new(chunk);
    loop {
        match vm.step() {
            Step::Continue => {}
            Step::Binary { op, lhs, rhs } => {
                let a = f64::from_bits(lhs.to_bits());
                let b = f64::from_bits(rhs.to_bits());
                let r = match op {
                    BinaryOp::Add => a + b,
                    BinaryOp::Subtract => a - b,
                    BinaryOp::Multiply => a * b,
                    BinaryOp::Divide => a / b,
                };
                vm.resume(Value::from_bits(r.to_bits()));
            }
            Step::Negate { operand } => {
                let v = f64::from_bits(operand.to_bits());
                vm.resume(Value::from_bits((-v).to_bits()));
            }
            Step::Return { value } => {
                return (VmResult::Okay, Some(f64::from_bits(value.to_bits())));
            }
            Step::Fault { .. } => return (VmResult::RuntimeError, None),
        }
    }
}

/// A chunk that pushes each constant in order and returns, all on line 1.
fn constants_then_return(values: &[f64]) -> Chunk {
    let mut chunk = Chunk::new(Vec::new());
    for v in values {
        let index = chunk.add_constant(Value::from_bits(v.to_bits()));
        chunk.write(Opcode::Constant, 1);
        chunk.write(index, 1);
    }
    chunk.write(Opcode::Return, 1);
    chunk
}

/// A chunk that pushes `a` and `b`, applies `op`, and returns.
fn binary_chunk(a: f64, b: f64, op: Opcode) -> Chunk {
    let mut chunk = Chunk::new(Vec::new());
    let ia = chunk.add_constant(Value::from_bits(a.to_bits()));
    let ib = chunk.add_constant(Value::from_bits(b.to_bits()));
    chunk.write(Opcode::Constant, 1);
    chunk.write(ia, 1);
    chunk.write(Opcode::Constant, 1);
    chunk.write(ib, 1);
    chunk.write(op, 1);
    chunk.write(Opcode::Return, 1);
    chunk
}

#[test]
fn interpret_single_constant() {
    let chunk = constants_then_return(&[1.2]);
    let (result, value) = run(chunk);
    assert_eq!(result, VmResult::Okay);
    assert_eq!(value, Some(1.2));
}

#[test]
fn round_trip_yields_last_constant() {
    let chunk = constants_then_return(&[1.0, 2.5, -7.75]);
    let (result, value) = run(chunk);
    assert_eq!(result, VmResult::Okay);
    assert_eq!(value, Some(-7.75));
}

#[test]
fn interpret_expression() {
    // [Constant 0 (=1.2), Constant 1 (=3.4), Add, Constant 2 (=5.6),
    //  Divide, Negate, Return] computes -((1.2 + 3.4) / 5.6)
    let mut chunk = Chunk::new(Vec::new());
    let i0 = chunk.add_constant(Value::from_bits(1.2f64.to_bits()));
    let i1 = chunk.add_constant(Value::from_bits(3.4f64.to_bits()));
    let i2 = chunk.add_constant(Value::from_bits(5.6f64.to_bits()));
    chunk.write(Opcode::Constant, 123);
    chunk.write(i0, 123);
    chunk.write(Opcode::Constant, 123);
    chunk.write(i1, 123);
    chunk.write(Opcode::Add, 123);
    chunk.write(Opcode::Constant, 123);
    chunk.write(i2, 123);
    chunk.write(Opcode::Divide, 123);
    chunk.write(Opcode::Negate, 123);
    chunk.write(Opcode::Return, 123);
    let (result, value) = run(chunk);
    assert_eq!(result, VmResult::Okay);
    assert_eq!(value, Some(-0.8214285714285714));
}

#[test]
fn add_preserves_operand_order() {
    let (result, value) = run(binary_chunk(1.2, 3.4, Opcode::Add));
    assert_eq!(result, VmResult::Okay);
    assert_eq!(value, Some(1.2 + 3.4));
}

#[test]
fn subtract_preserves_operand_order() {
    let (result, value) = run(binary_chunk(1.2, 3.4, Opcode::Subtract));
    assert_eq!(result, VmResult::Okay);
    assert_eq!(value, Some(1.2 - 3.4));
    assert_ne!(value, Some(3.4 - 1.2));
}

#[test]
fn multiply_preserves_operand_order() {
    let (result, value) = run(binary_chunk(1.5, -4.0, Opcode::Multiply));
    assert_eq!(result, VmResult::Okay);
    assert_eq!(value, Some(1.5 * -4.0));
}

#[test]
fn divide_preserves_operand_order() {
    let (result, value) = run(binary_chunk(1.2, 3.4, Opcode::Divide));
    assert_eq!(result, VmResult::Okay);
    assert_eq!(value, Some(1.2 / 3.4));
    assert_ne!(value, Some(3.4 / 1.2));
}

#[test]
fn divide_by_zero_follows_ieee() {
    let (result, value) = run(binary_chunk(1.0, 0.0, Opcode::Divide));
    assert_eq!(result, VmResult::Okay);
    assert_eq!(value, Some(f64::INFINITY));
}

#[test]
fn binary_request_carries_popped_operands() {
    let mut vm = VM::new(binary_chunk(1.2, 3.4, Opcode::Subtract));
    assert_eq!(vm.step(), Step::Continue);
    assert_eq!(vm.step(), Step::Continue);
    let request = vm.step();
    assert_eq!(
        request,
        Step::Binary {
            op: BinaryOp::Subtract,
            lhs: Value::from_bits(1.2f64.to_bits()),
            rhs: Value::from_bits(3.4f64.to_bits()),
        }
    );
    // whatever the driver answers is what the program returns
    let answer = Value::from_bits(9.5f64.to_bits());
    vm.resume(answer);
    assert_eq!(vm.step(), Step::Return { value: answer });
}

#[test]
fn negation_involution() {
    let mut chunk = Chunk::new(Vec::new());
    let i = chunk.add_constant(Value::from_bits(1.2f64.to_bits()));
    chunk.write(Opcode::Constant, 1);
    chunk.write(i, 1);
    chunk.write(Opcode::Negate, 1);
    chunk.write(Opcode::Negate, 1);
    chunk.write(Opcode::Return, 1);
    let (result, value) = run(chunk);
    assert_eq!(result, VmResult::Okay);
    // bit-exact: sign-bit negation twice is the identity
    assert_eq!(value.unwrap().to_bits(), 1.2f64.to_bits());
}

#[test]
fn negation_involution_negative_zero() {
    let mut chunk = Chunk::new(Vec::new());
    let i = chunk.add_constant(Value::from_bits((-0.0f64).to_bits()));
    chunk.write(Opcode::Constant, 1);
    chunk.write(i, 1);
    chunk.write(Opcode::Negate, 1);
    chunk.write(Opcode::Negate, 1);
    chunk.write(Opcode::Return, 1);
    let (_, value) = run(chunk);
    assert_eq!(value.unwrap().to_bits(), (-0.0f64).to_bits());
}

#[test]
fn stray_opcode_byte_is_a_decoding_fault() {
    let mut chunk = Chunk::new(Vec::new());
    chunk.write(42u8, 1);
    let mut vm = VM::new(chunk);
    assert_eq!(
        vm.step(),
        Step::Fault {
            fault: VmFault::UndecodableOpcode
        }
    );
}

#[test]
fn return_on_empty_stack_is_an_underflow_fault() {
    let mut chunk = Chunk::new(Vec::new());
    chunk.write(Opcode::Return, 1);
    let mut vm = VM::new(chunk);
    assert_eq!(
        vm.step(),
        Step::Fault {
            fault: VmFault::StackUnderflow
        }
    );
    // and the driver surfaces it as a runtime error, not a crash
    let mut chunk = Chunk::new(Vec::new());
    chunk.write(Opcode::Return, 1);
    let (result, value) = run(chunk);
    assert_eq!(result, VmResult::RuntimeError);
    assert_eq!(value, None);
}

#[test]
fn binary_on_single_operand_is_an_underflow_fault() {
    let mut chunk = Chunk::new(Vec::new());
    let i = chunk.add_constant(Value::from_bits(1.0f64.to_bits()));
    chunk.write(Opcode::Constant, 1);
    chunk.write(i, 1);
    chunk.write(Opcode::Add, 1);
    let mut vm = VM::new(chunk);
    assert_eq!(vm.step(), Step::Continue);
    assert_eq!(
        vm.step(),
        Step::Fault {
            fault: VmFault::StackUnderflow
        }
    );
    // the fault leaves the machine as it stood
    assert_eq!(vm.stack().len(), 1);
}

#[test]
fn running_off_the_code_is_a_fault() {
    let chunk = Chunk::new(Vec::new());
    let mut vm = VM::new(chunk);
    assert_eq!(
        vm.step(),
        Step::Fault {
            fault: VmFault::CodeExhausted
        }
    );
}

#[test]
fn truncated_constant_is_a_fault() {
    let mut chunk = Chunk::new(Vec::new());
    chunk.write(Opcode::Constant, 1);
    let mut vm = VM::new(chunk);
    assert_eq!(
        vm.step(),
        Step::Fault {
            fault: VmFault::MissingOperand
        }
    );
}

#[test]
fn bad_constant_index_is_a_fault() {
    let mut chunk = Chunk::new(Vec::new());
    chunk.write(Opcode::Constant, 1);
    chunk.write(5u8, 1);
    let mut vm = VM::new(chunk);
    assert_eq!(
        vm.step(),
        Step::Fault {
            fault: VmFault::InvalidConstantIndex
        }
    );
}

#[test]
fn vm_exposes_state_for_tracing() {
    let chunk = constants_then_return(&[2.0, 3.0]);
    let mut vm = VM::new(chunk);
    assert_eq!(vm.ip(), 0);
    assert_eq!(vm.stack().len(), 0);
    assert_eq!(vm.step(), Step::Continue);
    assert_eq!(vm.ip(), 2);
    assert_eq!(vm.stack().len(), 1);
    assert_eq!(vm.chunk().code().len(), 5);
}
