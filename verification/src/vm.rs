//! The virtual machine: a fetch-decode-execute loop over one chunk, an
//! instruction pointer, and an operand stack.
//!
//! The machine is split at the arithmetic: decoding, operand fetching and
//! stack discipline are all here and fully specified, while the numeric
//! work on 64-bit values belongs to the embedder that drives the machine.
//! Each call of [`VM::step`] executes one instruction as far as the core
//! can: a `Constant` is pushed outright, while an arithmetic instruction
//! pops its operands and hands them out as a [`Step`] request; the driver
//! computes the number and pushes the result back with [`VM::resume`].
//! Every malformed-chunk condition — an undecodable opcode, a truncated
//! instruction, a bad constant index, a stack underflow — is reported as
//! a [`Step::Fault`] instead of terminating the host.

use vstd::prelude::*;

use crate::chunks::{Chunk, ChunkView};
use crate::chunks::opcode::Opcode;
use crate::chunks::values::Value;

verus! {

/// The terminal outcome of interpreting a chunk. The machine itself only
/// ever yields `Okay` or `RuntimeError`; `CompileError` is reserved for
/// the upstream compiler stage and is carried through to the process
/// boundary unchanged.
#[derive(Clone, Copy, Debug, PartialEq, Eq, Structural)]
pub enum VmResult {
    Okay,
    CompileError,
    RuntimeError,
}

/// The four binary arithmetic operators the machine can request.
#[derive(Clone, Copy, Debug, PartialEq, Eq, Structural)]
pub enum BinaryOp {
    Add,
    Subtract,
    Multiply,
    Divide,
}

/// A malformed-chunk condition met during execution. Bytecode is an
/// internal contract, so each of these signals a corrupt or incompatible
/// producer, never a user-facing state; the machine reports it and halts
/// rather than aborting the process.
#[derive(Clone, Copy, Debug, PartialEq, Eq, Structural)]
pub enum VmFault {
    /// The instruction pointer ran past the end of the code without a
    /// `Return` having been executed.
    CodeExhausted,
    /// The fetched byte is no defined opcode encoding.
    UndecodableOpcode,
    /// A `Constant` opcode stands on the last code byte, so its operand
    /// byte is missing.
    MissingOperand,
    /// A `Constant` operand does not index into the constant pool.
    InvalidConstantIndex,
    /// An instruction needed more operands than the stack holds.
    StackUnderflow,
}

/// What one execution step did, or asks of the driver.
#[derive(Clone, Copy, Debug, PartialEq, Eq, Structural)]
pub enum Step {
    /// The instruction was executed wholly inside the machine.
    Continue,
    /// A binary instruction popped its operands: `rhs` was on top of the
    /// stack, `lhs` beneath it, in the order the producer pushed them.
    /// The driver computes `lhs op rhs` and pushes it with [`VM::resume`].
    Binary { op: BinaryOp, lhs: Value, rhs: Value },
    /// A `Negate` popped its operand; the driver pushes the negation.
    Negate { operand: Value },
    /// A `Return` popped the program's result: the machine has halted.
    Return { value: Value },
    /// Execution hit a malformed-chunk condition; the state is unchanged.
    Fault { fault: VmFault },
}

/// The machine's state, mathematically. The code and the constant pool
/// never change during execution; the instruction pointer and the operand
/// stack do.
#[verifier::ext_equal]
pub ghost struct VmState {
    pub code: Seq<u8>,
    pub constants: Seq<Value>,
    pub ip: int,
    pub stack: Seq<Value>,
}

/// One fetch-decode-execute step from `pre`: the state after it, and what
/// it did. On every fault the state is returned unchanged.
pub open spec fn spec_step(pre: VmState) -> (VmState, Step) {
    if !(0 <= pre.ip < pre.code.len()) {
        (pre, Step::Fault { fault: VmFault::CodeExhausted })
    } else {
        match Opcode::spec_decode(pre.code[pre.ip]) {
            Option::None => (pre, Step::Fault { fault: VmFault::UndecodableOpcode }),
            Option::Some(op) => match op {
                Opcode::Constant => spec_step_constant(pre),
                Opcode::Add => spec_step_binary(pre, BinaryOp::Add),
                Opcode::Subtract => spec_step_binary(pre, BinaryOp::Subtract),
                Opcode::Multiply => spec_step_binary(pre, BinaryOp::Multiply),
                Opcode::Divide => spec_step_binary(pre, BinaryOp::Divide),
                Opcode::Negate => if pre.stack.len() < 1 {
                    (pre, Step::Fault { fault: VmFault::StackUnderflow })
                } else {
                    (
                        VmState { ip: pre.ip + 1, stack: pre.stack.drop_last(), ..pre },
                        Step::Negate { operand: pre.stack.last() },
                    )
                },
                Opcode::Return => if pre.stack.len() < 1 {
                    (pre, Step::Fault { fault: VmFault::StackUnderflow })
                } else {
                    (
                        VmState { ip: pre.ip + 1, stack: pre.stack.drop_last(), ..pre },
                        Step::Return { value: pre.stack.last() },
                    )
                },
            },
        }
    }
}

/// The `Constant` step: fetch the operand byte, look the value up, push it.
pub open spec fn spec_step_constant(pre: VmState) -> (VmState, Step) {
    if pre.ip + 1 >= pre.code.len() {
        (pre, Step::Fault { fault: VmFault::MissingOperand })
    } else if pre.code[pre.ip + 1] >= pre.constants.len() {
        (pre, Step::Fault { fault: VmFault::InvalidConstantIndex })
    } else {
        (
            VmState {
                ip: pre.ip + 2,
                stack: pre.stack.push(pre.constants[pre.code[pre.ip + 1] as int]),
                ..pre
            },
            Step::Continue,
        )
    }
}

/// A binary-arithmetic step: pop the right operand, then the left, and
/// hand both out in that order.
pub open spec fn spec_step_binary(pre: VmState, op: BinaryOp) -> (VmState, Step) {
    if pre.stack.len() < 2 {
        (pre, Step::Fault { fault: VmFault::StackUnderflow })
    } else {
        (
            VmState { ip: pre.ip + 1, stack: pre.stack.take(pre.stack.len() - 2), ..pre },
            Step::Binary {
                op,
                lhs: pre.stack[pre.stack.len() - 2],
                rhs: pre.stack[pre.stack.len() - 1],
            },
        )
    }
}

/// Runs the machine from `s` for as long as steps complete wholly inside
/// it, up to `fuel` such steps: the state and outcome of the first step
/// that is not a [`Step::Continue`] (or of the step where the fuel ran
/// out).
pub open spec fn spec_run(s: VmState, fuel: nat) -> (VmState, Step)
    decreases fuel,
{
    let (post, step) = spec_step(s);
    if step == Step::Continue && fuel > 0 {
        spec_run(post, (fuel - 1) as nat)
    } else {
        (post, step)
    }
}

/// The `k`th instruction of a code stream of two-byte `Constant`
/// instructions is `Constant` with the given operand byte.
pub open spec fn constant_instruction_at(code: Seq<u8>, k: int, operand: u8) -> bool {
    code[2 * k] == Opcode::Constant.spec_byte() && code[2 * k + 1] == operand
}

/// `code` consists purely of `Constant` instructions, with the operand
/// bytes `operands` in order, followed by a single `Return`.
pub open spec fn constants_then_return_code(code: Seq<u8>, operands: Seq<u8>) -> bool {
    &&& code.len() == 2 * operands.len() + 1
    &&& forall|i: int|
        0 <= i < operands.len() ==> #[trigger] constant_instruction_at(code, i, operands[i])
    &&& code[code.len() - 1] == Opcode::Return.spec_byte()
}

/// Round-trip law: interpreting a chunk built purely from `Constant`
/// instructions followed by a `Return` halts with exactly the last pushed
/// constant's value.
pub proof fn lemma_constant_round_trip(s: VmState, operands: Seq<u8>)
    requires
        constants_then_return_code(s.code, operands),
        operands.len() >= 1,
        forall|i: int| 0 <= i < operands.len() ==> #[trigger] operands[i] < s.constants.len(),
        s.ip == 0,
        s.stack == Seq::<Value>::empty(),
    ensures
        spec_run(s, operands.len() as nat).1 == (Step::Return {
            value: s.constants[operands.last() as int],
        }),
{
    lemma_constant_run(s, operands, 0);
}

/// The inductive heart of [`lemma_constant_round_trip`]: from the start of
/// the `j`th `Constant` instruction, the run ends in the `Return` of the
/// last constant still to be pushed (or of the stack's top, once none is
/// left).
proof fn lemma_constant_run(s: VmState, operands: Seq<u8>, j: int)
    requires
        constants_then_return_code(s.code, operands),
        forall|i: int| 0 <= i < operands.len() ==> #[trigger] operands[i] < s.constants.len(),
        0 <= j <= operands.len(),
        s.ip == 2 * j,
        j == operands.len() ==> s.stack.len() >= 1,
    ensures
        spec_run(s, (operands.len() - j) as nat).1 == (Step::Return {
            value: if j < operands.len() {
                s.constants[operands.last() as int]
            } else {
                s.stack.last()
            },
        }),
    decreases operands.len() - j,
{
    if j == operands.len() {
        assert(s.code[s.ip] == Opcode::Return.spec_byte());
    } else {
        assert(constant_instruction_at(s.code, j, operands[j]));
        let (post, step) = spec_step(s);
        assert(step == Step::Continue);
        lemma_constant_run(post, operands, j + 1);
    }
}

/// The opcode that encodes the given binary operator.
pub open spec fn binary_opcode(op: BinaryOp) -> Opcode {
    match op {
        BinaryOp::Add => Opcode::Add,
        BinaryOp::Subtract => Opcode::Subtract,
        BinaryOp::Multiply => Opcode::Multiply,
        BinaryOp::Divide => Opcode::Divide,
    }
}

/// Stack-discipline law, for every binary operator: a chunk that pushes
/// constant `a`, pushes constant `b`, applies the operator and returns
/// makes the machine request exactly `a op b` — the operand pushed first
/// is the left-hand side — and then halts with whatever value `r` the
/// driver computed and pushed back.
pub proof fn lemma_binary_stack_discipline(
    s: VmState,
    ia: u8,
    ib: u8,
    op: BinaryOp,
    r: Value,
)
    requires
        s.code == seq![
            Opcode::Constant.spec_byte(),
            ia,
            Opcode::Constant.spec_byte(),
            ib,
            binary_opcode(op).spec_byte(),
            Opcode::Return.spec_byte(),
        ],
        ia < s.constants.len(),
        ib < s.constants.len(),
        s.ip == 0,
        s.stack == Seq::<Value>::empty(),
    ensures
        ({
            let (s1, step1) = spec_step(s);
            let (s2, step2) = spec_step(s1);
            let (s3, step3) = spec_step(s2);
            let resumed = VmState { stack: s3.stack.push(r), ..s3 };
            let (s4, step4) = spec_step(resumed);
            &&& step1 == Step::Continue
            &&& step2 == Step::Continue
            &&& step3 == (Step::Binary {
                op,
                lhs: s.constants[ia as int],
                rhs: s.constants[ib as int],
            })
            &&& step4 == (Step::Return { value: r })
        }),
{
    let (s1, step1) = spec_step(s);
    let (s2, step2) = spec_step(s1);
    let (s3, step3) = spec_step(s2);
    assert(s2.stack == Seq::<Value>::empty().push(s.constants[ia as int]).push(
        s.constants[ib as int],
    ));
    assert(s3.stack =~= Seq::<Value>::empty());
    let resumed = VmState { stack: s3.stack.push(r), ..s3 };
    assert(spec_step(resumed).1 == (Step::Return { value: r }));
}

/// Negation-chain law: a chunk that pushes constant `v`, negates twice
/// and returns makes the machine request the negation of `v`, then the
/// negation of whatever `r1` the driver answered, and halts with exactly
/// the driver's second answer `r2`. With an involutive negation
/// (`r2 == v`, which holds of IEEE-754 sign-bit negation, negative zero
/// included) the program therefore yields `v` itself.
pub proof fn lemma_negation_chain(s: VmState, i: u8, r1: Value, r2: Value)
    requires
        s.code == seq![
            Opcode::Constant.spec_byte(),
            i,
            Opcode::Negate.spec_byte(),
            Opcode::Negate.spec_byte(),
            Opcode::Return.spec_byte(),
        ],
        i < s.constants.len(),
        s.ip == 0,
        s.stack == Seq::<Value>::empty(),
    ensures
        ({
            let (s1, step1) = spec_step(s);
            let (s2, step2) = spec_step(s1);
            let resumed1 = VmState { stack: s2.stack.push(r1), ..s2 };
            let (s3, step3) = spec_step(resumed1);
            let resumed2 = VmState { stack: s3.stack.push(r2), ..s3 };
            let (s4, step4) = spec_step(resumed2);
            &&& step1 == Step::Continue
            &&& step2 == (Step::Negate { operand: s.constants[i as int] })
            &&& step3 == (Step::Negate { operand: r1 })
            &&& step4 == (Step::Return { value: r2 })
        }),
{
    let (s1, step1) = spec_step(s);
    assert(s1.stack == Seq::<Value>::empty().push(s.constants[i as int]));
    let (s2, step2) = spec_step(s1);
    let resumed1 = VmState { stack: s2.stack.push(r1), ..s2 };
    let (s3, step3) = spec_step(resumed1);
    assert(s3.stack.push(r2).last() == r2);
}

pub struct VM {
    chunk: Chunk,
    // Instruction pointer (or program counter). It points to the next
    // instruction to execute.
    ip: usize,
    stack: Vec<Value>,
}

impl VM {
    /// The machine's state as [`spec_step`] sees it.
    pub closed spec fn state(&self) -> VmState {
        VmState {
            code: self.chunk@.code,
            constants: self.chunk@.constants,
            ip: self.ip as int,
            stack: self.stack@,
        }
    }

    /// The owned chunk, line table included.
    pub closed spec fn chunk_view(&self) -> ChunkView {
        self.chunk@
    }

    /// A machine that will execute `chunk` from offset 0 with an empty
    /// operand stack.
    pub fn new(chunk: Chunk) -> (vm: VM)
        ensures
            vm.state() == (VmState {
                code: chunk@.code,
                constants: chunk@.constants,
                ip: 0,
                stack: Seq::<Value>::empty(),
            }),
            vm.chunk_view() == chunk@,
    {
        VM { chunk, ip: 0, stack: Vec::new() }
    }

    /// Executes one instruction, as far as the machine can on its own:
    /// exactly the transition [`spec_step`] describes. Arithmetic
    /// instructions come back as requests carrying their popped operands;
    /// after computing one, the driver pushes the result with
    /// [`resume`](Self::resume) before stepping on.
    pub fn step(&mut self) -> (step: Step)
        ensures
            final(self).state() == spec_step(old(self).state()).0,
            step == spec_step(old(self).state()).1,
            final(self).chunk_view() == old(self).chunk_view(),
    {
        let ip = self.ip;
        let code_len = self.chunk.code().len();
        if ip >= code_len {
            return Step::Fault { fault: VmFault::CodeExhausted };
        }
        let byte = self.chunk.code()[ip];
        match Opcode::decode(byte) {
            Option::None => Step::Fault { fault: VmFault::UndecodableOpcode },
            Option::Some(op) => match op {
                Opcode::Constant => {
                    if ip + 1 >= code_len {
                        return Step::Fault { fault: VmFault::MissingOperand };
                    }
                    let index = self.chunk.code()[ip + 1] as usize;
                    if index >= self.chunk.constants().count() {
                        return Step::Fault { fault: VmFault::InvalidConstantIndex };
                    }
                    let value = self.chunk.constants().values()[index];
                    self.ip = ip + 2;
                    self.stack.push(value);
                    Step::Continue
                },
                Opcode::Add => self.bin_op(BinaryOp::Add),
                Opcode::Subtract => self.bin_op(BinaryOp::Subtract),
                Opcode::Multiply => self.bin_op(BinaryOp::Multiply),
                Opcode::Divide => self.bin_op(BinaryOp::Divide),
                Opcode::Negate => {
                    match self.stack.pop() {
                        Option::None => Step::Fault { fault: VmFault::StackUnderflow },
                        Option::Some(operand) => {
                            self.ip = ip + 1;
                            Step::Negate { operand }
                        },
                    }
                },
                Opcode::Return => {
                    match self.stack.pop() {
                        Option::None => Step::Fault { fault: VmFault::StackUnderflow },
                        Option::Some(value) => {
                            self.ip = ip + 1;
                            Step::Return { value }
                        },
                    }
                },
            },
        }
    }

    /// Pushes the value the driver computed for the machine's last
    /// arithmetic request; execution then goes on with [`step`](Self::step).
    pub fn resume(&mut self, value: Value)
        ensures
            final(self).state() == (VmState {
                stack: old(self).state().stack.push(value),
                ..old(self).state()
            }),
            final(self).chunk_view() == old(self).chunk_view(),
    {
        self.stack.push(value);
    }

    /// The owned chunk, read-only: the execution trace disassembles the
    /// instruction the machine is about to fetch.
    pub fn chunk(&self) -> (r: &Chunk)
        ensures
            r@ == self.chunk_view(),
    {
        &self.chunk
    }

    /// The byte offset of the next instruction to fetch.
    pub fn ip(&self) -> (r: usize)
        ensures
            r == self.state().ip,
    {
        self.ip
    }

    /// The operand stack, bottom first, read-only.
    pub fn stack(&self) -> (r: &Vec<Value>)
        ensures
            r@ == self.state().stack,
    {
        &self.stack
    }

    /// Pops the two operands of a binary instruction and advances past it.
    fn bin_op(&mut self, op: BinaryOp) -> (step: Step)
        requires
            old(self).ip < usize::MAX,
        ensures
            (final(self).state(), step) == spec_step_binary(old(self).state(), op),
            final(self).chunk_view() == old(self).chunk_view(),
    {
        let rhs_opt = self.stack.pop();
        match rhs_opt {
            Option::None => Step::Fault { fault: VmFault::StackUnderflow },
            Option::Some(rhs) => {
                match self.stack.pop() {
                    Option::None => {
                        // put the lone operand back: a fault leaves the
                        // machine as it stood
                        self.stack.push(rhs);
                        proof {
                            assert(self.stack@ =~= old(self).stack@);
                        }
                        Step::Fault { fault: VmFault::StackUnderflow }
                    },
                    Option::Some(lhs) => {
                        self.ip = self.ip + 1;
                        proof {
                            assert(self.stack@ =~= old(self).stack@.take(
                                old(self).stack@.len() - 2,
                            ));
                        }
                        Step::Binary { op, lhs, rhs }
                    },
                }
            },
        }
    }
}

} // verus!
