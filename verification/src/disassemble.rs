//! The disassembler: a pure, read-only walker over a chunk. It computes,
//! instruction by instruction, everything the printed trace shows — the
//! byte offset, the line-number column with its continuation marker, the
//! opcode, and for `Constant` the operand index with its pooled value —
//! and the offset where the next instruction starts. Rendering the
//! computed rows as text is the embedder's affair.

use vstd::prelude::*;

use crate::chunks::{Chunk, ChunkView};
use crate::chunks::opcode::Opcode;
use crate::chunks::values::Value;
use crate::vm::{spec_step, Step, VmState};

verus! {

/// One disassembled instruction, ready to render.
#[derive(Clone, Copy, Debug, PartialEq, Eq)]
pub struct InstructionLine {
    /// The byte offset the instruction starts at.
    pub offset: usize,
    /// The line-number column: the source line recorded for the
    /// instruction's first byte, or `None` for the continuation marker
    /// when that byte shares the previous byte's line.
    pub line: Option<u32>,
    /// The decoded opcode; its printed name is [`Opcode::show`].
    pub opcode: Opcode,
    /// For `Constant` only: the operand byte (a constant-pool index) and
    /// the value it names.
    pub constant: Option<(u8, Value)>,
    /// The byte offset of the next instruction.
    pub next: usize,
}

/// An [`InstructionLine`], mathematically.
pub ghost struct InstructionView {
    pub offset: int,
    pub line: Option<u32>,
    pub opcode: Opcode,
    pub constant: Option<(u8, Value)>,
    pub next: int,
}

impl View for InstructionLine {
    type V = InstructionView;

    open spec fn view(&self) -> InstructionView {
        InstructionView {
            offset: self.offset as int,
            line: self.line,
            opcode: self.opcode,
            constant: self.constant,
            next: self.next as int,
        }
    }
}

/// The line-number column for the byte at `offset`: its recorded source
/// line, or `None` — the continuation marker — when the previous byte
/// recorded the same line.
pub open spec fn spec_line_column(lines: Seq<u32>, offset: int) -> Option<u32> {
    if offset > 0 && lines[offset] == lines[offset - 1] {
        None
    } else {
        Some(lines[offset])
    }
}

/// The disassembly of the single instruction at `offset`, or `None` when
/// the code there is malformed: an undecodable opcode byte, a `Constant`
/// whose operand byte is missing, or a `Constant` whose operand does not
/// index into the pool.
pub open spec fn spec_instruction(c: ChunkView, offset: int) -> Option<InstructionView> {
    if !(0 <= offset < c.code.len()) {
        None
    } else {
        match Opcode::spec_decode(c.code[offset]) {
            Option::None => None,
            Option::Some(op) => {
                let line = spec_line_column(c.lines, offset);
                match op {
                    Opcode::Constant => {
                        if offset + 1 >= c.code.len() {
                            None
                        } else if c.code[offset + 1] >= c.constants.len() {
                            None
                        } else {
                            Some(
                                InstructionView {
                                    offset,
                                    line,
                                    opcode: op,
                                    constant: Some(
                                        (
                                            c.code[offset + 1],
                                            c.constants[c.code[offset + 1] as int],
                                        ),
                                    ),
                                    next: offset + 2,
                                },
                            )
                        }
                    },
                    _ => Some(
                        InstructionView { offset, line, opcode: op, constant: None, next: offset + 1 },
                    ),
                }
            },
        }
    }
}

/// The disassembly of every instruction from `offset` to the end of the
/// code, walking by each instruction's width, or `None` when the walk
/// meets a malformed instruction.
pub open spec fn spec_listing(c: ChunkView, offset: int) -> Option<Seq<InstructionView>>
    decreases c.code.len() - offset,
{
    if offset == c.code.len() {
        Some(Seq::empty())
    } else {
        match spec_instruction(c, offset) {
            Option::None => None,
            Option::Some(iv) => match spec_listing(c, iv.next) {
                Option::None => None,
                Option::Some(rest) => Some(seq![iv] + rest),
            },
        }
    }
}

/// A chunk's code is well-formed when the instruction walk from offset 0
/// decodes all the way to the end.
pub open spec fn wf_code(c: ChunkView) -> bool {
    spec_listing(c, 0) is Some
}

/// The views of the rows a walk produced.
pub open spec fn views_of(lines: Seq<InstructionLine>) -> Seq<InstructionView> {
    lines.map_values(|l: InstructionLine| l@)
}

/// Disassembles the single instruction at `offset` and says where the
/// next one starts, without printing; `None` exactly on malformed code.
/// The line column obeys the compression rule of [`spec_line_column`]:
/// a line number is shown exactly when it differs from the previous
/// byte's recorded line.
pub fn instruction(chunk: &Chunk, offset: usize) -> (r: Option<InstructionLine>)
    requires
        chunk.wf(),
        offset < chunk@.code.len(),
    ensures
        match r {
            Option::Some(l) => {
                &&& spec_instruction(chunk@, offset as int) == Some(l@)
                &&& l.offset == offset
                &&& offset < l.next <= chunk@.code.len()
                &&& l.line == spec_line_column(chunk@.lines, offset as int)
            },
            Option::None => spec_instruction(chunk@, offset as int) is None,
        },
{
    let code = chunk.code();
    let n = code.len();
    let byte = code[offset];
    let op = match Opcode::decode(byte) {
        Option::None => {
            return Option::None;
        },
        Option::Some(op) => op,
    };
    let lines = chunk.lines();
    let line = if offset > 0 && lines[offset] == lines[offset - 1] {
        Option::None
    } else {
        Option::Some(lines[offset])
    };
    match op {
        Opcode::Constant => {
            if offset >= n - 1 {
                return Option::None;
            }
            let index = code[offset + 1];
            if index as usize >= chunk.constants().count() {
                return Option::None;
            }
            let value = chunk.constants().values()[index as usize];
            Some(
                InstructionLine {
                    offset,
                    line,
                    opcode: op,
                    constant: Some((index, value)),
                    next: offset + 2,
                },
            )
        },
        _ => Some(InstructionLine { offset, line, opcode: op, constant: None, next: offset + 1 }),
    }
}

/// Disassembles a whole chunk: every instruction once, in order, from
/// offset 0 to the end of the code; `None` exactly when the walk meets a
/// malformed instruction.
pub fn chunk(c: &Chunk) -> (r: Option<Vec<InstructionLine>>)
    requires
        c.wf(),
    ensures
        r is Some <==> wf_code(c@),
        match r {
            Option::Some(rows) => spec_listing(c@, 0) == Some(views_of(rows@)),
            Option::None => spec_listing(c@, 0) is None,
        },
{
    let mut rows: Vec<InstructionLine> = Vec::new();
    let mut offset: usize = 0;
    loop
        invariant
            c.wf(),
            offset <= c@.code.len(),
            spec_listing(c@, 0) == match spec_listing(c@, offset as int) {
                Option::None => None::<Seq<InstructionView>>,
                Option::Some(rest) => Some(views_of(rows@) + rest),
            },
        decreases c@.code.len() - offset,
    {
        if offset >= c.code().len() {
            proof {
                assert(views_of(rows@) + Seq::<InstructionView>::empty() =~= views_of(rows@));
            }
            return Some(rows);
        }
        match instruction(c, offset) {
            Option::None => {
                return Option::None;
            },
            Option::Some(l) => {
                let ghost old_rows = rows@;
                rows.push(l);
                proof {
                    assert(views_of(rows@) =~= views_of(old_rows).push(l@));
                    if let Some(rest) = spec_listing(c@, l@.next) {
                        assert(views_of(old_rows) + (seq![l@] + rest) =~= views_of(rows@) + rest);
                    }
                }
                offset = l.next;
            },
        }
    }
}

/// Line-compression law over a whole disassembly: every row's line
/// column carries the recorded source line of the row's first byte
/// exactly when it differs from the line of the byte before it, and the
/// continuation marker otherwise.
pub proof fn lemma_listing_line_columns(c: ChunkView, rows: Seq<InstructionView>)
    requires
        spec_listing(c, 0) == Some(rows),
    ensures
        forall|i: int|
            0 <= i < rows.len() ==> (#[trigger] rows[i]).line == spec_line_column(
                c.lines,
                rows[i].offset,
            ),
{
    lemma_walk_line_columns(c, 0, rows);
}

/// The inductive form of [`lemma_listing_line_columns`], for a walk
/// starting anywhere.
proof fn lemma_walk_line_columns(c: ChunkView, offset: int, rows: Seq<InstructionView>)
    requires
        spec_listing(c, offset) == Some(rows),
        0 <= offset <= c.code.len(),
    ensures
        forall|i: int|
            0 <= i < rows.len() ==> (#[trigger] rows[i]).line == spec_line_column(
                c.lines,
                rows[i].offset,
            ),
    decreases c.code.len() - offset,
{
    if offset == c.code.len() {
    } else {
        let iv = spec_instruction(c, offset).unwrap();
        let rest = spec_listing(c, iv.next).unwrap();
        lemma_walk_line_columns(c, iv.next, rest);
        assert(rows == seq![iv] + rest);
        assert forall|i: int|
            0 <= i < rows.len() implies (#[trigger] rows[i]).line == spec_line_column(
            c.lines,
            rows[i].offset,
        ) by {
            if i == 0 {
                assert(rows[0] == iv);
            } else {
                assert(rows[i] == rest[i - 1]);
            }
        }
    }
}

/// The disassembler and the machine never diverge in their offset
/// arithmetic: when the instruction at the machine's instruction pointer
/// disassembles, any step that does not fault leaves the pointer exactly
/// where the disassembled row says the next instruction starts.
pub proof fn lemma_widths_agree(c: ChunkView, s: VmState, row: InstructionView)
    requires
        s.code == c.code,
        s.constants == c.constants,
        spec_instruction(c, s.ip) == Some(row),
        !(spec_step(s).1 is Fault),
    ensures
        spec_step(s).0.ip == row.next,
{
}

/// The rows form an unbroken instruction walk from `offset` to `end`:
/// each row starts exactly where the walk stands, strictly advances, and
/// hands the walk on at its `next`; the walk ends exactly at `end`.
pub open spec fn chained_from(rows: Seq<InstructionView>, offset: int, end: int) -> bool
    decreases rows.len(),
{
    if rows.len() == 0 {
        offset == end
    } else {
        &&& rows[0].offset == offset
        &&& offset < rows[0].next
        &&& chained_from(rows.drop_first(), rows[0].next, end)
    }
}

/// Offset law: when the walk from offset 0 succeeds, following each row's
/// `next` visits every instruction exactly once — each row starts where
/// the previous row's `next` points, strictly advancing — and terminates
/// exactly at the code's length.
pub proof fn lemma_listing_offsets(c: ChunkView, rows: Seq<InstructionView>)
    requires
        spec_listing(c, 0) == Some(rows),
    ensures
        chained_from(rows, 0, c.code.len() as int),
{
    lemma_walk_offsets(c, 0, rows);
}

/// The inductive form of [`lemma_listing_offsets`], for a walk starting
/// anywhere.
proof fn lemma_walk_offsets(c: ChunkView, offset: int, rows: Seq<InstructionView>)
    requires
        spec_listing(c, offset) == Some(rows),
        0 <= offset <= c.code.len(),
    ensures
        chained_from(rows, offset, c.code.len() as int),
    decreases c.code.len() - offset,
{
    if offset == c.code.len() {
    } else {
        let iv = spec_instruction(c, offset).unwrap();
        let rest = spec_listing(c, iv.next).unwrap();
        lemma_walk_offsets(c, iv.next, rest);
        assert(rows.drop_first() =~= rest);
    }
}

} // verus!
