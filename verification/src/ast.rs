//! The instruction tree produced by compilation, the error types, and the
//! ghost views that contracts are stated over.

use vstd::prelude::*;

verus! {

/// One executable instruction. Loop bodies are nested programs, so a compiled
/// program is a tree rooted at the top-level instruction sequence.
#[derive(Debug, PartialEq, Eq)]
pub enum Instr {
    /// `>`: move the cursor one cell to the right, growing the tape if needed.
    Right,
    /// `<`: move the cursor one cell to the left; fails at cell 0.
    Left,
    /// `+`: increment the current cell, wrapping 255 to 0.
    Incr,
    /// `-`: decrement the current cell, wrapping 0 to 255.
    Decr,
    /// `.`: append the current cell's value to the output stream.
    Output,
    /// `,`: read one byte from the input stream into the current cell.
    Input,
    /// `[body]`: run `body` while the current cell is non-zero.
    Block(Program),
}

/// A compiled program: an ordered sequence of instructions.
#[derive(Debug, PartialEq, Eq)]
pub struct Program {
    /// The instructions, in execution order.
    pub instrs: Vec<Instr>,
}

/// The ghost mirror of [`Instr`]: loop bodies are `Seq`s, so specifications
/// can build and take apart instruction trees.
#[verifier::ext_equal]
pub enum SpecInstr {
    /// Mirror of [`Instr::Right`].
    Right,
    /// Mirror of [`Instr::Left`].
    Left,
    /// Mirror of [`Instr::Incr`].
    Incr,
    /// Mirror of [`Instr::Decr`].
    Decr,
    /// Mirror of [`Instr::Output`].
    Output,
    /// Mirror of [`Instr::Input`].
    Input,
    /// Mirror of [`Instr::Block`].
    Block(Seq<SpecInstr>),
}

/// The abstraction of one instruction.
pub open spec fn instr_view(i: Instr) -> SpecInstr
    decreases i,
{
    match i {
        Instr::Right => SpecInstr::Right,
        Instr::Left => SpecInstr::Left,
        Instr::Incr => SpecInstr::Incr,
        Instr::Decr => SpecInstr::Decr,
        Instr::Output => SpecInstr::Output,
        Instr::Input => SpecInstr::Input,
        Instr::Block(p) => SpecInstr::Block(instrs_view(p.instrs@)),
    }
}

/// The abstraction of an instruction sequence, element by element.
pub open spec fn instrs_view(s: Seq<Instr>) -> Seq<SpecInstr>
    decreases s,
{
    if s.len() == 0 {
        Seq::empty()
    } else {
        seq![instr_view(s[0])] + instrs_view(s.drop_first())
    }
}

impl View for Instr {
    type V = SpecInstr;

    open spec fn view(&self) -> SpecInstr {
        instr_view(*self)
    }
}

impl View for Program {
    type V = Seq<SpecInstr>;

    open spec fn view(&self) -> Seq<SpecInstr> {
        instrs_view(self.instrs@)
    }
}

/// `instrs_view` maps the sequence pointwise.
pub proof fn lemma_instrs_view_index(s: Seq<Instr>)
    ensures
        instrs_view(s).len() == s.len(),
        forall|i: int| 0 <= i < s.len() ==> instrs_view(s)[i] == instr_view(s[i]),
    decreases s.len(),
{
    if s.len() > 0 {
        lemma_instrs_view_index(s.drop_first());
    }
}

/// Whether `i`, or anything nested inside it, is an input instruction.
pub open spec fn spec_instr_reads_input(i: SpecInstr) -> bool
    decreases i,
{
    match i {
        SpecInstr::Input => true,
        SpecInstr::Block(body) => spec_reads_input(body),
        _ => false,
    }
}

/// Whether any instruction of `instrs`, at any nesting depth, is an input
/// instruction.
pub open spec fn spec_reads_input(instrs: Seq<SpecInstr>) -> bool
    decreases instrs,
{
    exists|i: int| 0 <= i < instrs.len() && spec_instr_reads_input(#[trigger] instrs[i])
}

impl Program {
    /// Whether running this program could ever read input: whether an input
    /// instruction occurs anywhere in the tree. A caller that must provide
    /// input up front uses this to decide whether any is needed.
    #[verifier::loop_isolation(false)]
    pub fn reads_input(&self) -> (r: bool)
        ensures
            r == spec_reads_input(self@),
        decreases *self,
    {
        proof {
            lemma_instrs_view_index(self.instrs@);
        }
        let mut idx: usize = 0;
        while idx < self.instrs.len()
            invariant
                idx <= self.instrs@.len(),
                forall|i: int| 0 <= i < idx ==> !spec_instr_reads_input(#[trigger] self@[i]),
            decreases self.instrs@.len() - idx,
        {
            match &self.instrs[idx] {
                Instr::Input => {
                    proof {
                        assert(spec_instr_reads_input(self@[idx as int]));
                    }
                    return true;
                },
                Instr::Block(p) => {
                    if p.reads_input() {
                        proof {
                            assert(spec_instr_reads_input(self@[idx as int]));
                        }
                        return true;
                    }
                },
                _ => {},
            }
            idx = idx + 1;
        }
        false
    }
}

/// A structural error found while compiling.
#[derive(Debug, Clone, Copy, PartialEq, Eq, Structural)]
pub enum CompileError {
    /// A loop was opened but the input ended before its matching close.
    MissingBracket,
    /// A loop-close appeared at the top level, with no enclosing open.
    ExcessiveBracket,
}

/// A recoverable error raised while executing.
#[derive(Debug, Clone, Copy, PartialEq, Eq, Structural)]
pub enum RuntimeError {
    /// The cursor was asked to move below cell 0.
    CannotMoveLeft,
}

/// Why an execution stopped short of completing the program.
#[derive(Debug, Clone, Copy, PartialEq, Eq, Structural)]
pub enum ExecError {
    /// A [`RuntimeError`] was raised and propagated out of every loop.
    Runtime(RuntimeError),
    /// An input instruction ran with the input stream exhausted; the caller
    /// treats this as unrecoverable.
    InputClosed,
    /// The step budget handed to the machine ran out before the program
    /// completed.
    OutOfFuel,
}

} // verus!
