//! The properties the library promises, stated and proved once and for all.
//!
//! The first group is about compilation, phrased over [`spec_compile`] —
//! which [`crate::parser::compile`] is proved exact against — with bracket
//! counting done by [`bracket_balance`]. The second group is about
//! execution, phrased over [`run_instr`] — which [`crate::vm::VM::execute`]
//! is proved exact against.

use vstd::prelude::*;

use crate::ast::CompileError;
use crate::ast::RuntimeError;
use crate::ast::SpecInstr;
use crate::parser::ScanStack;
use crate::parser::scan;
use crate::parser::scan_step;
use crate::parser::spec_compile;
use crate::semantics::MachState;
use crate::semantics::RunOutcome;
use crate::semantics::run_instr;

verus! {

/// Whether `c` is one of the eight command characters; every other
/// character is a comment.
pub open spec fn is_command(c: char) -> bool {
    c == '>' || c == '<' || c == '+' || c == '-' || c == '.' || c == ',' || c == '[' || c == ']'
}

/// The contribution of one character to the count of open loops.
pub open spec fn bracket_delta(c: char) -> int {
    if c == '[' {
        1
    } else if c == ']' {
        -1
    } else {
        0
    }
}

/// Loop-opens minus loop-closes in `src[i..j]`.
pub open spec fn bracket_balance(src: Seq<char>, i: int, j: int) -> int
    decreases j - i,
{
    if i < 0 || i >= j || j > src.len() {
        0
    } else {
        bracket_delta(src[i]) + bracket_balance(src, i + 1, j)
    }
}

/// While every remainder of the scan keeps at least one level on the stack,
/// the scan succeeds, and ends with as many levels as the balance says.
proof fn lemma_scan_of_balance(st: ScanStack, src: Seq<char>, pos: int)
    requires
        st.len() >= 1,
        0 <= pos <= src.len(),
        forall|k: int| pos <= k <= src.len() ==> st.len() + #[trigger] bracket_balance(src, pos, k)
            >= 1,
    ensures
        scan(st, src, pos) is Ok,
        scan(st, src, pos)->Ok_0.len() == st.len() + bracket_balance(src, pos, src.len() as int),
    decreases src.len() - pos,
{
    if pos < src.len() {
        let c = src[pos];
        assert(st.len() + bracket_balance(src, pos, pos + 1) >= 1);
        assert(bracket_balance(src, pos + 1, pos + 1) == 0);
        assert(bracket_balance(src, pos, pos + 1) == bracket_delta(c));
        assert(c == ']' ==> st.len() >= 2);
        assert(scan_step(st, c) is Ok);
        let st2 = scan_step(st, c)->Ok_0;
        assert(scan_step(st, c) == Ok::<ScanStack, CompileError>(st2));
        assert(st2.len() == st.len() + bracket_delta(c));
        assert forall|k: int| pos + 1 <= k <= src.len() implies st2.len()
            + #[trigger] bracket_balance(src, pos + 1, k) >= 1 by {
            assert(bracket_balance(src, pos, k) == bracket_delta(c) + bracket_balance(
                src,
                pos + 1,
                k,
            ));
        }
        lemma_scan_of_balance(st2, src, pos + 1);
        assert(bracket_balance(src, pos, src.len() as int) == bracket_delta(c) + bracket_balance(
            src,
            pos + 1,
            src.len() as int,
        ));
    }
}

/// Once some remainder of the scan would need to pop below the outermost
/// level, the scan fails with the excessive-bracket error.
proof fn lemma_scan_of_drop(st: ScanStack, src: Seq<char>, pos: int, k: int)
    requires
        st.len() >= 1,
        0 <= pos <= k <= src.len(),
        st.len() + bracket_balance(src, pos, k) < 1,
    ensures
        scan(st, src, pos) == Err::<ScanStack, CompileError>(CompileError::ExcessiveBracket),
    decreases src.len() - pos,
{
    assert(k > pos);
    let c = src[pos];
    assert(bracket_balance(src, pos, k) == bracket_delta(c) + bracket_balance(src, pos + 1, k));
    if c == ']' && st.len() == 1 {
        assert(scan_step(st, c) == Err::<ScanStack, CompileError>(CompileError::ExcessiveBracket));
    } else {
        assert(c == ']' ==> st.len() >= 2);
        assert(scan_step(st, c) is Ok);
        let st2 = scan_step(st, c)->Ok_0;
        assert(scan_step(st, c) == Ok::<ScanStack, CompileError>(st2));
        assert(st2.len() == st.len() + bracket_delta(c));
        if k == pos + 1 {
            assert(false);
        }
        lemma_scan_of_drop(st2, src, pos + 1, k);
    }
}

/// A source whose loop-opens and loop-closes are equal in number, and whose
/// every prefix has at least as many opens as closes, compiles.
pub proof fn lemma_balanced_source_compiles(src: Seq<char>)
    requires
        forall|k: int| 0 <= k <= src.len() ==> #[trigger] bracket_balance(src, 0, k) >= 0,
        bracket_balance(src, 0, src.len() as int) == 0,
    ensures
        spec_compile(src) is Ok,
{
    lemma_scan_of_balance(seq![Seq::empty()], src, 0);
}

/// A source with some prefix holding more loop-closes than loop-opens fails
/// to compile with the excessive-bracket error.
pub proof fn lemma_excess_close_fails(src: Seq<char>, k: int)
    requires
        0 <= k <= src.len(),
        bracket_balance(src, 0, k) < 0,
    ensures
        spec_compile(src) == Err::<Seq<SpecInstr>, CompileError>(CompileError::ExcessiveBracket),
{
    lemma_scan_of_drop(seq![Seq::empty()], src, 0, k);
}

/// A source whose prefixes never close more loops than they open, but which
/// leaves loops open at the end, fails to compile with the missing-bracket
/// error.
pub proof fn lemma_unclosed_open_fails(src: Seq<char>)
    requires
        forall|k: int| 0 <= k <= src.len() ==> #[trigger] bracket_balance(src, 0, k) >= 0,
        bracket_balance(src, 0, src.len() as int) > 0,
    ensures
        spec_compile(src) == Err::<Seq<SpecInstr>, CompileError>(CompileError::MissingBracket),
{
    lemma_scan_of_balance(seq![Seq::empty()], src, 0);
}

/// Two scans over the same remaining characters agree.
proof fn lemma_scan_agree(st: ScanStack, src1: Seq<char>, pos1: int, src2: Seq<char>, pos2: int)
    requires
        0 <= pos1 <= src1.len(),
        0 <= pos2 <= src2.len(),
        src1.len() - pos1 == src2.len() - pos2,
        forall|j: int| 0 <= j < src1.len() - pos1 ==> src1[pos1 + j] == #[trigger] src2[pos2 + j],
    ensures
        scan(st, src1, pos1) == scan(st, src2, pos2),
    decreases src1.len() - pos1,
{
    if pos1 < src1.len() {
        assert(src1[pos1 + 0] == src2[pos2 + 0]);
        match scan_step(st, src1[pos1]) {
            Ok(st2) => {
                assert forall|j: int| 0 <= j < src1.len() - (pos1 + 1) implies src1[pos1 + 1 + j]
                    == #[trigger] src2[pos2 + 1 + j] by {
                    assert(src1[pos1 + (j + 1)] == src2[pos2 + (j + 1)]);
                }
                lemma_scan_agree(st2, src1, pos1 + 1, src2, pos2 + 1);
            },
            Err(_) => {},
        }
    }
}

/// The scan does not see a comment character inserted at position
/// `x.len()`, wherever the scan stands in `x`.
proof fn lemma_scan_insert_comment(st: ScanStack, x: Seq<char>, c: char, y: Seq<char>, pos: int)
    requires
        !is_command(c),
        0 <= pos <= x.len(),
    ensures
        scan(st, x + seq![c] + y, pos) == scan(st, x + y, pos),
    decreases x.len() - pos,
{
    let with = x + seq![c] + y;
    let without = x + y;
    if pos == x.len() {
        assert(with[pos] == c);
        assert(scan_step(st, c) == Ok::<ScanStack, CompileError>(st));
        assert forall|j: int| 0 <= j < with.len() - (pos + 1) implies with[pos + 1 + j]
            == #[trigger] without[pos + j] by {
            assert(with[pos + 1 + j] == y[j]);
            assert(without[pos + j] == y[j]);
        }
        lemma_scan_agree(st, with, pos + 1, without, pos);
    } else {
        assert(with[pos] == x[pos]);
        assert(without[pos] == x[pos]);
        match scan_step(st, x[pos]) {
            Ok(st2) => {
                lemma_scan_insert_comment(st2, x, c, y, pos + 1);
            },
            Err(_) => {},
        }
    }
}

/// Inserting a character that is not one of the eight commands, anywhere in
/// a source, leaves the compiled program unchanged — and with it everything
/// the compiled program determines, execution included.
pub proof fn lemma_comment_insertion(x: Seq<char>, c: char, y: Seq<char>)
    requires
        !is_command(c),
    ensures
        spec_compile(x + seq![c] + y) == spec_compile(x + y),
{
    lemma_scan_insert_comment(seq![Seq::empty()], x, c, y, 0);
}

/// The machine's invariants hold through one instruction: from a state
/// whose cursor is on the tape, a run that completes lands the cursor on
/// the tape again, and the tape has not shrunk — it only ever grows to the
/// right.
pub proof fn lemma_instr_keeps_invariants(s: MachState, i: SpecInstr, fuel: nat)
    requires
        s.wf(),
    ensures
        run_instr(s, i, fuel) is Done ==> {
            let s2 = run_instr(s, i, fuel)->Done_0;
            s2.wf() && s2.tape.len() >= s.tape.len()
        },
    decreases fuel, 0nat,
{
    match i {
        SpecInstr::Block(body) => {
            if s.cell() != 0 && fuel > 0 {
                let f = (fuel - 1) as nat;
                match crate::semantics::run_seq(s, body, f) {
                    RunOutcome::Done(s2) => {
                        lemma_seq_keeps_invariants(s, body, f);
                        lemma_instr_keeps_invariants(s2, i, f);
                    },
                    _ => {},
                }
            }
        },
        _ => {},
    }
}

/// The machine's invariants hold through a whole instruction sequence.
pub proof fn lemma_seq_keeps_invariants(s: MachState, instrs: Seq<SpecInstr>, fuel: nat)
    requires
        s.wf(),
    ensures
        crate::semantics::run_seq(s, instrs, fuel) is Done ==> {
            let s2 = crate::semantics::run_seq(s, instrs, fuel)->Done_0;
            s2.wf() && s2.tape.len() >= s.tape.len()
        },
    decreases fuel, instrs.len(),
{
    if instrs.len() > 0 {
        match run_instr(s, instrs[0], fuel) {
            RunOutcome::Done(s2) => {
                lemma_instr_keeps_invariants(s, instrs[0], fuel);
                lemma_seq_keeps_invariants(s2, instrs.drop_first(), fuel);
            },
            _ => {},
        }
    }
}

/// Moving left with the cursor on cell 0 fails with
/// [`RuntimeError::CannotMoveLeft`], whatever the rest of the state and
/// whatever the fuel.
pub proof fn lemma_move_left_at_zero(s: MachState, fuel: nat)
    requires
        s.cursor == 0,
    ensures
        run_instr(s, SpecInstr::Left, fuel) == RunOutcome::Failed(RuntimeError::CannotMoveLeft),
{
}

/// Moving right always succeeds: the cursor advances by one, the tape grows
/// by one zero cell exactly when the cursor steps past its end, and no cell
/// that already existed changes — so returning to a visited cell finds its
/// value intact.
pub proof fn lemma_move_right_succeeds(s: MachState, fuel: nat)
    ensures
        run_instr(s, SpecInstr::Right, fuel) is Done,
        ({
            let s2 = run_instr(s, SpecInstr::Right, fuel)->Done_0;
            &&& s2.cursor == s.cursor + 1
            &&& s2.tape == (if s.cursor + 1 >= s.tape.len() {
                s.tape.push(0u8)
            } else {
                s.tape
            })
            &&& forall|i: int| 0 <= i < s.tape.len() ==> s2.tape[i] == s.tape[i]
            &&& s2.input == s.input
            &&& s2.output == s.output
        }),
{
}

/// Incrementing a cell holding 255 wraps it to 0.
pub proof fn lemma_increment_wraps(s: MachState, fuel: nat)
    requires
        s.wf(),
        s.cell() == 255,
    ensures
        run_instr(s, SpecInstr::Incr, fuel) is Done,
        run_instr(s, SpecInstr::Incr, fuel)->Done_0.cell() == 0,
{
}

/// Decrementing a cell holding 0 wraps it to 255.
pub proof fn lemma_decrement_wraps(s: MachState, fuel: nat)
    requires
        s.wf(),
        s.cell() == 0,
    ensures
        run_instr(s, SpecInstr::Decr, fuel) is Done,
        run_instr(s, SpecInstr::Decr, fuel)->Done_0.cell() == 255,
{
}

/// A loop whose current cell is 0 runs its body zero times: the state comes
/// out exactly as it went in, whatever the body and whatever the fuel.
pub proof fn lemma_loop_skipped_on_zero(s: MachState, body: Seq<SpecInstr>, fuel: nat)
    requires
        s.wf(),
        s.cell() == 0,
    ensures
        run_instr(s, SpecInstr::Block(body), fuel) == RunOutcome::Done(s),
{
}

} // verus!
