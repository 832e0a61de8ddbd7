//! A fuel-indexed big-step specification of execution.
//!
//! A [`MachState`] holds the tape, the cursor, the input bytes not yet read
//! and the output bytes written so far. [`run_instr`] and [`run_seq`] give the
//! meaning of one instruction and of an instruction sequence; the fuel bounds
//! the number of loop iterations, so both are total, and [`RunOutcome::OutOfFuel`]
//! marks a run that was cut short. Adding fuel never changes an outcome that
//! was not cut short ([`lemma_run_instr_fuel_mono`]), so "the program halts
//! with outcome `r`" is "there is a fuel on which the run gives `r`".

use vstd::prelude::*;

use crate::ast::RuntimeError;
use crate::ast::SpecInstr;

verus! {

/// The whole state of an abstract machine: memory, cursor and both streams.
#[verifier::ext_equal]
pub struct MachState {
    /// The tape cells, left to right.
    pub tape: Seq<u8>,
    /// The index of the current cell.
    pub cursor: int,
    /// The input bytes not yet consumed.
    pub input: Seq<u8>,
    /// The output bytes written so far.
    pub output: Seq<u8>,
}

impl MachState {
    /// The cursor stays on the tape.
    pub open spec fn wf(self) -> bool {
        0 <= self.cursor < self.tape.len()
    }

    /// The value of the cell under the cursor.
    pub open spec fn cell(self) -> u8 {
        self.tape[self.cursor]
    }
}

/// The machine a fresh VM stands for: one zero cell, cursor at 0, nothing
/// read or written, `input` still to come.
pub open spec fn init_state(input: Seq<u8>) -> MachState {
    MachState { tape: seq![0u8], cursor: 0, input, output: Seq::empty() }
}

/// How a bounded run ended.
pub enum RunOutcome {
    /// The run completed, in this state.
    Done(MachState),
    /// The run raised this error; the machine stops at once.
    Failed(RuntimeError),
    /// An input instruction ran with the input stream empty.
    NoInput,
    /// The fuel ran out before the run completed.
    OutOfFuel,
}

/// The meaning of one instruction: how it transforms a machine state.
/// `fuel` bounds loop iterations; every other instruction ignores it.
pub open spec fn run_instr(s: MachState, i: SpecInstr, fuel: nat) -> RunOutcome
    decreases fuel, 0nat,
{
    match i {
        SpecInstr::Right => {
            let tape2 = if s.cursor + 1 >= s.tape.len() {
                s.tape.push(0u8)
            } else {
                s.tape
            };
            RunOutcome::Done(MachState { cursor: s.cursor + 1, tape: tape2, ..s })
        },
        SpecInstr::Left => {
            if s.cursor > 0 {
                RunOutcome::Done(MachState { cursor: s.cursor - 1, ..s })
            } else {
                RunOutcome::Failed(RuntimeError::CannotMoveLeft)
            }
        },
        SpecInstr::Incr => {
            let v = ((s.cell() + 1) % 256) as u8;
            RunOutcome::Done(MachState { tape: s.tape.update(s.cursor, v), ..s })
        },
        SpecInstr::Decr => {
            let v = ((s.cell() + 255) % 256) as u8;
            RunOutcome::Done(MachState { tape: s.tape.update(s.cursor, v), ..s })
        },
        SpecInstr::Output => {
            RunOutcome::Done(MachState { output: s.output.push(s.cell()), ..s })
        },
        SpecInstr::Input => {
            if s.input.len() == 0 {
                RunOutcome::NoInput
            } else {
                RunOutcome::Done(
                    MachState {
                        tape: s.tape.update(s.cursor, s.input[0]),
                        input: s.input.drop_first(),
                        ..s
                    },
                )
            }
        },
        SpecInstr::Block(body) => {
            if s.cell() == 0 {
                RunOutcome::Done(s)
            } else if fuel == 0 {
                RunOutcome::OutOfFuel
            } else {
                match run_seq(s, body, (fuel - 1) as nat) {
                    RunOutcome::Done(s2) => run_instr(s2, i, (fuel - 1) as nat),
                    r => r,
                }
            }
        },
    }
}

/// The meaning of an instruction sequence, run left to right.
pub open spec fn run_seq(s: MachState, instrs: Seq<SpecInstr>, fuel: nat) -> RunOutcome
    decreases fuel, instrs.len(),
{
    if instrs.len() == 0 {
        RunOutcome::Done(s)
    } else {
        match run_instr(s, instrs[0], fuel) {
            RunOutcome::Done(s2) => run_seq(s2, instrs.drop_first(), fuel),
            r => r,
        }
    }
}

/// Adding fuel never changes the outcome of a one-instruction run that did
/// not run out of fuel.
pub proof fn lemma_run_instr_fuel_mono(s: MachState, i: SpecInstr, fuel1: nat, fuel2: nat)
    requires
        fuel1 <= fuel2,
        !(run_instr(s, i, fuel1) is OutOfFuel),
    ensures
        run_instr(s, i, fuel2) == run_instr(s, i, fuel1),
    decreases fuel1, 0nat,
{
    match i {
        SpecInstr::Block(body) => {
            if s.cell() != 0 {
                let f1 = (fuel1 - 1) as nat;
                let f2 = (fuel2 - 1) as nat;
                match run_seq(s, body, f1) {
                    RunOutcome::Done(s2) => {
                        lemma_run_seq_fuel_mono(s, body, f1, f2);
                        lemma_run_instr_fuel_mono(s2, i, f1, f2);
                    },
                    RunOutcome::OutOfFuel => {},
                    _ => {
                        lemma_run_seq_fuel_mono(s, body, f1, f2);
                    },
                }
            }
        },
        _ => {},
    }
}

/// Adding fuel never changes the outcome of a sequence run that did not run
/// out of fuel.
pub proof fn lemma_run_seq_fuel_mono(s: MachState, instrs: Seq<SpecInstr>, fuel1: nat, fuel2: nat)
    requires
        fuel1 <= fuel2,
        !(run_seq(s, instrs, fuel1) is OutOfFuel),
    ensures
        run_seq(s, instrs, fuel2) == run_seq(s, instrs, fuel1),
    decreases fuel1, instrs.len(),
{
    if instrs.len() > 0 {
        match run_instr(s, instrs[0], fuel1) {
            RunOutcome::Done(s2) => {
                lemma_run_instr_fuel_mono(s, instrs[0], fuel1, fuel2);
                lemma_run_seq_fuel_mono(s2, instrs.drop_first(), fuel1, fuel2);
            },
            RunOutcome::OutOfFuel => {},
            _ => {
                lemma_run_instr_fuel_mono(s, instrs[0], fuel1, fuel2);
            },
        }
    }
}

} // verus!
