//! The virtual machine: a growable tape of byte cells, a cursor, and an
//! in-memory console.
//!
//! [`VM::execute`] walks a compiled [`Program`] and is proved to agree,
//! case by case, with the big-step specification in [`crate::semantics`]:
//! the run of `program` on the machine's abstract state, at exactly the
//! fuel the caller hands in, is `Done` when `execute` returns `Ok` and the
//! matching failure outcome otherwise. The fuel bounds loop iterations
//! only; a run that would not finish within it ends with
//! [`ExecError::OutOfFuel`] instead of diverging, and a caller that wants
//! an effectively unbounded run passes `u64::MAX`.

use vstd::prelude::*;

use crate::ast::ExecError;
use crate::ast::Instr;
use crate::ast::Program;
use crate::ast::RuntimeError;
use crate::ast::lemma_instrs_view_index;
use crate::semantics::MachState;
use crate::semantics::RunOutcome;
use crate::semantics::run_instr;
use crate::semantics::run_seq;

verus! {

/// The machine's console, held in memory: the input bytes it may read and
/// the output bytes it has written. The surrounding program supplies the
/// input up front and forwards the output when execution is over.
pub struct IoBuffer {
    /// All input bytes made available to the machine.
    pub input: Vec<u8>,
    /// How many of `input` have been consumed, from the front.
    pub consumed: usize,
    /// Every byte the machine has written, in order.
    pub output: Vec<u8>,
}

impl IoBuffer {
    /// The read position stays within the input.
    pub open spec fn wf(self) -> bool {
        self.consumed <= self.input@.len()
    }

    /// The input bytes not yet consumed.
    pub open spec fn pending(self) -> Seq<u8> {
        self.input@.skip(self.consumed as int)
    }

    /// A console that will serve the bytes of `input` and has written
    /// nothing yet.
    pub fn new(input: Vec<u8>) -> (io: IoBuffer)
        ensures
            io.wf(),
            io.pending() == input@,
            io.output@ == Seq::<u8>::empty(),
    {
        let io = IoBuffer { input, consumed: 0, output: Vec::new() };
        proof {
            assert(io.pending() =~= io.input@);
        }
        io
    }
}

/// The virtual machine: the tape and the cursor into it.
pub struct VM {
    /// The tape cells; it grows to the right and never shrinks.
    pub data: Vec<u8>,
    /// The index of the current cell.
    pub cursor: usize,
}

impl VM {
    /// The cursor stays on the tape.
    pub open spec fn wf(self) -> bool {
        self.cursor < self.data@.len()
    }

    /// The abstract machine state this VM and console stand for.
    pub open spec fn state_with(self, io: IoBuffer) -> MachState {
        MachState {
            tape: self.data@,
            cursor: self.cursor as int,
            input: io.pending(),
            output: io.output@,
        }
    }

    /// A fresh machine: one zero cell, cursor on it.
    pub fn new() -> (vm: VM)
        ensures
            vm.wf(),
            vm.data@ == seq![0u8],
            vm.cursor == 0,
    {
        let vm = VM { data: vec![0], cursor: 0 };
        proof {
            assert(vm.data@ =~= seq![0u8]);
        }
        vm
    }

    /// Executes `program` against this machine and console, with `fuel`
    /// bounding loop iterations.
    ///
    /// The result is exactly the outcome of the specification's run at that
    /// fuel: on `Ok` the machine lands in the `Done` state of the run, and
    /// each error names the outcome — [`RuntimeError::CannotMoveLeft`] for a
    /// failed run, [`ExecError::InputClosed`] for a run that starved of
    /// input, [`ExecError::OutOfFuel`] for a run the fuel cut short.
    #[verifier::loop_isolation(false)]
    pub fn execute(&mut self, program: &Program, io: &mut IoBuffer, fuel: u64) -> (r: Result<
        (),
        ExecError,
    >)
        requires
            old(self).wf(),
            old(io).wf(),
        ensures
            final(self).wf(),
            final(io).wf(),
            ({
                let outcome = run_seq(old(self).state_with(*old(io)), program@, fuel as nat);
                match r {
                    Ok(()) => outcome == RunOutcome::Done(final(self).state_with(*final(io))),
                    Err(ExecError::Runtime(e)) => outcome == RunOutcome::Failed(e),
                    Err(ExecError::InputClosed) => outcome == RunOutcome::NoInput,
                    Err(ExecError::OutOfFuel) => outcome == RunOutcome::OutOfFuel,
                }
            }),
        decreases fuel,
    {
        let ghost st0 = old(self).state_with(*old(io));
        let ghost whole = run_seq(st0, program@, fuel as nat);
        proof {
            lemma_instrs_view_index(program.instrs@);
            assert(program@.skip(0) =~= program@);
        }
        let mut idx: usize = 0;
        while idx < program.instrs.len()
            invariant
                idx <= program.instrs@.len(),
                self.wf(),
                io.wf(),
                whole == run_seq(self.state_with(*io), program@.skip(idx as int), fuel as nat),
            decreases program.instrs@.len() - idx,
        {
            let ghost mid = self.state_with(*io);
            let ghost iv = program@[idx as int];
            proof {
                assert(program@.skip(idx as int)[0] == iv);
                assert(program@.skip(idx as int).drop_first() =~= program@.skip(idx as int + 1));
            }
            match &program.instrs[idx] {
                Instr::Right => {
                    let n: usize = self.data.len();
                    self.cursor = self.cursor + 1;
                    if self.cursor >= n {
                        self.data.push(0);
                    }
                    proof {
                        assert(run_instr(mid, iv, fuel as nat)
                            == RunOutcome::Done(self.state_with(*io)))
                        by {
                            assert(self.state_with(*io) =~= (match run_instr(mid, iv, fuel as nat) {
                                RunOutcome::Done(s) => s,
                                _ => mid,
                            }));
                        }
                    }
                },
                Instr::Left => {
                    if self.cursor == 0 {
                        proof {
                            assert(run_instr(mid, iv, fuel as nat)
                                == RunOutcome::Failed(RuntimeError::CannotMoveLeft));
                        }
                        return Err(ExecError::Runtime(RuntimeError::CannotMoveLeft));
                    }
                    self.cursor = self.cursor - 1;
                    proof {
                        assert(self.state_with(*io) =~= MachState { cursor: mid.cursor - 1, ..mid });
                    }
                },
                Instr::Incr => {
                    let v = self.data[self.cursor];
                    let v2: u8 = if v == 255 { 0 } else { v + 1 };
                    self.data[self.cursor] = v2;
                    proof {
                        assert(v2 == ((mid.cell() + 1) % 256) as u8);
                        assert(self.state_with(*io)
                            =~= MachState { tape: mid.tape.update(mid.cursor, v2), ..mid });
                    }
                },
                Instr::Decr => {
                    let v = self.data[self.cursor];
                    let v2: u8 = if v == 0 { 255 } else { v - 1 };
                    self.data[self.cursor] = v2;
                    proof {
                        assert(v2 == ((mid.cell() + 255) % 256) as u8);
                        assert(self.state_with(*io)
                            =~= MachState { tape: mid.tape.update(mid.cursor, v2), ..mid });
                    }
                },
                Instr::Output => {
                    let v = self.data[self.cursor];
                    io.output.push(v);
                    proof {
                        assert(self.state_with(*io)
                            =~= MachState { output: mid.output.push(mid.cell()), ..mid });
                    }
                },
                Instr::Input => {
                    if io.consumed >= io.input.len() {
                        proof {
                            assert(mid.input.len() == 0);
                            assert(run_instr(mid, iv, fuel as nat) == RunOutcome::NoInput);
                        }
                        return Err(ExecError::InputClosed);
                    }
                    let b = io.input[io.consumed];
                    io.consumed = io.consumed + 1;
                    self.data[self.cursor] = b;
                    proof {
                        assert(b == mid.input[0]);
                        assert(io.pending() =~= mid.input.drop_first());
                        assert(self.state_with(*io) =~= MachState {
                            tape: mid.tape.update(mid.cursor, mid.input[0]),
                            input: mid.input.drop_first(),
                            ..mid
                        });
                    }
                },
                Instr::Block(p) => {
                    let mut f: u64 = fuel;
                    let ghost entry = mid;
                    while self.data[self.cursor] != 0
                        invariant
                            f <= fuel,
                            self.wf(),
                            io.wf(),
                            run_instr(entry, iv, fuel as nat)
                                == run_instr(self.state_with(*io), iv, f as nat),
                        decreases f,
                    {
                        let ghost cur = self.state_with(*io);
                        proof {
                            assert(cur.cell() != 0);
                        }
                        if f == 0 {
                            proof {
                                assert(run_instr(cur, iv, 0nat) == RunOutcome::OutOfFuel);
                                assert(whole == RunOutcome::OutOfFuel);
                            }
                            return Err(ExecError::OutOfFuel);
                        }
                        f = f - 1;
                        let sub = self.execute(p, io, f);
                        proof {
                            assert(run_instr(cur, iv, f as nat + 1) == (match run_seq(
                                cur,
                                p@,
                                f as nat,
                            ) {
                                RunOutcome::Done(s2) => run_instr(s2, iv, f as nat),
                                other => other,
                            }));
                        }
                        match sub {
                            Ok(()) => {},
                            Err(e) => {
                                proof {
                                    assert(run_instr(entry, iv, fuel as nat) == (match e {
                                        ExecError::Runtime(re) => RunOutcome::Failed(re),
                                        ExecError::InputClosed => RunOutcome::NoInput,
                                        ExecError::OutOfFuel => RunOutcome::OutOfFuel,
                                    }));
                                }
                                return Err(e);
                            },
                        }
                    }
                    proof {
                        let cur = self.state_with(*io);
                        assert(cur.cell() == 0);
                        assert(run_instr(cur, iv, f as nat) == RunOutcome::Done(cur));
                        assert(run_instr(mid, iv, fuel as nat) == RunOutcome::Done(cur));
                    }
                },
            }
            idx = idx + 1;
        }
        proof {
            assert(program@.skip(program.instrs@.len() as int) =~= Seq::<crate::ast::SpecInstr>::empty());
        }
        Ok(())
    }
}

} // verus!
