//! The compiler: from a character sequence to an instruction tree.
//!
//! The specification is a single left-to-right pass, [`scan`], over the
//! characters. It keeps a stack of instruction sequences, one per open loop:
//! a command character appends to the innermost sequence, `[` pushes a fresh
//! one, `]` pops the innermost sequence and appends it as a loop to the one
//! below, and a `]` with nothing open is the `ExcessiveBracket` error. A
//! scan that ends with open loops still on the stack is the `MissingBracket`
//! error; [`spec_compile`] says exactly that. The executable compiler is
//! recursive descent, and its contract ties it to the scan.

use vstd::prelude::*;

use crate::ast::CompileError;
use crate::ast::Instr;
use crate::ast::Program;
use crate::ast::SpecInstr;
use crate::ast::instr_view;
use crate::ast::instrs_view;
use crate::ast::lemma_instrs_view_index;

verus! {

/// The scan's state: one instruction sequence per nesting level, outermost
/// first. It is never empty; the last element is the innermost open level.
pub type ScanStack = Seq<Seq<SpecInstr>>;

/// Appends one instruction to the innermost level of the stack.
pub open spec fn push_instr(st: ScanStack, i: SpecInstr) -> ScanStack
    recommends
        st.len() >= 1,
{
    st.update(st.len() - 1, st.last().push(i))
}

/// How one character transforms the scan's stack. A character that is not
/// one of the eight command characters leaves the stack unchanged.
pub open spec fn scan_step(st: ScanStack, c: char) -> Result<ScanStack, CompileError>
    recommends
        st.len() >= 1,
{
    if c == '>' {
        Ok(push_instr(st, SpecInstr::Right))
    } else if c == '<' {
        Ok(push_instr(st, SpecInstr::Left))
    } else if c == '+' {
        Ok(push_instr(st, SpecInstr::Incr))
    } else if c == '-' {
        Ok(push_instr(st, SpecInstr::Decr))
    } else if c == '.' {
        Ok(push_instr(st, SpecInstr::Output))
    } else if c == ',' {
        Ok(push_instr(st, SpecInstr::Input))
    } else if c == '[' {
        Ok(st.push(Seq::empty()))
    } else if c == ']' {
        if st.len() >= 2 {
            Ok(push_instr(st.drop_last(), SpecInstr::Block(st.last())))
        } else {
            Err(CompileError::ExcessiveBracket)
        }
    } else {
        Ok(st)
    }
}

/// Scans `src` from `pos` to the end, threading the stack through
/// [`scan_step`]; the first structural error aborts the scan.
pub open spec fn scan(st: ScanStack, src: Seq<char>, pos: int) -> Result<ScanStack, CompileError>
    decreases src.len() - pos,
{
    if pos < 0 || pos >= src.len() {
        Ok(st)
    } else {
        match scan_step(st, src[pos]) {
            Ok(st2) => scan(st2, src, pos + 1),
            Err(e) => Err(e),
        }
    }
}

/// What compiling `src` must yield: scan the whole sequence starting from a
/// single empty level; success is ending with exactly that one level, and
/// levels still open at the end are a missing bracket.
pub open spec fn spec_compile(src: Seq<char>) -> Result<Seq<SpecInstr>, CompileError> {
    match scan(seq![Seq::empty()], src, 0) {
        Ok(st) => {
            if st.len() == 1 {
                Ok(st[0])
            } else {
                Err(CompileError::MissingBracket)
            }
        },
        Err(e) => Err(e),
    }
}

impl Program {
    /// Parses instructions from `src` starting at `*pos`.
    ///
    /// With `block` set, the call is parsing the body of a loop: it consumes
    /// up to and including the matching `]` and returns the body, and running
    /// off the end of the input is a missing bracket. At the top level
    /// (`block` unset) it consumes the rest of `src`, and a stray `]` is an
    /// excessive bracket.
    ///
    /// The contract phrases both cases against [`scan`]: a parsed loop body
    /// transforms any surrounding scan stack exactly as scanning its
    /// characters does, and the top-level case is the whole of
    /// [`spec_compile`].
    #[verifier::loop_isolation(false)]
    pub fn parse(src: &Vec<char>, pos: &mut usize, block: bool) -> (r: Result<Program, CompileError>)
        requires
            *old(pos) <= src@.len(),
        ensures
            *old(pos) <= *final(pos) <= src@.len(),
            block ==> match r {
                Ok(prog) => {
                    &&& *old(pos) < *final(pos)
                    &&& forall|st: ScanStack|
                        st.len() >= 1 ==> #[trigger] scan(st.push(Seq::empty()), src@, *old(pos) as int)
                            == scan(push_instr(st, SpecInstr::Block(prog@)), src@, *final(pos) as int)
                },
                Err(e) => {
                    &&& e == CompileError::MissingBracket
                    &&& forall|st: ScanStack|
                        st.len() >= 1 ==> #[trigger] scan(st.push(Seq::empty()), src@, *old(pos) as int) is Ok
                            && scan(st.push(Seq::empty()), src@, *old(pos) as int)->Ok_0.len() > st.len()
                },
            },
            !block ==> match r {
                Ok(prog) => {
                    &&& *final(pos) == src@.len()
                    &&& scan(seq![Seq::empty()], src@, *old(pos) as int)
                        == Ok::<ScanStack, CompileError>(seq![prog@])
                },
                Err(e) => match e {
                    CompileError::ExcessiveBracket => scan(seq![Seq::empty()], src@, *old(pos) as int)
                        == Err::<ScanStack, CompileError>(CompileError::ExcessiveBracket),
                    CompileError::MissingBracket => scan(seq![Seq::empty()], src@, *old(pos) as int) is Ok
                        && scan(seq![Seq::empty()], src@, *old(pos) as int)->Ok_0.len() > 1,
                },
            },
        decreases src@.len() - *old(pos),
    {
        let ghost pos0: int = *old(pos) as int;
        let mut accum: Vec<Instr> = Vec::new();
        while *pos < src.len()
            invariant
                pos0 <= *pos <= src@.len(),
                src@.len() == src.len(),
                forall|st: ScanStack| #[trigger] scan(st.push(Seq::empty()), src@, pos0)
                    == scan(st.push(instrs_view(accum@)), src@, *pos as int),
            decreases src@.len() - *pos,
        {
            let ghost q: int = *pos as int;
            let ghost prev = accum@;
            let ghost av = instrs_view(accum@);
            let c = src[*pos];
            *pos = *pos + 1;
            let instr: Instr = match c {
                '>' => Instr::Right,
                '<' => Instr::Left,
                '+' => Instr::Incr,
                '-' => Instr::Decr,
                '.' => Instr::Output,
                ',' => Instr::Input,
                '[' => {
                    match Self::parse(src, pos, true) {
                        Ok(p) => {
                            proof {
                                assert forall|st: ScanStack|
                                    scan(st.push(Seq::empty()), src@, pos0)
                                        == scan(st.push(av.push(SpecInstr::Block(p@))), src@, *pos as int)
                                by {
                                    assert(scan(st.push(Seq::empty()), src@, pos0)
                                        == scan(st.push(av), src@, q));
                                    assert(scan_step(st.push(av), c)
                                        == Ok::<ScanStack, CompileError>(st.push(av).push(Seq::empty())));
                                    assert(scan(st.push(av).push(Seq::empty()), src@, q + 1)
                                        == scan(push_instr(st.push(av), SpecInstr::Block(p@)), src@, *pos as int));
                                    assert(push_instr(st.push(av), SpecInstr::Block(p@))
                                        =~= st.push(av.push(SpecInstr::Block(p@))));
                                }
                            }
                            Instr::Block(p)
                        },
                        Err(e) => {
                            proof {
                                assert forall|st: ScanStack|
                                    st.len() >= 1 implies scan(st.push(Seq::empty()), src@, pos0) is Ok
                                        && scan(st.push(Seq::empty()), src@, pos0)->Ok_0.len() > st.len()
                                by {
                                    assert(scan(st.push(Seq::empty()), src@, pos0)
                                        == scan(st.push(av), src@, q));
                                    assert(scan_step(st.push(av), c)
                                        == Ok::<ScanStack, CompileError>(st.push(av).push(Seq::empty())));
                                    assert(scan(st.push(av).push(Seq::empty()), src@, q + 1) is Ok);
                                }
                                if !block {
                                    assert(Seq::<Seq<SpecInstr>>::empty().push(Seq::empty())
                                        =~= seq![Seq::<SpecInstr>::empty()]);
                                    assert(scan(Seq::<Seq<SpecInstr>>::empty().push(Seq::empty()), src@, pos0)
                                        == scan(Seq::<Seq<SpecInstr>>::empty().push(av), src@, q));
                                    assert(Seq::<Seq<SpecInstr>>::empty().push(av) =~= seq![av]);
                                    assert(scan_step(seq![av], c)
                                        == Ok::<ScanStack, CompileError>(seq![av].push(Seq::empty())));
                                    assert(scan(seq![av].push(Seq::empty()), src@, q + 1) is Ok
                                        && scan(seq![av].push(Seq::empty()), src@, q + 1)->Ok_0.len()
                                            > seq![av].len());
                                    assert(scan(seq![Seq::empty()], src@, pos0) is Ok
                                        && scan(seq![Seq::empty()], src@, pos0)->Ok_0.len() > 1);
                                }
                            }
                            return Err(e);
                        },
                    }
                },
                ']' => {
                    if block {
                        let prog = Program { instrs: accum };
                        proof {
                            assert forall|st: ScanStack|
                                st.len() >= 1 implies scan(st.push(Seq::empty()), src@, pos0)
                                    == scan(push_instr(st, SpecInstr::Block(prog@)), src@, *pos as int)
                            by {
                                assert(scan(st.push(Seq::empty()), src@, pos0)
                                    == scan(st.push(av), src@, q));
                                assert(st.push(av).drop_last() =~= st);
                                assert(scan_step(st.push(av), c)
                                    == Ok::<ScanStack, CompileError>(push_instr(st, SpecInstr::Block(av))));
                            }
                        }
                        return Ok(prog);
                    } else {
                        proof {
                            assert(Seq::<Seq<SpecInstr>>::empty().push(Seq::empty())
                                =~= seq![Seq::<SpecInstr>::empty()]);
                            assert(scan(Seq::<Seq<SpecInstr>>::empty().push(Seq::empty()), src@, pos0)
                                == scan(Seq::<Seq<SpecInstr>>::empty().push(av), src@, q));
                            assert(Seq::<Seq<SpecInstr>>::empty().push(av) =~= seq![av]);
                            assert(seq![av].len() == 1);
                            assert(scan_step(seq![av], c)
                                == Err::<ScanStack, CompileError>(CompileError::ExcessiveBracket));
                            assert(scan(seq![Seq::empty()], src@, pos0)
                                == Err::<ScanStack, CompileError>(CompileError::ExcessiveBracket));
                        }
                        return Err(CompileError::ExcessiveBracket);
                    }
                },
                _ => {
                    proof {
                        assert forall|st: ScanStack|
                            scan(st.push(Seq::empty()), src@, pos0)
                                == scan(st.push(instrs_view(accum@)), src@, *pos as int)
                        by {
                            assert(scan(st.push(Seq::empty()), src@, pos0)
                                == scan(st.push(av), src@, q));
                            assert(scan_step(st.push(av), c)
                                == Ok::<ScanStack, CompileError>(st.push(av)));
                        }
                    }
                    continue;
                },
            };
            let ghost iv = instr_view(instr);
            accum.push(instr);
            proof {
                assert(accum@.drop_last() =~= prev);
                lemma_instrs_view_push(av, accum@);
                assert forall|st: ScanStack|
                    scan(st.push(Seq::empty()), src@, pos0)
                        == scan(st.push(instrs_view(accum@)), src@, *pos as int)
                by {
                    assert(scan(st.push(Seq::empty()), src@, pos0) == scan(st.push(av), src@, q));
                    if !(c == '[') {
                        assert(scan_step(st.push(av), c)
                            == Ok::<ScanStack, CompileError>(push_instr(st.push(av), iv)));
                    }
                    assert(push_instr(st.push(av), iv) =~= st.push(av.push(iv)));
                }
            }
        }
        // End of input.
        if block {
            proof {
                assert forall|st: ScanStack|
                    st.len() >= 1 implies scan(st.push(Seq::empty()), src@, pos0) is Ok
                        && scan(st.push(Seq::empty()), src@, pos0)->Ok_0.len() > st.len()
                by {
                    assert(scan(st.push(Seq::empty()), src@, pos0)
                        == scan(st.push(instrs_view(accum@)), src@, *pos as int));
                    assert(scan(st.push(instrs_view(accum@)), src@, *pos as int)
                        == Ok::<ScanStack, CompileError>(st.push(instrs_view(accum@))));
                }
            }
            Err(CompileError::MissingBracket)
        } else {
            let prog = Program { instrs: accum };
            proof {
                assert(Seq::<Seq<SpecInstr>>::empty().push(Seq::empty())
                    =~= seq![Seq::<SpecInstr>::empty()]);
                assert(scan(Seq::<Seq<SpecInstr>>::empty().push(Seq::empty()), src@, pos0)
                    == scan(Seq::<Seq<SpecInstr>>::empty().push(instrs_view(accum@)), src@, *pos as int));
                assert(Seq::<Seq<SpecInstr>>::empty().push(instrs_view(accum@)) =~= seq![prog@]);
                assert(scan(seq![prog@], src@, *pos as int)
                    == Ok::<ScanStack, CompileError>(seq![prog@]));
                assert(scan(seq![Seq::empty()], src@, pos0)
                    == Ok::<ScanStack, CompileError>(seq![prog@]));
            }
            Ok(prog)
        }
    }
}

/// Appending one instruction to a sequence appends its view: how the
/// parser's accumulated program grows, seen through `instrs_view`.
proof fn lemma_instrs_view_push(av: Seq<SpecInstr>, s2: Seq<Instr>)
    requires
        s2.len() >= 1,
        av == instrs_view(s2.drop_last()),
    ensures
        instrs_view(s2) == av.push(instr_view(s2.last())),
{
    lemma_instrs_view_index(s2);
    lemma_instrs_view_index(s2.drop_last());
    assert(instrs_view(s2) =~= av.push(instr_view(s2.last())));
}

/// Compiles a whole source text: the executable counterpart of
/// [`spec_compile`], and exact against it in both directions.
pub fn compile(source: &Vec<char>) -> (r: Result<Program, CompileError>)
    ensures
        match r {
            Ok(prog) => spec_compile(source@) == Ok::<Seq<SpecInstr>, CompileError>(prog@),
            Err(e) => spec_compile(source@) == Err::<Seq<SpecInstr>, CompileError>(e),
        },
{
    let mut pos: usize = 0;
    Program::parse(source, &mut pos, false)
}

} // verus!
