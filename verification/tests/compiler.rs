//! Tests for compilation: classification of the eight command characters,
//! bracket matching, and both structural errors.

use tapevm::ast::{CompileError, Instr, Program};
use tapevm::parser::compile;

fn chars(s: &str) -> Vec<char> {
    s.chars().collect()
}

#[test]
fn compiles_empty_source() {
    let p = compile(&chars("")).unwrap();
    assert!(p.instrs.is_empty());
}

#[test]
fn compiles_each_primitive() {
    let p = compile(&chars("><+-.,")).unwrap();
    assert_eq!(
        p.instrs,
        vec![
            Instr::Right,
            Instr::Left,
            Instr::Incr,
            Instr::Decr,
            Instr::Output,
            Instr::Input,
        ]
    );
}

#[test]
fn compiles_nested_loops() {
    let p = compile(&chars("+[>[-]<]")).unwrap();
    assert_eq!(p.instrs.len(), 2);
    assert_eq!(p.instrs[0], Instr::Incr);
    match &p.instrs[1] {
        Instr::Block(outer) => {
            assert_eq!(outer.instrs.len(), 3);
            assert_eq!(outer.instrs[0], Instr::Right);
            assert_eq!(
                outer.instrs[1],
                Instr::Block(Program {
                    instrs: vec![Instr::Decr]
                })
            );
            assert_eq!(outer.instrs[2], Instr::Left);
        }
        other => panic!("expected a loop, got {:?}", other),
    }
}

#[test]
fn balanced_brackets_compile() {
    assert!(compile(&chars("[[]][[[]]]")).is_ok());
    assert!(compile(&chars("+[+[+[+]+]+]+")).is_ok());
}

#[test]
fn lone_close_is_excessive() {
    assert_eq!(compile(&chars("]")), Err(CompileError::ExcessiveBracket));
}

#[test]
fn lone_open_is_missing() {
    assert_eq!(compile(&chars("[")), Err(CompileError::MissingBracket));
}

#[test]
fn close_heavy_prefix_is_excessive() {
    assert_eq!(compile(&chars("[]]")), Err(CompileError::ExcessiveBracket));
    assert_eq!(compile(&chars("][")), Err(CompileError::ExcessiveBracket));
    assert_eq!(
        compile(&chars("+[-]]+[")),
        Err(CompileError::ExcessiveBracket)
    );
}

#[test]
fn trailing_opens_are_missing() {
    assert_eq!(compile(&chars("[[]")), Err(CompileError::MissingBracket));
    assert_eq!(compile(&chars("+[+[")), Err(CompileError::MissingBracket));
}

#[test]
fn comment_characters_are_ignored() {
    let commented = compile(&chars("a+b [c-d] e\n2")).unwrap();
    let plain = compile(&chars("+[-]")).unwrap();
    assert_eq!(commented, plain);
}

#[test]
fn reads_input_finds_nested_input() {
    assert!(compile(&chars("+[>,<-]")).unwrap().reads_input());
    assert!(!compile(&chars("+[>.<-]")).unwrap().reads_input());
    assert!(!compile(&chars("")).unwrap().reads_input());
}
