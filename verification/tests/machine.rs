//! Tests for execution: each instruction's effect on the tape, the cursor
//! and the byte streams, the runtime error, and the end-to-end run of the
//! built-in default source.

use tapevm::ast::{ExecError, RuntimeError};
use tapevm::parser::compile;
use tapevm::vm::{IoBuffer, VM};

const FUEL: u64 = 1_000_000;

fn run(source: &str, input: Vec<u8>) -> (Result<(), ExecError>, VM, IoBuffer) {
    let src: Vec<char> = source.chars().collect();
    let program = compile(&src).expect("source should compile");
    let mut vm = VM::new();
    let mut io = IoBuffer::new(input);
    let r = vm.execute(&program, &mut io, FUEL);
    (r, vm, io)
}

#[test]
fn fresh_machine_has_one_zero_cell() {
    let vm = VM::new();
    assert_eq!(vm.data, vec![0]);
    assert_eq!(vm.cursor, 0);
}

#[test]
fn fresh_console_is_unread_and_silent() {
    let io = IoBuffer::new(vec![1, 2, 3]);
    assert_eq!(io.input, vec![1, 2, 3]);
    assert_eq!(io.consumed, 0);
    assert!(io.output.is_empty());
}

#[test]
fn move_left_at_cell_zero_fails() {
    let (r, _, _) = run("<", vec![]);
    assert_eq!(r, Err(ExecError::Runtime(RuntimeError::CannotMoveLeft)));
}

#[test]
fn move_left_fails_after_returning_to_cell_zero() {
    let (r, _, _) = run("><<", vec![]);
    assert_eq!(r, Err(ExecError::Runtime(RuntimeError::CannotMoveLeft)));
}

#[test]
fn move_right_grows_tape_by_one_zero_cell() {
    let (r, vm, _) = run(">", vec![]);
    assert_eq!(r, Ok(()));
    assert_eq!(vm.data, vec![0, 0]);
    assert_eq!(vm.cursor, 1);
}

#[test]
fn revisited_cell_keeps_its_value() {
    let (r, vm, _) = run("+><>", vec![]);
    assert_eq!(r, Ok(()));
    assert_eq!(vm.data, vec![1, 0]);
    assert_eq!(vm.cursor, 1);
}

#[test]
fn increment_wraps_at_256() {
    let source: String = "+".repeat(256);
    let (r, vm, _) = run(&source, vec![]);
    assert_eq!(r, Ok(()));
    assert_eq!(vm.data, vec![0]);
}

#[test]
fn decrement_wraps_to_255() {
    let (r, vm, _) = run("-", vec![]);
    assert_eq!(r, Ok(()));
    assert_eq!(vm.data, vec![255]);
}

#[test]
fn loop_with_zero_cell_runs_zero_times() {
    let (r, vm, io) = run("[+++.]", vec![]);
    assert_eq!(r, Ok(()));
    assert_eq!(vm.data, vec![0]);
    assert_eq!(vm.cursor, 0);
    assert!(io.output.is_empty());
}

#[test]
fn loop_counts_cell_down_to_zero() {
    let (r, vm, _) = run("+++[-]", vec![]);
    assert_eq!(r, Ok(()));
    assert_eq!(vm.data, vec![0]);
}

#[test]
fn output_collects_cell_values() {
    let (r, _, io) = run("+.+.", vec![]);
    assert_eq!(r, Ok(()));
    assert_eq!(io.output, vec![1, 2]);
}

#[test]
fn input_stores_bytes_in_order() {
    let (r, vm, io) = run(",>,", vec![7, 9]);
    assert_eq!(r, Ok(()));
    assert_eq!(vm.data, vec![7, 9]);
    assert_eq!(io.consumed, 2);
}

#[test]
fn input_on_exhausted_stream_fails() {
    let (r, _, _) = run(",", vec![]);
    assert_eq!(r, Err(ExecError::InputClosed));
}

#[test]
fn input_fails_once_stream_runs_dry() {
    let (r, vm, _) = run(",>,", vec![5]);
    assert_eq!(r, Err(ExecError::InputClosed));
    assert_eq!(vm.data, vec![5, 0]);
}

#[test]
fn endless_loop_runs_out_of_fuel() {
    let src: Vec<char> = "+[]".chars().collect();
    let program = compile(&src).unwrap();
    let mut vm = VM::new();
    let mut io = IoBuffer::new(vec![]);
    assert_eq!(vm.execute(&program, &mut io, 1000), Err(ExecError::OutOfFuel));
}

#[test]
fn comment_characters_do_not_change_execution() {
    let (r1, vm1, io1) = run("++[>+.<-]", vec![]);
    let (r2, vm2, io2) = run("two + +  [ then > + . < - ] done", vec![]);
    assert_eq!(r1, r2);
    assert_eq!(vm1.data, vm2.data);
    assert_eq!(vm1.cursor, vm2.cursor);
    assert_eq!(io1.output, io2.output);
}

#[test]
fn default_source_runs_end_to_end() {
    // The built-in default source, simulated directly: the first loop leaves
    // the tape [0, 8, 48, 32]; the second prints cells 2 and 3 eight times,
    // incrementing cell 2 first each round.
    let (r, vm, io) = run("++++++++[>+>++++++>++++<<<-]>[>+.>.<<-]", vec![]);
    assert_eq!(r, Ok(()));
    assert_eq!(
        io.output,
        vec![49, 32, 50, 32, 51, 32, 52, 32, 53, 32, 54, 32, 55, 32, 56, 32]
    );
    assert_eq!(vm.data, vec![0, 0, 56, 32]);
    assert_eq!(vm.cursor, 1);
}
