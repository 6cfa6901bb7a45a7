//! Scenario tests for the execution engine: whole scripts run through
//! `execute_from_start`, checked against the documented semantics.

use bf_interpreter::errors::{ExecutionError, MemCellRelatedError, PositionalError};
use bf_interpreter::interpreter::InterpreterContext;
use bf_interpreter::io_buffer::IoBuffer;

const FUEL: u64 = 1_000_000;

fn run_script(script: &[u8], input: Vec<u8>) -> (InterpreterContext, IoBuffer, Option<Result<(), ExecutionError>>) {
    let mut ctx = InterpreterContext::new();
    let mut io = IoBuffer::new(input);
    let r = ctx.execute_from_start(script, &mut io, FUEL);
    (ctx, io, r)
}

#[test]
fn empty_script_completes() {
    let (ctx, io, r) = run_script(b"", Vec::new());
    assert_eq!(r, Some(Ok(())));
    assert_eq!(ctx.script_cursor, 0);
    assert!(io.output.is_empty());
}

#[test]
fn net_effect_of_plus_minus_script() {
    let (ctx, _io, r) = run_script(b"+++--", Vec::new());
    assert_eq!(r, Some(Ok(())));
    assert_eq!(ctx.memory[0], 1);
    assert_eq!(ctx.mem_cell_index, 0);
    assert!(ctx.cycle_stack.is_empty());
}

#[test]
fn negative_net_effect() {
    let (ctx, _io, r) = run_script(b"--+", Vec::new());
    assert_eq!(r, Some(Ok(())));
    assert_eq!(ctx.memory[0], -1);
}

#[test]
fn overflow_on_the_128th_increment() {
    // 127 increments reach the maximum value; the 128th fails, at script
    // position 127, with the cell left at 127.
    let script = vec![b'+'; 128];
    let (ctx, _io, r) = run_script(&script, Vec::new());
    assert_eq!(
        r,
        Some(Err(ExecutionError::MemCellValueOverflow(MemCellRelatedError {
            cell_index: 0,
            script_pos: 127,
        })))
    );
    assert_eq!(ctx.memory[0], 127);
}

#[test]
fn no_overflow_on_127_increments() {
    let script = vec![b'+'; 127];
    let (ctx, _io, r) = run_script(&script, Vec::new());
    assert_eq!(r, Some(Ok(())));
    assert_eq!(ctx.memory[0], 127);
}

#[test]
fn underflow_on_the_129th_decrement() {
    let script = vec![b'-'; 129];
    let (ctx, _io, r) = run_script(&script, Vec::new());
    assert_eq!(
        r,
        Some(Err(ExecutionError::MemCellValueUnderflow(MemCellRelatedError {
            cell_index: 0,
            script_pos: 128,
        })))
    );
    assert_eq!(ctx.memory[0], -128);
}

#[test]
fn left_from_start_faults_on_next_cell_op() {
    // The move itself is unchecked; the wrapped pointer is rejected at the
    // next cell access, as out of bounds rather than as a distinct kind.
    let (_ctx, _io, r) = run_script(b"<+", Vec::new());
    assert_eq!(
        r,
        Some(Err(ExecutionError::MemCellAccessOutOfBounds(MemCellRelatedError {
            cell_index: usize::MAX,
            script_pos: 1,
        })))
    );
}

#[test]
fn left_then_output_faults_too() {
    let (_ctx, _io, r) = run_script(b"<.", Vec::new());
    assert_eq!(
        r,
        Some(Err(ExecutionError::MemCellAccessOutOfBounds(MemCellRelatedError {
            cell_index: usize::MAX,
            script_pos: 1,
        })))
    );
}

#[test]
fn lone_loop_end_fails_immediately() {
    let (_ctx, _io, r) = run_script(b"]", Vec::new());
    assert_eq!(
        r,
        Some(Err(ExecutionError::UnexpectedCycleEnd(PositionalError { script_pos: 0 })))
    );
}

#[test]
fn clear_loop_runs_and_exits() {
    // `+` sets cell 0 to 1; `[` sees non-zero and pushes its position; `-`
    // clears the cell; `]` jumps back to the `[`, which now sees zero,
    // scans forward to the `]` and jumps past it; the script ends with the
    // cell cleared and the loop stack empty.
    let (ctx, _io, r) = run_script(b"+[-]", Vec::new());
    assert_eq!(r, Some(Ok(())));
    assert_eq!(ctx.memory[0], 0);
    assert!(ctx.cycle_stack.is_empty());
    assert_eq!(ctx.script_cursor, 4);
}

#[test]
fn echo_one_byte() {
    let (_ctx, io, r) = run_script(b",.", vec![65]);
    assert_eq!(r, Some(Ok(())));
    assert_eq!(io.output, vec![65]);
    assert_eq!(io.input_pos, 1);
}

#[test]
fn input_exhausted_is_io_error() {
    let (_ctx, _io, r) = run_script(b",", Vec::new());
    assert_eq!(
        r,
        Some(Err(ExecutionError::IOError(PositionalError { script_pos: 0 })))
    );
}

#[test]
fn second_read_past_end_of_input_is_io_error() {
    let (ctx, _io, r) = run_script(b",,", vec![7]);
    assert_eq!(
        r,
        Some(Err(ExecutionError::IOError(PositionalError { script_pos: 1 })))
    );
    assert_eq!(ctx.memory[0], 7);
}

#[test]
fn non_instruction_bytes_are_ignored() {
    let (ctx, _io, r) = run_script(b"a +b\n+!", Vec::new());
    assert_eq!(r, Some(Ok(())));
    assert_eq!(ctx.memory[0], 2);
}

#[test]
fn pointer_moves_address_other_cells() {
    let (ctx, _io, r) = run_script(b"+>++>+++<-", Vec::new());
    assert_eq!(r, Some(Ok(())));
    assert_eq!(ctx.memory[0], 1);
    assert_eq!(ctx.memory[1], 1);
    assert_eq!(ctx.memory[2], 3);
    assert_eq!(ctx.mem_cell_index, 1);
}

#[test]
fn skipped_loop_jumps_to_first_close() {
    // The forward scan for a zero-cell `[` is blind to nesting: it stops
    // at the first `]`, so the outer skip here lands inside the nested
    // loop and the final `]` then finds an empty stack.
    let (_ctx, _io, r) = run_script(b"[.[]]", Vec::new());
    assert_eq!(
        r,
        Some(Err(ExecutionError::UnexpectedCycleEnd(PositionalError { script_pos: 4 })))
    );
}

#[test]
fn skipped_loop_without_close_ends_run() {
    // The skip puts the cursor on the end of the script and the dispatch
    // still advances it once, so the run ends one past the end.
    let (ctx, _io, r) = run_script(b"[++", Vec::new());
    assert_eq!(r, Some(Ok(())));
    assert_eq!(ctx.memory[0], 0);
    assert_eq!(ctx.script_cursor, 4);
}

#[test]
fn open_loop_at_end_of_script_is_success() {
    // A run that ends with entered loops still on the stack is not an
    // error in this design.
    let (ctx, _io, r) = run_script(b"+[", Vec::new());
    assert_eq!(r, Some(Ok(())));
    assert_eq!(ctx.cycle_stack, vec![1]);
}

#[test]
fn counting_loop_copies_value() {
    // Move 3 from cell 0 to cell 1, one decrement per iteration.
    let (ctx, _io, r) = run_script(b"+++[->+<]", Vec::new());
    assert_eq!(r, Some(Ok(())));
    assert_eq!(ctx.memory[0], 0);
    assert_eq!(ctx.memory[1], 3);
}

#[test]
fn endless_loop_runs_out_of_steps() {
    let mut ctx = InterpreterContext::new();
    let mut io = IoBuffer::new(Vec::new());
    let r = ctx.execute_from_start(b"+[]", &mut io, 1000);
    assert_eq!(r, None);
    // The run is left mid-flight and can be continued.
    let r2 = ctx.execute(b"+[]", &mut io, 1000);
    assert_eq!(r2, None);
}

#[test]
fn rerun_after_reset_continues_on_prior_tape() {
    // The reset puts back only the cursor: the tape, the pointer and the
    // input stream carry over into the second run.
    let mut ctx = InterpreterContext::new();
    let mut io = IoBuffer::new(Vec::new());
    let r1 = ctx.execute_from_start(b"+++", &mut io, FUEL);
    assert_eq!(r1, Some(Ok(())));
    assert_eq!(ctx.memory[0], 3);
    let r2 = ctx.execute_from_start(b"+++", &mut io, FUEL);
    assert_eq!(r2, Some(Ok(())));
    assert_eq!(ctx.memory[0], 6);
}

#[test]
fn rerun_matches_fresh_when_first_run_restores_state() {
    // `+-` restores tape, pointer and stack, so the reset re-run behaves
    // exactly as a freshly constructed interpreter on the same script.
    let mut ctx = InterpreterContext::new();
    let mut io = IoBuffer::new(Vec::new());
    assert_eq!(ctx.execute_from_start(b"+-", &mut io, FUEL), Some(Ok(())));
    let first_tape = ctx.memory.clone();
    assert_eq!(ctx.execute_from_start(b"+-", &mut io, FUEL), Some(Ok(())));

    let mut fresh = InterpreterContext::new();
    let mut fresh_io = IoBuffer::new(Vec::new());
    assert_eq!(fresh.execute_from_start(b"+-", &mut fresh_io, FUEL), Some(Ok(())));

    assert_eq!(ctx.memory, fresh.memory);
    assert_eq!(ctx.memory, first_tape);
    assert_eq!(ctx.mem_cell_index, fresh.mem_cell_index);
    assert_eq!(ctx.script_cursor, fresh.script_cursor);
    assert_eq!(ctx.cycle_stack, fresh.cycle_stack);
    assert_eq!(io.output, fresh_io.output);
}
