//! Small-step semantics of the language.
//!
//! A `Config` is the complete state of a run: tape, cell pointer, loop
//! stack, script cursor, input read position and output produced so far.
//! `step` maps a configuration to its successor (or to a terminal outcome)
//! for a fixed script and input; `run` iterates `step` a given number of
//! times, with terminal outcomes absorbing. The executable engine in
//! `interpreter` is proved to follow this semantics exactly.

use crate::errors::{ExecutionError, MemCellRelatedError, PositionalError};
use crate::interpreter::MAX_MEM_CELL_COUNT;
use vstd::prelude::*;

verus! {

/// The complete state of one interpreter run, paired with its I/O progress.
#[verifier::ext_equal]
pub struct Config {
    /// The tape cells; length stays `MAX_MEM_CELL_COUNT` throughout a run.
    pub tape: Seq<i8>,
    /// The cell pointer. Moves wrap around the `usize` range; an
    /// out-of-range pointer is only caught at the next cell access.
    pub ptr: usize,
    /// Script positions of loops entered and not yet left, innermost last.
    pub stack: Seq<usize>,
    /// Position in the script of the instruction to dispatch next.
    pub cursor: usize,
    /// How many input bytes have been consumed.
    pub input_pos: usize,
    /// The output bytes produced so far.
    pub output: Seq<u8>,
}

/// The outcome of stepping a configuration: still running, ran off the end
/// of the script, or stopped at the first failing operation (the
/// configuration is left as it stood when that operation failed).
pub enum Step {
    Running(Config),
    Done(Config),
    Failed(Config, ExecutionError),
}

/// The configuration of a freshly constructed interpreter with nothing
/// consumed or produced: a zeroed tape, pointer, cursor and input position
/// at zero, an empty loop stack and no output.
pub open spec fn init_config() -> Config {
    Config {
        tape: Seq::new(MAX_MEM_CELL_COUNT as nat, |i: int| 0i8),
        ptr: 0,
        stack: Seq::empty(),
        cursor: 0,
        input_pos: 0,
        output: Seq::empty(),
    }
}

/// The diagnostic context of a cell-related failure in configuration `c`.
pub open spec fn cell_err(c: Config) -> MemCellRelatedError {
    MemCellRelatedError { cell_index: c.ptr, script_pos: c.cursor }
}

/// The diagnostic context of a position-related failure in configuration `c`.
pub open spec fn pos_err(c: Config) -> PositionalError {
    PositionalError { script_pos: c.cursor }
}

/// Whether the cell pointer of `c` addresses a cell on the tape.
pub open spec fn ptr_in_bounds(c: Config) -> bool {
    c.ptr < MAX_MEM_CELL_COUNT
}

/// The pointer one cell to the right, wrapping at the top of the `usize`
/// range. No bounds check happens at move time.
pub open spec fn ptr_right(p: usize) -> usize {
    if p == usize::MAX {
        0
    } else {
        (p + 1) as usize
    }
}

/// The pointer one cell to the left, wrapping below zero to `usize::MAX`,
/// which the next cell access then rejects as out of bounds.
pub open spec fn ptr_left(p: usize) -> usize {
    if p == 0 {
        usize::MAX
    } else {
        (p - 1) as usize
    }
}

/// The cursor position a run ends on when a zero-cell `[` finds no `]`
/// ahead: the skip puts the cursor on the end of the script and the
/// dispatch still advances it once, so the run stops one past the end.
/// (Saturating at the top of the `usize` range; no real script reaches
/// that length.)
pub open spec fn past_end(script: Seq<u8>) -> usize {
    if script.len() < usize::MAX {
        (script.len() + 1) as usize
    } else {
        usize::MAX
    }
}

/// The position of the first `]` at or after `from`, if any. This is the
/// scan used when a loop head sees a zero cell: it is deliberately blind to
/// nesting, so a zero-cell `[` whose body contains a nested loop jumps to
/// the first `]` of the body, not to the structurally matching one. This
/// mirrors the engine's known limitation; it is not a depth-counting match.
pub open spec fn find_close(script: Seq<u8>, from: int) -> Option<int>
    decreases script.len() - from,
{
    if from < 0 || from >= script.len() {
        None
    } else if script[from] == 93u8 {
        Some(from)
    } else {
        find_close(script, from + 1)
    }
}

/// One dispatch of the instruction under the cursor of `c`, for the given
/// script and input. A cursor at or past the end of the script is the
/// successful terminal state — deliberately even when entered loops are
/// still on the stack: an unterminated `[` is not an error here. Any byte
/// that is not one of the eight instruction characters is a no-op that
/// only advances the cursor. A `]` with a non-empty stack puts the cursor
/// back on the matching `[` itself, which then re-tests the cell, giving
/// while-non-zero semantics for well-nested loops.
pub open spec fn step(c: Config, script: Seq<u8>, input: Seq<u8>) -> Step {
    if c.cursor >= script.len() {
        Step::Done(c)
    } else {
        let op = script[c.cursor as int];
        let next = (c.cursor + 1) as usize;
        if op == 62u8 {  // '>'
            Step::Running(Config { ptr: ptr_right(c.ptr), cursor: next, ..c })
        } else if op == 60u8 {  // '<'
            Step::Running(Config { ptr: ptr_left(c.ptr), cursor: next, ..c })
        } else if op == 43u8 {  // '+'
            if !ptr_in_bounds(c) {
                Step::Failed(c, ExecutionError::MemCellAccessOutOfBounds(cell_err(c)))
            } else if c.tape[c.ptr as int] == i8::MAX {
                Step::Failed(c, ExecutionError::MemCellValueOverflow(cell_err(c)))
            } else {
                Step::Running(
                    Config {
                        tape: c.tape.update(c.ptr as int, (c.tape[c.ptr as int] + 1) as i8),
                        cursor: next,
                        ..c
                    },
                )
            }
        } else if op == 45u8 {  // '-'
            if !ptr_in_bounds(c) {
                Step::Failed(c, ExecutionError::MemCellAccessOutOfBounds(cell_err(c)))
            } else if c.tape[c.ptr as int] == i8::MIN {
                Step::Failed(c, ExecutionError::MemCellValueUnderflow(cell_err(c)))
            } else {
                Step::Running(
                    Config {
                        tape: c.tape.update(c.ptr as int, (c.tape[c.ptr as int] - 1) as i8),
                        cursor: next,
                        ..c
                    },
                )
            }
        } else if op == 46u8 {  // '.'
            if !ptr_in_bounds(c) {
                Step::Failed(c, ExecutionError::MemCellAccessOutOfBounds(cell_err(c)))
            } else {
                Step::Running(
                    Config { output: c.output.push(c.tape[c.ptr as int] as u8), cursor: next, ..c },
                )
            }
        } else if op == 44u8 {  // ','
            if !ptr_in_bounds(c) {
                Step::Failed(c, ExecutionError::MemCellAccessOutOfBounds(cell_err(c)))
            } else if c.input_pos >= input.len() {
                Step::Failed(c, ExecutionError::IOError(pos_err(c)))
            } else {
                Step::Running(
                    Config {
                        tape: c.tape.update(c.ptr as int, input[c.input_pos as int] as i8),
                        input_pos: (c.input_pos + 1) as usize,
                        cursor: next,
                        ..c
                    },
                )
            }
        } else if op == 91u8 {  // '['
            if !ptr_in_bounds(c) {
                Step::Failed(c, ExecutionError::MemCellAccessOutOfBounds(cell_err(c)))
            } else if c.tape[c.ptr as int] != 0 {
                Step::Running(Config { stack: c.stack.push(c.cursor), cursor: next, ..c })
            } else {
                match find_close(script, c.cursor + 1) {
                    Some(j) => Step::Running(Config { cursor: (j + 1) as usize, ..c }),
                    None => Step::Running(Config { cursor: past_end(script), ..c }),
                }
            }
        } else if op == 93u8 {  // ']'
            if c.stack.len() > 0 {
                Step::Running(Config { stack: c.stack.drop_last(), cursor: c.stack.last(), ..c })
            } else {
                Step::Failed(c, ExecutionError::UnexpectedCycleEnd(pos_err(c)))
            }
        } else {
            Step::Running(Config { cursor: next, ..c })
        }
    }
}

/// The same configuration with the script cursor put back to the start;
/// what a re-run on an existing interpreter begins from. Tape, pointer,
/// loop stack and I/O progress are deliberately kept.
pub open spec fn reset_cursor(c: Config) -> Config {
    Config { cursor: 0, ..c }
}

/// `n` iterations of `step` from `c`; a terminal outcome, once reached,
/// absorbs all further iterations.
pub open spec fn run(c: Config, script: Seq<u8>, input: Seq<u8>, n: nat) -> Step
    decreases n,
{
    if n == 0 {
        Step::Running(c)
    } else {
        match run(c, script, input, (n - 1) as nat) {
            Step::Running(c2) => step(c2, script, input),
            stopped => stopped,
        }
    }
}

/// A terminal outcome persists: once `run` reaches `Done` or `Failed` after
/// `n` steps, every longer run gives the same outcome.
pub proof fn lemma_run_stays_stopped(c: Config, script: Seq<u8>, input: Seq<u8>, n: nat, m: nat)
    requires
        n <= m,
        !(run(c, script, input, n) is Running),
    ensures
        run(c, script, input, m) == run(c, script, input, n),
    decreases m,
{
    if n < m {
        lemma_run_stays_stopped(c, script, input, n, (m - 1) as nat);
    }
}

/// The semantics is deterministic in its outcome: any two step counts at
/// which a run from `c` has stopped show one and the same terminal outcome,
/// so the final tape, pointer, stack, cursor, input position, output and
/// error (if any) are all uniquely determined by the starting configuration,
/// the script and the input.
pub proof fn lemma_outcome_unique(c: Config, script: Seq<u8>, input: Seq<u8>, n1: nat, n2: nat)
    requires
        !(run(c, script, input, n1) is Running),
        !(run(c, script, input, n2) is Running),
    ensures
        run(c, script, input, n1) == run(c, script, input, n2),
{
    if n1 <= n2 {
        lemma_run_stays_stopped(c, script, input, n1, n2);
    } else {
        lemma_run_stays_stopped(c, script, input, n2, n1);
    }
}

} // verus!
