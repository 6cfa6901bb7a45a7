//! The execution engine: a tape store with checked cell operations, and
//! the instruction dispatch loop.
//!
//! Every operation is specified against the small-step semantics in
//! `semantics`: the contracts of the checked cell operations mirror the
//! corresponding branches of `semantics::step`, and `execute` is proved to
//! realize `semantics::run` on the starting configuration.

use crate::errors::{ExecutionError, MemCellRelatedError, PositionalError};
use crate::io_buffer::IoBuffer;
use crate::semantics;
use crate::semantics::{Config, Step};
use vstd::prelude::*;

verus! {

/// Number of cells on the tape; fixed for the life of an interpreter.
pub const MAX_MEM_CELL_COUNT: usize = 1024;

/// The interpreter state: the tape with its cell pointer, the loop stack,
/// and the cursor into the script text.
pub struct InterpreterContext {
    /// The tape; always exactly `MAX_MEM_CELL_COUNT` cells.
    pub memory: Vec<i8>,
    /// Index of the current cell. Moves do not check bounds; cell
    /// operations do, and reject an out-of-range pointer lazily.
    pub mem_cell_index: usize,
    /// Script positions of loops entered and not yet left, innermost last.
    pub cycle_stack: Vec<usize>,
    /// Position in the script of the instruction dispatched next.
    pub script_cursor: usize,
}

impl InterpreterContext {
    /// The tape never changes length after construction.
    pub open spec fn wf(self) -> bool {
        self.memory@.len() == MAX_MEM_CELL_COUNT
    }

    /// The configuration this state forms together with the I/O progress
    /// of `io`; the point of contact with the semantics.
    pub open spec fn config_with(self, io: IoBuffer) -> Config {
        Config {
            tape: self.memory@,
            ptr: self.mem_cell_index,
            stack: self.cycle_stack@,
            cursor: self.script_cursor,
            input_pos: io.input_pos,
            output: io.output@,
        }
    }

    /// The cell-related diagnostic context at the current state.
    pub open spec fn spec_mem_cell_err(self) -> MemCellRelatedError {
        MemCellRelatedError { cell_index: self.mem_cell_index, script_pos: self.script_cursor }
    }

    /// The position-related diagnostic context at the current state.
    pub open spec fn spec_pos_err(self) -> PositionalError {
        PositionalError { script_pos: self.script_cursor }
    }

    /// A fresh interpreter: zeroed tape, pointer and cursor at zero, empty
    /// loop stack. Together with a fresh `IoBuffer` its configuration is
    /// `semantics::init_config()`.
    pub fn new() -> (r: InterpreterContext)
        ensures
            r.wf(),
            r.memory@ == semantics::init_config().tape,
            r.mem_cell_index == 0,
            r.cycle_stack@ == Seq::<usize>::empty(),
            r.script_cursor == 0,
    {
        let mut memory: Vec<i8> = Vec::new();
        let mut i: usize = 0;
        while i < MAX_MEM_CELL_COUNT
            invariant
                i <= MAX_MEM_CELL_COUNT,
                memory@.len() == i,
                forall|k: int| 0 <= k < i ==> memory@[k] == 0i8,
            decreases MAX_MEM_CELL_COUNT - i,
        {
            memory.push(0i8);
            i = i + 1;
        }
        proof {
            assert(memory@ =~= semantics::init_config().tape);
        }
        InterpreterContext { memory, mem_cell_index: 0, cycle_stack: Vec::new(), script_cursor: 0 }
    }

    /// The cell-related diagnostic context: current cell index and cursor.
    pub fn mem_cell_err(&self) -> (r: MemCellRelatedError)
        ensures
            r == self.spec_mem_cell_err(),
    {
        MemCellRelatedError { cell_index: self.mem_cell_index, script_pos: self.script_cursor }
    }

    /// The position-related diagnostic context: the current cursor.
    pub fn pos_err(&self) -> (r: PositionalError)
        ensures
            r == self.spec_pos_err(),
    {
        PositionalError { script_pos: self.script_cursor }
    }

    /// Rejects a pointer that lies outside the tape; every cell operation
    /// calls this before touching memory.
    pub fn check_out_of_bounds_access(&self) -> (r: Result<(), ExecutionError>)
        ensures
            r is Ok <==> self.mem_cell_index < MAX_MEM_CELL_COUNT,
            r is Err ==> r->Err_0 == ExecutionError::MemCellAccessOutOfBounds(
                self.spec_mem_cell_err(),
            ),
    {
        if self.mem_cell_index >= MAX_MEM_CELL_COUNT {
            return Err(ExecutionError::MemCellAccessOutOfBounds(self.mem_cell_err()));
        }
        Ok(())
    }

    /// Adds one to the current cell. Fails without touching any state when
    /// the pointer is out of bounds or the cell already holds the maximum
    /// signed 8-bit value; succeeds and updates exactly that cell otherwise.
    pub fn inc_checked(&mut self) -> (r: Result<(), ExecutionError>)
        requires
            old(self).wf(),
        ensures
            final(self).wf(),
            final(self).mem_cell_index == old(self).mem_cell_index,
            final(self).cycle_stack@ == old(self).cycle_stack@,
            final(self).script_cursor == old(self).script_cursor,
            match r {
                Ok(()) => old(self).mem_cell_index < MAX_MEM_CELL_COUNT && old(
                    self,
                ).memory@[old(self).mem_cell_index as int] < i8::MAX && final(self).memory@ == old(
                    self,
                ).memory@.update(
                    old(self).mem_cell_index as int,
                    (old(self).memory@[old(self).mem_cell_index as int] + 1) as i8,
                ),
                Err(e) => final(self).memory@ == old(self).memory@ && if old(self).mem_cell_index
                    >= MAX_MEM_CELL_COUNT {
                    e == ExecutionError::MemCellAccessOutOfBounds(old(self).spec_mem_cell_err())
                } else {
                    old(self).memory@[old(self).mem_cell_index as int] == i8::MAX && e
                        == ExecutionError::MemCellValueOverflow(old(self).spec_mem_cell_err())
                },
            },
    {
        match self.check_out_of_bounds_access() {
            Ok(()) => {},
            Err(e) => {
                return Err(e);
            },
        }
        let v = self.memory[self.mem_cell_index];
        if v == i8::MAX {
            return Err(ExecutionError::MemCellValueOverflow(self.mem_cell_err()));
        }
        self.memory[self.mem_cell_index] = v + 1;
        Ok(())
    }

    /// Subtracts one from the current cell. Fails without touching any
    /// state when the pointer is out of bounds or the cell already holds
    /// the minimum signed 8-bit value; succeeds and updates exactly that
    /// cell otherwise.
    pub fn dec_checked(&mut self) -> (r: Result<(), ExecutionError>)
        requires
            old(self).wf(),
        ensures
            final(self).wf(),
            final(self).mem_cell_index == old(self).mem_cell_index,
            final(self).cycle_stack@ == old(self).cycle_stack@,
            final(self).script_cursor == old(self).script_cursor,
            match r {
                Ok(()) => old(self).mem_cell_index < MAX_MEM_CELL_COUNT && old(
                    self,
                ).memory@[old(self).mem_cell_index as int] > i8::MIN && final(self).memory@ == old(
                    self,
                ).memory@.update(
                    old(self).mem_cell_index as int,
                    (old(self).memory@[old(self).mem_cell_index as int] - 1) as i8,
                ),
                Err(e) => final(self).memory@ == old(self).memory@ && if old(self).mem_cell_index
                    >= MAX_MEM_CELL_COUNT {
                    e == ExecutionError::MemCellAccessOutOfBounds(old(self).spec_mem_cell_err())
                } else {
                    old(self).memory@[old(self).mem_cell_index as int] == i8::MIN && e
                        == ExecutionError::MemCellValueUnderflow(old(self).spec_mem_cell_err())
                },
            },
    {
        match self.check_out_of_bounds_access() {
            Ok(()) => {},
            Err(e) => {
                return Err(e);
            },
        }
        let v = self.memory[self.mem_cell_index];
        if v == i8::MIN {
            return Err(ExecutionError::MemCellValueUnderflow(self.mem_cell_err()));
        }
        self.memory[self.mem_cell_index] = v - 1;
        Ok(())
    }

    /// Emits the current cell, reinterpreted as an unsigned byte, to the
    /// output of `io`. Fails without touching any state when the pointer is
    /// out of bounds.
    pub fn put_checked(&self, io: &mut IoBuffer) -> (r: Result<(), ExecutionError>)
        requires
            self.wf(),
            old(io).wf(),
        ensures
            final(io).wf(),
            final(io).input@ == old(io).input@,
            final(io).input_pos == old(io).input_pos,
            match r {
                Ok(()) => self.mem_cell_index < MAX_MEM_CELL_COUNT && final(io).output@ == old(
                    io,
                ).output@.push(self.memory@[self.mem_cell_index as int] as u8),
                Err(e) => final(io).output@ == old(io).output@ && self.mem_cell_index
                    >= MAX_MEM_CELL_COUNT && e == ExecutionError::MemCellAccessOutOfBounds(
                    self.spec_mem_cell_err(),
                ),
            },
    {
        match self.check_out_of_bounds_access() {
            Ok(()) => {},
            Err(e) => {
                return Err(e);
            },
        }
        let v = self.memory[self.mem_cell_index];
        io.push_output(#[verifier::truncate] (v as u8));
        Ok(())
    }

    /// Stores the next input byte of `io`, reinterpreted as a signed cell
    /// value, into the current cell. Fails without touching any state when
    /// the pointer is out of bounds, and with `IOError` when the input is
    /// exhausted.
    pub fn get_checked(&mut self, io: &mut IoBuffer) -> (r: Result<(), ExecutionError>)
        requires
            old(self).wf(),
            old(io).wf(),
        ensures
            final(self).wf(),
            final(io).wf(),
            final(self).mem_cell_index == old(self).mem_cell_index,
            final(self).cycle_stack@ == old(self).cycle_stack@,
            final(self).script_cursor == old(self).script_cursor,
            final(io).input@ == old(io).input@,
            final(io).output@ == old(io).output@,
            match r {
                Ok(()) => old(self).mem_cell_index < MAX_MEM_CELL_COUNT && old(io).input_pos < old(
                    io,
                ).input@.len() && final(self).memory@ == old(self).memory@.update(
                    old(self).mem_cell_index as int,
                    old(io).input@[old(io).input_pos as int] as i8,
                ) && final(io).input_pos == old(io).input_pos + 1,
                Err(e) => final(self).memory@ == old(self).memory@ && final(io).input_pos == old(
                    io,
                ).input_pos && if old(self).mem_cell_index >= MAX_MEM_CELL_COUNT {
                    e == ExecutionError::MemCellAccessOutOfBounds(old(self).spec_mem_cell_err())
                } else {
                    old(io).input_pos >= old(io).input@.len() && e == ExecutionError::IOError(
                        old(self).spec_pos_err(),
                    )
                },
            },
    {
        match self.check_out_of_bounds_access() {
            Ok(()) => {},
            Err(e) => {
                return Err(e);
            },
        }
        match io.next_input() {
            Some(c) => {
                self.memory[self.mem_cell_index] = c;
            },
            None => {
                return Err(ExecutionError::IOError(self.pos_err()));
            },
        }
        Ok(())
    }
}

impl InterpreterContext {
    /// Dispatches instructions from the current cursor until the cursor
    /// runs off the end of the script (`Some(Ok(()))`), an operation fails
    /// (`Some(Err(e))`), or `max_steps` instructions have been dispatched
    /// without either (`None`; the state is left mid-run, and a further
    /// call continues the same run). The outcome is exactly what the
    /// small-step semantics assigns to the starting configuration:
    /// iterated `step` reaches `Done` within `max_steps + 1` steps,
    /// `Failed` with the same error within `max_steps` steps, or is still
    /// `Running` after `max_steps` steps with script left to dispatch — in
    /// each case at precisely the final state of `self` and `io`. The
    /// bounds make the three cases mutually exclusive, so the reported
    /// outcome and the final state are a function of the starting state,
    /// the script, the input and the budget alone.
    #[verifier::loop_isolation(false)]
    pub fn execute(&mut self, script: &[u8], io: &mut IoBuffer, max_steps: u64) -> (r: Option<
        Result<(), ExecutionError>,
    >)
        requires
            old(self).wf(),
            old(io).wf(),
        ensures
            final(self).wf(),
            final(io).wf(),
            final(io).input@ == old(io).input@,
            old(io).output@.is_prefix_of(final(io).output@),
            match r {
                None => semantics::run(
                    old(self).config_with(*old(io)),
                    script@,
                    old(io).input@,
                    max_steps as nat,
                ) == Step::Running(final(self).config_with(*final(io)))
                    && final(self).script_cursor < script@.len(),
                Some(Ok(())) => exists|n: nat|
                    n <= max_steps + 1 && #[trigger] semantics::run(
                        old(self).config_with(*old(io)),
                        script@,
                        old(io).input@,
                        n,
                    ) == Step::Done(final(self).config_with(*final(io))),
                Some(Err(e)) => exists|n: nat|
                    n <= max_steps && #[trigger] semantics::run(
                        old(self).config_with(*old(io)),
                        script@,
                        old(io).input@,
                        n,
                    ) == Step::Failed(final(self).config_with(*final(io)), e),
            },
    {
        let ghost init_c = self.config_with(*io);
        let ghost input0 = io.input@;
        let ghost out0 = io.output@;
        let mut fuel: u64 = max_steps;
        while self.script_cursor < script.len()
            invariant
                self.wf(),
                io.wf(),
                io.input@ == input0,
                out0.is_prefix_of(io.output@),
                fuel <= max_steps,
                semantics::run(init_c, script@, input0, (max_steps - fuel) as nat)
                    == Step::Running(self.config_with(*io)),
            decreases fuel,
        {
            if fuel == 0 {
                return None;
            }
            fuel = fuel - 1;
            let ghost c0 = self.config_with(*io);
            let ghost used = (max_steps - fuel) as nat;
            let op = script[self.script_cursor];
            match op {
                62u8 => {  // '>'
                    self.mem_cell_index = if self.mem_cell_index == usize::MAX {
                        0
                    } else {
                        self.mem_cell_index + 1
                    };
                    self.script_cursor = self.script_cursor + 1;
                },
                60u8 => {  // '<'
                    self.mem_cell_index = if self.mem_cell_index == 0 {
                        usize::MAX
                    } else {
                        self.mem_cell_index - 1
                    };
                    self.script_cursor = self.script_cursor + 1;
                },
                43u8 => {  // '+'
                    match self.inc_checked() {
                        Ok(()) => {
                            self.script_cursor = self.script_cursor + 1;
                        },
                        Err(e) => {
                            proof {
                                assert(semantics::run(init_c, script@, input0, used)
                                    == Step::Failed(self.config_with(*io), e));
                            }
                            return Some(Err(e));
                        },
                    }
                },
                45u8 => {  // '-'
                    match self.dec_checked() {
                        Ok(()) => {
                            self.script_cursor = self.script_cursor + 1;
                        },
                        Err(e) => {
                            proof {
                                assert(semantics::run(init_c, script@, input0, used)
                                    == Step::Failed(self.config_with(*io), e));
                            }
                            return Some(Err(e));
                        },
                    }
                },
                46u8 => {  // '.'
                    match self.put_checked(io) {
                        Ok(()) => {
                            self.script_cursor = self.script_cursor + 1;
                        },
                        Err(e) => {
                            proof {
                                assert(semantics::run(init_c, script@, input0, used)
                                    == Step::Failed(self.config_with(*io), e));
                            }
                            return Some(Err(e));
                        },
                    }
                },
                44u8 => {  // ','
                    match self.get_checked(io) {
                        Ok(()) => {
                            self.script_cursor = self.script_cursor + 1;
                        },
                        Err(e) => {
                            proof {
                                assert(semantics::run(init_c, script@, input0, used)
                                    == Step::Failed(self.config_with(*io), e));
                            }
                            return Some(Err(e));
                        },
                    }
                },
                91u8 => {  // '['
                    match self.check_out_of_bounds_access() {
                        Ok(()) => {
                            if self.memory[self.mem_cell_index] != 0 {
                                self.cycle_stack.push(self.script_cursor);
                                self.script_cursor = self.script_cursor + 1;
                            } else {
                                match find_close_from(script, self.script_cursor + 1) {
                                    Some(j) => {
                                        self.script_cursor = j + 1;
                                    },
                                    None => {
                                        // The skip lands on the end of the
                                        // script and the dispatch still
                                        // advances the cursor once.
                                        self.script_cursor = if script.len() < usize::MAX {
                                            script.len() + 1
                                        } else {
                                            usize::MAX
                                        };
                                    },
                                }
                            }
                        },
                        Err(e) => {
                            proof {
                                assert(semantics::run(init_c, script@, input0, used)
                                    == Step::Failed(self.config_with(*io), e));
                            }
                            return Some(Err(e));
                        },
                    }
                },
                93u8 => {  // ']'
                    if self.cycle_stack.len() > 0 {
                        let p = self.cycle_stack.pop().unwrap();
                        self.script_cursor = p;
                    } else {
                        let e = ExecutionError::UnexpectedCycleEnd(self.pos_err());
                        proof {
                            assert(semantics::run(init_c, script@, input0, used)
                                == Step::Failed(self.config_with(*io), e));
                        }
                        return Some(Err(e));
                    }
                },
                _ => {
                    self.script_cursor = self.script_cursor + 1;
                },
            }
            proof {
                assert(semantics::step(c0, script@, input0)
                    == Step::Running(self.config_with(*io)));
                assert(semantics::run(init_c, script@, input0, used)
                    == Step::Running(self.config_with(*io)));
            }
        }
        proof {
            let used = (max_steps - fuel) as nat;
            assert(semantics::run(init_c, script@, input0, used + 1)
                == Step::Done(self.config_with(*io)));
        }
        Some(Ok(()))
    }

    /// Puts the cursor back to the start of the script and runs from there;
    /// the explicit re-run operation. The tape, the cell pointer, the loop
    /// stack and the I/O progress are deliberately not reset, so a second
    /// run continues with the memory and input stream the first one left.
    pub fn execute_from_start(&mut self, script: &[u8], io: &mut IoBuffer, max_steps: u64) -> (r:
        Option<Result<(), ExecutionError>>)
        requires
            old(self).wf(),
            old(io).wf(),
        ensures
            final(self).wf(),
            final(io).wf(),
            final(io).input@ == old(io).input@,
            old(io).output@.is_prefix_of(final(io).output@),
            match r {
                None => semantics::run(
                    semantics::reset_cursor(old(self).config_with(*old(io))),
                    script@,
                    old(io).input@,
                    max_steps as nat,
                ) == Step::Running(final(self).config_with(*final(io)))
                    && final(self).script_cursor < script@.len(),
                Some(Ok(())) => exists|n: nat|
                    n <= max_steps + 1 && #[trigger] semantics::run(
                        semantics::reset_cursor(old(self).config_with(*old(io))),
                        script@,
                        old(io).input@,
                        n,
                    ) == Step::Done(final(self).config_with(*final(io))),
                Some(Err(e)) => exists|n: nat|
                    n <= max_steps && #[trigger] semantics::run(
                        semantics::reset_cursor(old(self).config_with(*old(io))),
                        script@,
                        old(io).input@,
                        n,
                    ) == Step::Failed(final(self).config_with(*final(io)), e),
            },
    {
        self.script_cursor = 0;
        proof {
            assert(self.config_with(*io) =~= semantics::reset_cursor(
                old(self).config_with(*old(io)),
            ));
        }
        self.execute(script, io, max_steps)
    }
}

/// The position of the first `]` at or after `from` in the script, if any;
/// exactly `semantics::find_close`.
pub fn find_close_from(script: &[u8], from: usize) -> (r: Option<usize>)
    ensures
        match r {
            Some(j) => semantics::find_close(script@, from as int) == Some(j as int) && from <= j
                < script@.len(),
            None => semantics::find_close(script@, from as int) is None,
        },
{
    let mut j = from;
    while j < script.len()
        invariant
            from <= j,
            semantics::find_close(script@, from as int) == semantics::find_close(
                script@,
                j as int,
            ),
        decreases script@.len() - j,
    {
        if script[j] == 93u8 {
            return Some(j);
        }
        j = j + 1;
    }
    None
}

} // verus!
