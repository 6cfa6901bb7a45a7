//! The closed error taxonomy of the execution engine.
//!
//! Every failed operation constructs one of these values at the failing
//! instruction and propagates it unchanged to the caller; no error is ever
//! recovered internally.

use vstd::prelude::*;

verus! {

/// Context for an error tied to a tape cell: which cell was addressed and
/// where the script cursor stood when the operation failed.
#[derive(Clone, Copy, Debug, PartialEq, Eq, Structural)]
pub struct MemCellRelatedError {
    pub cell_index: usize,
    pub script_pos: usize,
}

/// Context for an error tied only to a script position.
#[derive(Clone, Copy, Debug, PartialEq, Eq, Structural)]
pub struct PositionalError {
    pub script_pos: usize,
}

/// The outcome of a single failed operation. Each variant carries enough
/// context to diagnose it; execution stops at the first one raised.
#[derive(Clone, Copy, Debug, PartialEq, Eq, Structural)]
pub enum ExecutionError {
    /// The cell pointer lay outside the tape when a cell access was attempted.
    MemCellAccessOutOfBounds(MemCellRelatedError),
    /// An increment would have taken the cell above the maximum signed value.
    MemCellValueOverflow(MemCellRelatedError),
    /// A decrement would have taken the cell below the minimum signed value.
    MemCellValueUnderflow(MemCellRelatedError),
    /// A loop end `]` was dispatched while the loop stack was empty.
    UnexpectedCycleEnd(PositionalError),
    /// A `,` instruction could not obtain an input byte.
    IOError(PositionalError),
}

} // verus!
