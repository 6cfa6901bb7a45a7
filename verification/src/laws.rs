//! Proved laws of the semantics: properties that hold for whole families
//! of scripts, stated over `semantics::run` — the same function the
//! engine's `execute` contract is written against.

use crate::errors::ExecutionError;
use crate::semantics::{init_config, reset_cursor, run, step, Config, Step};
use crate::semantics;
use vstd::prelude::*;

verus! {

/// Whether every byte of the script is `+` or `-`.
pub open spec fn all_plus_minus(script: Seq<u8>) -> bool {
    forall|i: int| 0 <= i < script.len() ==> (script[i] == 43u8 || script[i] == 45u8)
}

/// The net effect of the first `i` instructions of a `+`/`-` script on the
/// starting cell: `+` counts one up, every other byte one down.
pub open spec fn net_effect(script: Seq<u8>, i: int) -> int
    decreases i,
{
    if i <= 0 {
        0
    } else {
        net_effect(script, i - 1) + (if script[i - 1] == 43u8 {
            1int
        } else {
            -1int
        })
    }
}

/// Whether every partial net effect of a `+`/`-` script, checked
/// instruction by instruction, stays within the signed 8-bit range. This
/// is increment-by-increment checking: a script whose final net effect is
/// in range still fails if some prefix leaves it.
pub open spec fn partial_sums_in_range(script: Seq<u8>) -> bool {
    forall|i: int| 0 <= i <= script.len() ==> i8::MIN <= #[trigger] net_effect(script, i) <= i8::MAX
}

/// The configuration after the first `i` instructions of a `+`/`-` script
/// run from a fresh interpreter: only cell 0 has changed, to the partial
/// net effect, and the cursor has advanced to `i`.
pub open spec fn arith_config(script: Seq<u8>, i: int) -> Config {
    Config {
        tape: init_config().tape.update(0, net_effect(script, i) as i8),
        cursor: i as usize,
        ..init_config()
    }
}

/// After `i` steps of a `+`/`-` script whose partial net effects stay in
/// range through the first `i` instructions, a fresh interpreter is still
/// running, with cell 0 holding the net effect of those instructions.
pub proof fn lemma_arith_prefix(script: Seq<u8>, input: Seq<u8>, i: int)
    requires
        script.len() <= usize::MAX,
        all_plus_minus(script),
        forall|k: int| 0 <= k <= i ==> i8::MIN <= #[trigger] net_effect(script, k) <= i8::MAX,
        0 <= i <= script.len(),
    ensures
        run(init_config(), script, input, i as nat) == Step::Running(arith_config(script, i)),
    decreases i,
{
    if i == 0 {
        assert(arith_config(script, 0) =~= init_config());
    } else {
        lemma_arith_prefix(script, input, i - 1);
        let c = arith_config(script, i - 1);
        assert(c.tape[0] == net_effect(script, i - 1));
        assert(i8::MIN <= net_effect(script, i) <= i8::MAX);
        assert(step(c, script, input) is Running);
        assert((step(c, script, input)->Running_0).tape =~= arith_config(script, i).tape);
        assert(step(c, script, input) == Step::Running(arith_config(script, i)));
    }
}

/// For every script made only of `+` and `-`, run from a fresh interpreter
/// with any input: if no partial net effect ever leaves the signed 8-bit
/// range when checked instruction by instruction, the run completes with
/// no error, and the final value of cell 0 is exactly the script's net
/// effect; nothing else — pointer, loop stack, input position, output —
/// has changed.
pub proof fn lemma_arith_scripts_complete(script: Seq<u8>, input: Seq<u8>)
    requires
        script.len() <= usize::MAX,
        all_plus_minus(script),
        partial_sums_in_range(script),
    ensures
        run(init_config(), script, input, script.len() + 1) == Step::Done(
            arith_config(script, script.len() as int),
        ),
{
    lemma_arith_prefix(script, input, script.len() as int);
}

/// The complement: checking is increment by increment, so a `+`/`-` script
/// fails at precisely the first instruction whose own partial net effect
/// leaves the signed 8-bit range — even if a later instruction would bring
/// the sum back in range — with an overflow for `+` and an underflow for
/// `-`, raised at that instruction's position with the cell left at the
/// boundary value.
pub proof fn lemma_arith_scripts_fail_at_first_excess(script: Seq<u8>, input: Seq<u8>, j: int)
    requires
        script.len() <= usize::MAX,
        all_plus_minus(script),
        0 <= j < script.len(),
        forall|k: int| 0 <= k <= j ==> i8::MIN <= #[trigger] net_effect(script, k) <= i8::MAX,
        !(i8::MIN <= net_effect(script, j + 1) <= i8::MAX),
    ensures
        run(init_config(), script, input, (j + 1) as nat) == Step::Failed(
            arith_config(script, j),
            if script[j] == 43u8 {
                ExecutionError::MemCellValueOverflow(semantics::cell_err(arith_config(script, j)))
            } else {
                ExecutionError::MemCellValueUnderflow(semantics::cell_err(arith_config(script, j)))
            },
        ),
{
    lemma_arith_prefix(script, input, j);
    let c = arith_config(script, j);
    assert(c.tape[0] == net_effect(script, j));
    assert(step(c, script, input) is Failed);
}

/// The configuration just after a single `<` from a fresh interpreter: the
/// pointer has wrapped below zero to `usize::MAX` and the cursor stands on
/// the next instruction.
pub open spec fn after_first_left() -> Config {
    Config { ptr: usize::MAX, cursor: 1, ..init_config() }
}

/// `<` on pointer 0 followed by any cell-touching instruction — `+`, `-`,
/// `.`, `,` or `[` — fails that instruction with an out-of-bounds error
/// naming the wrapped cell index and script position 1. The move itself is
/// not checked; the fault surfaces at the next cell access.
pub proof fn lemma_left_from_start_faults(op: u8, input: Seq<u8>)
    requires
        op == 43u8 || op == 45u8 || op == 46u8 || op == 44u8 || op == 91u8,
    ensures
        run(init_config(), seq![60u8, op], input, 2) == Step::Failed(
            after_first_left(),
            ExecutionError::MemCellAccessOutOfBounds(semantics::cell_err(after_first_left())),
        ),
{
    let script = seq![60u8, op];
    assert(run(init_config(), script, input, 0) == Step::Running(init_config()));
    assert(step(init_config(), script, input) == Step::Running(after_first_left()));
    assert(run(init_config(), script, input, 1) == Step::Running(after_first_left()));
    assert(!semantics::ptr_in_bounds(after_first_left()));
}

/// A run's terminal outcome depends only on the starting configuration,
/// the script and the input. In particular, re-running an interpreter
/// through the cursor reset behaves identically to running a freshly
/// constructed interpreter whenever the reset state equals the fresh one —
/// which asks that the first run restored the tape, the pointer, the loop
/// stack and the I/O progress, since the reset itself keeps them.
pub proof fn lemma_reset_run_matches_fresh(
    c: Config,
    script: Seq<u8>,
    input: Seq<u8>,
    n1: nat,
    n2: nat,
)
    requires
        reset_cursor(c) == init_config(),
        !(run(reset_cursor(c), script, input, n1) is Running),
        !(run(init_config(), script, input, n2) is Running),
    ensures
        run(reset_cursor(c), script, input, n1) == run(init_config(), script, input, n2),
{
    semantics::lemma_outcome_unique(init_config(), script, input, n1, n2);
}

} // verus!
