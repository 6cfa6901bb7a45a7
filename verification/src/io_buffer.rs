//! The byte channel an interpreter run reads from and writes to.
//!
//! The engine itself performs no I/O: the caller supplies every available
//! input byte up front and collects the produced output bytes afterwards.
//! The buffer remembers how far the input has been consumed, so consecutive
//! runs on the same buffer continue the same input stream.

use vstd::prelude::*;

verus! {

/// Input and output of one or more interpreter runs: a fixed sequence of
/// input bytes with a read position, and the output bytes produced so far.
pub struct IoBuffer {
    pub input: Vec<u8>,
    pub input_pos: usize,
    pub output: Vec<u8>,
}

impl IoBuffer {
    /// The read position never runs past the end of the input.
    pub open spec fn wf(self) -> bool {
        self.input_pos <= self.input@.len()
    }

    /// A buffer that will serve the given bytes as input, none consumed yet,
    /// with no output produced.
    pub fn new(input: Vec<u8>) -> (r: IoBuffer)
        ensures
            r.wf(),
            r.input@ == input@,
            r.input_pos == 0,
            r.output@ =~= Seq::<u8>::empty(),
    {
        IoBuffer { input, input_pos: 0, output: Vec::new() }
    }

    /// Takes the next input byte, reinterpreted as a signed cell value, or
    /// `None` when the input is exhausted.
    pub fn next_input(&mut self) -> (r: Option<i8>)
        requires
            old(self).wf(),
        ensures
            final(self).wf(),
            final(self).input@ == old(self).input@,
            final(self).output@ == old(self).output@,
            if old(self).input_pos < old(self).input@.len() {
                r == Some(old(self).input@[old(self).input_pos as int] as i8)
                    && final(self).input_pos == old(self).input_pos + 1
            } else {
                r is None && final(self).input_pos == old(self).input_pos
            },
    {
        if self.input_pos < self.input.len() {
            let b = self.input[self.input_pos];
            self.input_pos = self.input_pos + 1;
            Some(b as i8)
        } else {
            None
        }
    }

    /// Appends one byte to the output.
    pub fn push_output(&mut self, b: u8)
        requires
            old(self).wf(),
        ensures
            final(self).wf(),
            final(self).input@ == old(self).input@,
            final(self).input_pos == old(self).input_pos,
            final(self).output@ == old(self).output@.push(b),
    {
        self.output.push(b);
    }
}

} // verus!
