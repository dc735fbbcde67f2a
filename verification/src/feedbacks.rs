//! Feedback that keeps an input whose execution captured a new syscall
//! sequence.
use vstd::prelude::*;

verus! {

/// Judges an execution interesting exactly when it captured a new syscall
/// sequence, so that the captured input is always added to the corpus.
#[derive(Debug, Clone, Copy)]
pub struct CaptureFeedback {
    last: bool,
}

impl CaptureFeedback {
    /// The verdict of the last judged execution.
    pub closed spec fn last_spec(&self) -> bool {
        self.last
    }

    /// A feedback that has judged nothing yet.
    pub fn new() -> (f: Self)
        ensures
            !f.last_spec(),
    {
        CaptureFeedback { last: false }
    }

    /// The name of the feedback.
    pub fn name(&self) -> (s: &'static str)
        ensures
            s@ == "CaptureFeedback"@,
    {
        "CaptureFeedback"
    }

    /// Judges an execution, given whether it captured a sequence (the flag
    /// that the end of a capturing syscall raised, taken and cleared by the
    /// caller): interesting exactly when it did.
    pub fn is_interesting(&mut self, captured: bool) -> (interesting: bool)
        ensures
            interesting == captured,
            final(self).last_spec() == captured,
    {
        self.last = captured;
        captured
    }

    /// The verdict of the last judged execution.
    pub fn last_result(&self) -> (b: bool)
        ensures
            b == self.last_spec(),
    {
        self.last
    }
}

} // verus!
