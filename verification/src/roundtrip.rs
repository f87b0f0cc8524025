//! Waiting until the media server has answered everything that was asked.
use crate::model::{native_failure, opt_text, BackendError, BackendErrorView};
use crate::text::{concat2, concat3, decimal, decimal_text};
use vstd::prelude::*;

verus! {

/// A number with its sign.
pub open spec fn signed(n: int) -> Seq<char> {
    if n < 0 {
        "-"@ + decimal((-n) as nat)
    } else {
        decimal(n as nat)
    }
}

fn signed_text(n: i32) -> (r: String)
    ensures
        r@ == signed(n as int),
{
    if n < 0 {
        let size: u64 = (-(n as i64)) as u64;
        concat2("-", decimal_text(size).as_str())
    } else {
        decimal_text(n as u64)
    }
}

/// A wait for an answer.
#[derive(Debug, PartialEq, Eq)]
pub struct Roundtrip {
    /// The number of the question whose answer is awaited.
    pub pending: i32,
    pub done: bool,
    pub failure: Option<String>,
}

impl Roundtrip {
    pub fn begin(pending: i32) -> (r: Roundtrip)
        ensures
            r.pending == pending,
            !r.done,
            r.failure is None,
    {
        Roundtrip { pending, done: false, failure: None }
    }

    /// Something was answered: what counts is the server's own answer to the
    /// question.
    pub fn answer_heard(&mut self, from_core: bool, sequence: i32)
        ensures
            *final(self) == (Roundtrip {
                done: old(self).done || (from_core && sequence == old(self).pending),
                ..*old(self)
            }),
    {
        if from_core && sequence == self.pending {
            self.done = true;
        }
    }

    /// An error was reported, with a number and words.
    pub fn error_heard(&mut self, result: i32, message: &str)
        ensures
            opt_text(final(self).failure) == Some(message@ + " ("@ + signed(result as int) + ")"@),
            final(self).pending == old(self).pending,
            final(self).done == old(self).done,
    {
        let text = concat3(message, " (", signed_text(result).as_str());
        self.failure = Some(concat2(text.as_str(), ")"));
    }

    /// The wait goes on.
    pub open spec fn goes_on(&self) -> bool {
        !self.done && self.failure is None
    }

    pub fn waits(&self) -> (r: bool)
        ensures
            r == self.goes_on(),
    {
        !self.done && self.failure.is_none()
    }

    /// Why the wait failed, if it did. An error counts also where the answer
    /// came.
    pub open spec fn failed(&self) -> Option<BackendErrorView> {
        match opt_text(self.failure) {
            Some(text) => Some(native_failure("PipeWire registry synchronization"@, text)),
            None => if self.done {
                None
            } else {
                Some(
                    BackendErrorView::Native(
                        "PipeWire registry synchronization ended unexpectedly"@,
                    ),
                )
            },
        }
    }

    /// What the wait came to.
    pub fn outcome(self) -> (r: Result<(), BackendError>)
        ensures
            match self.failed() {
                None => r is Ok,
                Some(error) => r matches Err(e) && e@ == error,
            },
    {
        match self.failure {
            Some(text) => Err(
                crate::model::native_error("PipeWire registry synchronization", text.as_str()),
            ),
            None => if self.done {
                Ok(())
            } else {
                Err(BackendError::native("PipeWire registry synchronization ended unexpectedly"))
            },
        }
    }
}

/// A wait that is over has succeeded exactly where nothing was reported: it
/// never ends unexpectedly.
pub proof fn law_finished_waits_are_answered(wait: Roundtrip)
    requires
        !wait.goes_on(),
    ensures
        wait.failed() is None <==> wait.done && wait.failure is None,
        wait.failed() is Some <==> wait.failure is Some,
{
}

} // verus!
