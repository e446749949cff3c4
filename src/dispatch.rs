use vstd::prelude::*;

use crate::model::{SendMessage, Update};
use crate::pipeline::{plan_update, sends_view, update_sends};

verus! {

/// A platform call that failed, with the transport's own description.
pub struct SendError {
    pub description: String,
}

/// The result of one pipeline pass over one update.
pub enum DispatchOutcome {
    Handled,
    Failed(SendError),
}

/// What the runner of a pass does next.
pub enum PassStep {
    /// Perform the call at this index of the plan and report how it went.
    Send(usize),
    /// The pass is over; take its outcome.
    Finished,
}

/// One pipeline pass over one update: the planned calls, how many went through, and the first
/// failure, after which the pass makes no further call.
pub struct Pass {
    pub calls: Vec<SendMessage>,
    pub sent: usize,
    pub failure: Option<SendError>,
}

impl Pass {
    pub open spec fn wf(&self) -> bool {
        self.sent <= self.calls@.len()
    }

    pub open spec fn is_finished(&self) -> bool {
        self.failure is Some || self.sent == self.calls@.len()
    }

    /// Starts the pass for an update, with the calls the pipeline owes it.
    pub fn new(update: &Update) -> (r: Pass)
        ensures
            r.wf(),
            sends_view(r.calls@) == update_sends(*update),
            r.sent == 0,
            r.failure is None,
    {
        Pass { calls: plan_update(update), sent: 0, failure: None }
    }

    /// The next call in plan order, until every call went through or one failed.
    pub fn next_step(&self) -> (r: PassStep)
        requires
            self.wf(),
        ensures
            self.is_finished() ==> r is Finished,
            !self.is_finished() ==> r == PassStep::Send(self.sent),
    {
        if self.failure.is_some() || self.sent == self.calls.len() {
            PassStep::Finished
        } else {
            PassStep::Send(self.sent)
        }
    }

    /// Records how the call handed out by `next_step` went.
    pub fn record(&mut self, result: Result<(), SendError>)
        requires
            old(self).wf(),
            !old(self).is_finished(),
        ensures
            final(self).wf(),
            final(self).calls == old(self).calls,
            match result {
                Ok(()) => final(self).sent == old(self).sent + 1 && final(self).failure is None,
                Err(e) => final(self).sent == old(self).sent && final(self).failure == Some(e),
            },
    {
        match result {
            Ok(()) => {
                let n = self.calls.len();
                assert(self.sent < n);
                self.sent = self.sent + 1;
            },
            Err(e) => {
                self.failure = Some(e);
            },
        }
    }

    /// The outcome of a finished pass: the first failure, if any, else success.
    pub fn outcome(self) -> (r: DispatchOutcome)
        ensures
            match self.failure {
                Some(e) => r == DispatchOutcome::Failed(e),
                None => r is Handled,
            },
    {
        match self.failure {
            Some(e) => DispatchOutcome::Failed(e),
            None => DispatchOutcome::Handled,
        }
    }
}

} // verus!
