use vstd::prelude::*;

use crate::evaluation::{record_of, EvaluationEventView, Event};
use crate::store::{option_seq, serials_of, AwardStore};

verus! {

/// Lifecycle of a submission's evaluation.
#[derive(Clone, Copy, Debug, PartialEq, Eq, Structural)]
pub enum SubmissionStatus {
    Queued,
    Evaluating,
    Success,
    Failed,
}

/// The state of the evaluation of one submission. The caller consumes the
/// grader's events in arrival order and hands each to `on_event`, then calls
/// `on_end` when the stream closes, or `on_failure` when it breaks.
pub struct EvaluationRun {
    pub submission_id: String,
    /// The serial that the next event gets.
    pub next_serial: u64,
    pub status: SubmissionStatus,
}

impl EvaluationRun {
    /// Starts evaluating a submission: no event seen yet.
    pub fn start(submission_id: String) -> (r: EvaluationRun)
        ensures
            r.submission_id@ == submission_id@,
            r.next_serial == 0,
            r.status == SubmissionStatus::Evaluating,
    {
        EvaluationRun { submission_id, next_serial: 0, status: SubmissionStatus::Evaluating }
    }

    /// Persists the next event of the stream. While evaluating, the event is
    /// stored with the next serial; if the store refuses it, the evaluation
    /// fails and nothing is stored. After the end, events are ignored.
    pub fn on_event(&mut self, store: &mut AwardStore, event: Event)
        requires
            old(store).wf(),
        ensures
            final(store).wf(),
            final(store).submissions == old(store).submissions,
            final(self).submission_id == old(self).submission_id,
            old(self).status != SubmissionStatus::Evaluating ==> *final(self) == *old(self)
                && final(store).events == old(store).events && final(store).awards == old(
                store,
            ).awards,
            old(self).status == SubmissionStatus::Evaluating && old(self).next_serial
                == serials_of(old(store).event_views(), old(self).submission_id@).len()
                && old(self).next_serial < u64::MAX ==> {
                &&& final(self).status == SubmissionStatus::Evaluating
                &&& final(self).next_serial == old(self).next_serial + 1
                &&& final(store).event_views() == old(store).event_views().push(
                    (EvaluationEventView {
                        submission_id: old(self).submission_id@,
                        serial: old(self).next_serial,
                        event: event@,
                    }),
                )
                &&& final(store).award_views() == old(store).award_views() + option_seq(
                    record_of(old(self).submission_id@, event@),
                )
            },
            old(self).status == SubmissionStatus::Evaluating && !(old(self).next_serial
                == serials_of(old(store).event_views(), old(self).submission_id@).len()
                && old(self).next_serial < u64::MAX) ==> {
                &&& final(self).status == SubmissionStatus::Failed
                &&& final(self).next_serial == old(self).next_serial
                &&& final(store).events == old(store).events
                &&& final(store).awards == old(store).awards
            },
    {
        if self.status != SubmissionStatus::Evaluating {
            return;
        }
        if self.next_serial == u64::MAX {
            self.status = SubmissionStatus::Failed;
            return;
        }
        match store.insert_event(self.next_serial, &self.submission_id, event) {
            Ok(()) => {
                self.next_serial = self.next_serial + 1;
            },
            Err(_) => {
                self.status = SubmissionStatus::Failed;
            },
        }
    }

    /// The stream closed normally: an evaluation in progress succeeds.
    pub fn on_end(&mut self)
        ensures
            final(self).submission_id == old(self).submission_id,
            final(self).next_serial == old(self).next_serial,
            final(self).status == if old(self).status == SubmissionStatus::Evaluating {
                SubmissionStatus::Success
            } else {
                old(self).status
            },
    {
        if self.status == SubmissionStatus::Evaluating {
            self.status = SubmissionStatus::Success;
        }
    }

    /// The stream broke: an evaluation in progress fails.
    pub fn on_failure(&mut self)
        ensures
            final(self).submission_id == old(self).submission_id,
            final(self).next_serial == old(self).next_serial,
            final(self).status == if old(self).status == SubmissionStatus::Evaluating {
                SubmissionStatus::Failed
            } else {
                old(self).status
            },
    {
        if self.status == SubmissionStatus::Evaluating {
            self.status = SubmissionStatus::Failed;
        }
    }
}

} // verus!
