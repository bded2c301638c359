use vstd::prelude::*;

use crate::evaluation::{
    award_of_event, record_of, AwardData, AwardView, EvaluationEvent,
    EvaluationEventView, Event,
};

verus! {

/// What the store knows of a submission: who made it, for which problem, and when.
pub struct SubmissionData {
    pub id: String,
    pub user_id: String,
    pub problem_name: String,
    /// Creation time, as a timestamp: a later submission has a larger value.
    pub created_at: i64,
}

/// The mathematical content of a [`SubmissionData`].
pub struct SubmissionView {
    pub id: Seq<char>,
    pub user_id: Seq<char>,
    pub problem_name: Seq<char>,
    pub created_at: i64,
}

impl View for SubmissionData {
    type V = SubmissionView;

    open spec fn view(&self) -> SubmissionView {
        SubmissionView {
            id: self.id@,
            user_id: self.user_id@,
            problem_name: self.problem_name@,
            created_at: self.created_at,
        }
    }
}

/// Why the store refused to record an event.
#[derive(Clone, Copy, Debug, PartialEq, Eq, Structural)]
pub enum StoreError {
    /// The serial is not the next one of the submission's event log.
    SerialOutOfOrder,
}

/// The award store: the submissions, the event log of each submission, and
/// the award records derived from the events.
pub struct AwardStore {
    pub submissions: Vec<SubmissionData>,
    pub events: Vec<EvaluationEvent>,
    pub awards: Vec<AwardData>,
}

/// The serials that the log holds for one submission, in log order.
pub open spec fn serials_of(events: Seq<EvaluationEventView>, submission_id: Seq<char>) -> Seq<u64>
    decreases events.len(),
{
    if events.len() == 0 {
        Seq::empty()
    } else {
        let prev = serials_of(events.drop_last(), submission_id);
        if events.last().submission_id == submission_id {
            prev.push(events.last().serial)
        } else {
            prev
        }
    }
}

/// The serials are exactly 0, 1, 2, ... in order.
pub open spec fn is_gapless(serials: Seq<u64>) -> bool {
    forall|i: int| 0 <= i < serials.len() ==> #[trigger] serials[i] == i
}

/// The award records that a log of events produces, in log order.
pub open spec fn records_of(events: Seq<EvaluationEventView>) -> Seq<AwardView>
    decreases events.len(),
{
    if events.len() == 0 {
        Seq::empty()
    } else {
        let prev = records_of(events.drop_last());
        match record_of(events.last().submission_id, events.last().event) {
            Some(a) => prev.push(a),
            None => prev,
        }
    }
}

/// The sequence holding the record, if there is one.
pub open spec fn option_seq(r: Option<AwardView>) -> Seq<AwardView> {
    match r {
        Some(a) => seq![a],
        None => Seq::empty(),
    }
}

impl AwardStore {
    pub open spec fn submission_views(&self) -> Seq<SubmissionView> {
        self.submissions@.map_values(|s: SubmissionData| s@)
    }

    pub open spec fn event_views(&self) -> Seq<EvaluationEventView> {
        self.events@.map_values(|e: EvaluationEvent| e@)
    }

    pub open spec fn award_views(&self) -> Seq<AwardView> {
        self.awards@.map_values(|a: AwardData| a@)
    }

    /// Every submission's serials are gapless, and the awards are exactly
    /// those that the logged events produce.
    pub open spec fn wf(&self) -> bool {
        &&& forall|id: Seq<char>| is_gapless(#[trigger] serials_of(self.event_views(), id))
        &&& self.award_views() == records_of(self.event_views())
    }

    /// An empty store.
    pub fn new() -> (r: AwardStore)
        ensures
            r.wf(),
            r.submissions@.len() == 0,
            r.events@.len() == 0,
            r.awards@.len() == 0,
    {
        let r = AwardStore { submissions: Vec::new(), events: Vec::new(), awards: Vec::new() };
        assert(r.award_views() =~= records_of(r.event_views()));
        r
    }

    /// Registers a submission, so that its awards can be aggregated.
    pub fn add_submission(&mut self, submission: SubmissionData)
        requires
            old(self).wf(),
        ensures
            final(self).wf(),
            final(self).submission_views() == old(self).submission_views().push(submission@),
            final(self).events == old(self).events,
            final(self).awards == old(self).awards,
    {
        let ghost v = submission@;
        self.submissions.push(submission);
        assert(self.submission_views() =~= old(self).submission_views().push(v));
    }

    /// The number of events logged for a submission: the serial its next event gets.
    pub fn next_serial(&self, submission_id: &String) -> (r: usize)
        ensures
            r == serials_of(self.event_views(), submission_id@).len(),
    {
        let mut count: usize = 0;
        let mut i: usize = 0;
        while i < self.events.len()
            invariant
                i <= self.events@.len(),
                count == serials_of(self.event_views().take(i as int), submission_id@).len(),
                count <= i,
            decreases self.events@.len() - i,
        {
            proof {
                assert(self.event_views().take(i + 1).drop_last() =~= self.event_views().take(
                    i as int,
                ));
            }
            if self.events[i].submission_id == *submission_id {
                count = count + 1;
            }
            i = i + 1;
        }
        assert(self.event_views().take(i as int) =~= self.event_views());
        count
    }

    /// Records one event of a submission in a single step: the event is
    /// appended to the log and, for a score or badge event, its award record
    /// is added. The event is refused, and the store left as it was, unless
    /// `serial` is the next serial of that submission.
    pub fn insert_event(&mut self, serial: u64, submission_id: &String, event: Event) -> (r: Result<
        (),
        StoreError,
    >)
        requires
            old(self).wf(),
        ensures
            final(self).wf(),
            final(self).submissions == old(self).submissions,
            r is Ok <==> serial == serials_of(old(self).event_views(), submission_id@).len(),
            r is Ok ==> final(self).event_views() == old(self).event_views().push(
                (EvaluationEventView { submission_id: submission_id@, serial, event: event@ }),
            ),
            r is Ok ==> final(self).award_views() == old(self).award_views() + option_seq(
                record_of(submission_id@, event@),
            ),
            r is Err ==> final(self).events == old(self).events && final(self).awards == old(
                self,
            ).awards,
    {
        let expected = self.next_serial(submission_id);
        if serial != expected as u64 {
            return Err(StoreError::SerialOutOfOrder);
        }
        let ghost ev = EvaluationEventView { submission_id: submission_id@, serial, event: event@ };
        let ghost old_events = self.event_views();
        let ghost old_awards = self.award_views();
        let award = award_of_event(submission_id, &event);
        match award {
            Some(a) => {
                self.awards.push(a);
            },
            None => {},
        }
        self.events.push(EvaluationEvent { submission_id: submission_id.clone(), serial, event });
        proof {
            assert(self.event_views() =~= old_events.push(ev));
            assert(self.event_views().drop_last() =~= old_events);
            assert(self.award_views() =~= old_awards + option_seq(record_of(submission_id@, ev.event)));
            match record_of(submission_id@, ev.event) {
                Some(a) => assert(records_of(self.event_views()) =~= records_of(old_events).push(a)),
                None => assert(records_of(self.event_views()) =~= records_of(old_events)),
            }
            assert(self.award_views() =~= records_of(self.event_views()));
            assert forall|id: Seq<char>| is_gapless(#[trigger] serials_of(self.event_views(), id)) by {
                let prev = serials_of(old_events, id);
                assert(is_gapless(prev));
                if id == submission_id@ {
                    assert(serials_of(self.event_views(), id) =~= prev.push(serial));
                    assert forall|i: int| 0 <= i < prev.len() + 1 implies #[trigger] prev.push(serial)[i] == i by {
                        if i < prev.len() {
                            assert(prev[i] == i);
                        }
                    }
                } else {
                    assert(serials_of(self.event_views(), id) =~= prev);
                }
            }
        }
        Ok(())
    }
}

/// The logged events of one submission, in log order.
pub open spec fn events_of(events: Seq<EvaluationEventView>, submission_id: Seq<char>) -> Seq<
    EvaluationEventView,
>
    decreases events.len(),
{
    if events.len() == 0 {
        Seq::empty()
    } else {
        let prev = events_of(events.drop_last(), submission_id);
        if events.last().submission_id == submission_id {
            prev.push(events.last())
        } else {
            prev
        }
    }
}

proof fn lemma_serials_are_log_serials(events: Seq<EvaluationEventView>, submission_id: Seq<char>)
    ensures
        serials_of(events, submission_id) == events_of(events, submission_id).map_values(
            |e: EvaluationEventView| e.serial,
        ),
    decreases events.len(),
{
    if events.len() > 0 {
        lemma_serials_are_log_serials(events.drop_last(), submission_id);
        let prev = events_of(events.drop_last(), submission_id);
        if events.last().submission_id == submission_id {
            assert(prev.push(events.last()).map_values(|e: EvaluationEventView| e.serial)
                =~= prev.map_values(|e: EvaluationEventView| e.serial).push(events.last().serial));
        }
    }
}

/// In a well-formed store, which `new` and `insert_event` keep so, the
/// event log of every submission holds the serials 0, 1, ..., n-1 in log
/// order: no gap, no repetition, no reordering.
pub proof fn lemma_event_log_gapless(store: AwardStore, submission_id: Seq<char>)
    requires
        store.wf(),
    ensures
        forall|i: int|
            0 <= i < events_of(store.event_views(), submission_id).len() ==> #[trigger] events_of(
                store.event_views(),
                submission_id,
            )[i].serial == i,
{
    lemma_serials_are_log_serials(store.event_views(), submission_id);
    let serials = serials_of(store.event_views(), submission_id);
    assert(is_gapless(serials));
    assert forall|i: int|
        0 <= i < events_of(store.event_views(), submission_id).len() implies #[trigger] events_of(
        store.event_views(),
        submission_id,
    )[i].serial == i by {
        assert(serials[i] == i);
    }
}

/// In a well-formed store the award records are exactly those of the
/// logged events, in log order: one per score or badge event, with its award
/// name and its value (a badge worth one point when won, zero otherwise),
/// and none for any other event.
pub proof fn lemma_one_record_per_scoring_event(store: AwardStore)
    requires
        store.wf(),
    ensures
        store.award_views() == records_of(store.event_views()),
        forall|i: int|
            0 <= i < store.event_views().len() ==> records_of(store.event_views().take(i + 1))
                == records_of(store.event_views().take(i)) + option_seq(
                record_of(
                    #[trigger] store.event_views()[i].submission_id,
                    store.event_views()[i].event,
                ),
            ),
{
    assert forall|i: int| 0 <= i < store.event_views().len() implies records_of(
        store.event_views().take(i + 1),
    ) == records_of(store.event_views().take(i)) + option_seq(
        record_of(#[trigger] store.event_views()[i].submission_id, store.event_views()[i].event),
    ) by {
        let ev = store.event_views();
        assert(ev.take(i + 1).drop_last() =~= ev.take(i));
        match record_of(ev[i].submission_id, ev[i].event) {
            Some(a) => assert(records_of(ev.take(i)).push(a) =~= records_of(ev.take(i)) + seq![a]),
            None => assert(records_of(ev.take(i)) =~= records_of(ev.take(i)) + Seq::empty()),
        }
    }
}

/// The event log of one submission, in log order.
pub fn query_events<'a>(store: &'a AwardStore, submission_id: &String) -> (r: Vec<&'a EvaluationEvent>)
    ensures
        r@.map_values(|e: &EvaluationEvent| e@) == events_of(store.event_views(), submission_id@),
{
    let mut r: Vec<&EvaluationEvent> = Vec::new();
    let mut i: usize = 0;
    while i < store.events.len()
        invariant
            i <= store.events@.len(),
            r@.map_values(|e: &EvaluationEvent| e@) == events_of(
                store.event_views().take(i as int),
                submission_id@,
            ),
        decreases store.events@.len() - i,
    {
        proof {
            assert(store.event_views().take(i + 1).drop_last() =~= store.event_views().take(
                i as int,
            ));
        }
        let ghost prev = r@;
        if store.events[i].submission_id == *submission_id {
            r.push(&store.events[i]);
            assert(r@.map_values(|e: &EvaluationEvent| e@) =~= prev.map_values(
                |e: &EvaluationEvent| e@,
            ).push(store.events@[i as int]@));
        }
        i = i + 1;
    }
    assert(store.event_views().take(i as int) =~= store.event_views());
    r
}

} // verus!
