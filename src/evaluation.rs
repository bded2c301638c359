use vstd::prelude::*;

use crate::award::{AwardName, Score, SCORE_UNIT};

verus! {

/// A score assigned by the grader to an award.
pub struct ScoreEvent {
    pub award_name: AwardName,
    pub score: Score,
}

/// A badge (success or failure) assigned by the grader to an award.
pub struct BadgeEvent {
    pub award_name: AwardName,
    pub badge: bool,
}

/// One event emitted by the grader while evaluating a submission.
pub enum Event {
    Score(ScoreEvent),
    Badge(BadgeEvent),
    /// Any other event, kept in the log only, in its serialized form.
    Other(String),
}

/// The mathematical content of an [`Event`].
pub enum EventView {
    Score(Seq<char>, Score),
    Badge(Seq<char>, bool),
    Other(Seq<char>),
}

impl View for Event {
    type V = EventView;

    open spec fn view(&self) -> EventView {
        match self {
            Event::Score(e) => EventView::Score(e.award_name.0@, e.score),
            Event::Badge(e) => EventView::Badge(e.award_name.0@, e.badge),
            Event::Other(s) => EventView::Other(s@),
        }
    }
}

/// The two ways an award value is interpreted.
#[derive(Clone, Copy, Debug, PartialEq, Eq, Structural)]
pub enum AwardKind {
    Score,
    Badge,
}

/// A stored award value, derived from one scoring event of a submission.
pub struct AwardData {
    pub kind: AwardKind,
    /// Id of the submission
    pub submission_id: String,
    /// Name of the award
    pub award_name: String,
    pub value: Score,
}

/// The mathematical content of an [`AwardData`].
pub struct AwardView {
    pub kind: AwardKind,
    pub submission_id: Seq<char>,
    pub award_name: Seq<char>,
    pub value: Score,
}

impl View for AwardData {
    type V = AwardView;

    open spec fn view(&self) -> AwardView {
        AwardView {
            kind: self.kind,
            submission_id: self.submission_id@,
            award_name: self.award_name@,
            value: self.value,
        }
    }
}

/// The stored value of a badge: one point when won, zero otherwise.
pub open spec fn badge_value(badge: bool) -> Score {
    if badge { Score(SCORE_UNIT) } else { Score(0) }
}

/// The award record that an event of the given submission produces, if any.
pub open spec fn record_of(submission_id: Seq<char>, event: EventView) -> Option<AwardView> {
    match event {
        EventView::Score(name, score) => Some(
            AwardView { kind: AwardKind::Score, submission_id, award_name: name, value: score },
        ),
        EventView::Badge(name, badge) => Some(
            AwardView {
                kind: AwardKind::Badge,
                submission_id,
                award_name: name,
                value: badge_value(badge),
            },
        ),
        EventView::Other(_) => None,
    }
}

/// Derives the award record of one event of a submission: a score event gives
/// a score record, a badge event a badge record worth one point or zero, any
/// other event nothing.
pub fn award_of_event(submission_id: &String, event: &Event) -> (r: Option<AwardData>)
    ensures
        match r {
            Some(a) => record_of(submission_id@, event@) == Some(a@),
            None => record_of(submission_id@, event@) is None,
        },
{
    match event {
        Event::Score(e) => Some(
            AwardData {
                kind: AwardKind::Score,
                submission_id: submission_id.clone(),
                award_name: e.award_name.0.clone(),
                value: e.score,
            },
        ),
        Event::Badge(e) => Some(
            AwardData {
                kind: AwardKind::Badge,
                submission_id: submission_id.clone(),
                award_name: e.award_name.0.clone(),
                value: if e.badge { Score(SCORE_UNIT) } else { Score(0) },
            },
        ),
        Event::Other(_) => None,
    }
}

/// An evaluation event, as stored in the event log.
pub struct EvaluationEvent {
    /// id of the submission
    pub submission_id: String,
    /// serial number of the event
    pub serial: u64,
    /// value of the event
    pub event: Event,
}

/// The mathematical content of an [`EvaluationEvent`].
pub struct EvaluationEventView {
    pub submission_id: Seq<char>,
    pub serial: u64,
    pub event: EventView,
}

impl View for EvaluationEvent {
    type V = EvaluationEventView;

    open spec fn view(&self) -> EvaluationEventView {
        EvaluationEventView {
            submission_id: self.submission_id@,
            serial: self.serial,
            event: self.event@,
        }
    }
}

impl EvaluationEvent {
    /// serial number of the event
    pub fn serial(&self) -> (r: u64)
        ensures
            r == self.serial,
    {
        self.serial
    }

    /// value of this evaluation event
    pub fn event(&self) -> (r: &Event)
        ensures
            r == &self.event,
    {
        &self.event
    }
}

/// A score award of a submission.
pub struct ScoreAward {
    pub data: AwardData,
}

/// A badge award of a submission.
pub struct BadgeAward {
    pub data: AwardData,
}

impl ScoreAward {
    /// The score
    pub fn score(&self) -> (r: Score)
        ensures
            r == self.data.value,
    {
        self.data.value
    }

    /// Name of the award
    pub fn award_name(&self) -> (r: AwardName)
        ensures
            r.0@ == self.data.award_name@,
    {
        AwardName(self.data.award_name.clone())
    }
}

impl BadgeAward {
    /// The badge: won when the stored value is one point.
    pub fn badge(&self) -> (r: bool)
        ensures
            r == (self.data.value.0 == SCORE_UNIT),
    {
        self.data.value.0 == SCORE_UNIT
    }

    /// Name of the award
    pub fn award_name(&self) -> (r: AwardName)
        ensures
            r.0@ == self.data.award_name@,
    {
        AwardName(self.data.award_name.clone())
    }
}

} // verus!
