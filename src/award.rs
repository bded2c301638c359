use vstd::prelude::*;

use crate::text::Text;

verus! {

/// Number of score units in one point: scores are fixed-point numbers
/// with six decimal places (`Score(500_000)` is half a point).
pub const SCORE_UNIT: i64 = 1_000_000;

/// Wraps a number that represents a score, in millionths of a point.
#[derive(Clone, Copy, Debug, PartialEq, Eq, Structural)]
pub struct Score(pub i64);

/// Wraps a string that identifies an award.
pub struct AwardName(pub String);

/// Describes the possible values of a score.
#[derive(Clone, Copy, Debug, PartialEq, Eq, Structural)]
pub struct ScoreRange {
    /// Number of significant decimal places.
    pub precision: i32,
    /// Maximum score.
    pub max: Score,
    /// Whether scores strictly between zero and the maximum may be awarded.
    pub allow_partial: bool,
}

/// An award that has a numerical score.
#[derive(Clone, Copy, Debug, PartialEq, Eq, Structural)]
pub struct ScoreAwardContent {
    pub range: ScoreRange,
}

/// Describes the nature of an award.
#[derive(Clone, Copy, Debug, PartialEq, Eq, Structural)]
pub enum AwardContent {
    /// A continuous score within a range.
    Score(ScoreAwardContent),
    /// Only two possible states (success or fail).
    Badge,
}

/// Describes an item to which a score can be assigned.
pub struct Award {
    /// Name of this award, used to identify it.
    /// Should never be shown to (non-admin) users.
    pub name: AwardName,
    /// Name of this award, as shown to users.
    pub title: Text,
    /// Content of this award.
    pub content: AwardContent,
}

} // verus!
