use turingarena::award::{AwardContent, Score};
use turingarena::material::{award_of, SubtaskInfo};

#[test]
fn it_works() {
    assert_eq!(2 + 2, 4);
}

#[test]
fn positive_max_score_gives_score_award() {
    let st = SubtaskInfo { id: 3, max_score: Score(100_000_000), testcases: vec![] };
    let a = award_of(&st);
    assert_eq!(a.name.0, "subtask.3.score");
    match a.content {
        AwardContent::Score(c) => {
            assert_eq!(c.range.max, Score(100_000_000));
            assert_eq!(c.range.precision, 0);
            assert!(c.range.allow_partial);
        }
        AwardContent::Badge => panic!("expected a score award"),
    }
    assert_eq!(a.title.len(), 2);
    assert_eq!(a.title[0].value, "Subtask 3");
    assert_eq!(a.title[1].value, "ST 3");
    assert_eq!(a.title[1].attributes[0].key, "style");
    assert_eq!(a.title[1].attributes[0].value, "short");
}

#[test]
fn zero_max_score_gives_badge_award() {
    let st = SubtaskInfo { id: 120, max_score: Score(0), testcases: vec![] };
    let a = award_of(&st);
    assert_eq!(a.name.0, "subtask.120.badge");
    assert!(matches!(a.content, AwardContent::Badge));
}
