use turingarena::aggregate::{
    query_awards, query_awards_of_user_and_problem, BestBadgeAward, MaxScoreAward,
};
use turingarena::award::{AwardName, Score};
use turingarena::evaluation::{
    award_of_event, AwardKind, BadgeAward, BadgeEvent, Event, ScoreAward, ScoreEvent,
};
use turingarena::orchestrator::{EvaluationRun, SubmissionStatus};
use turingarena::store::{query_events, AwardStore, StoreError, SubmissionData};

fn score(name: &str, value: i64) -> Event {
    Event::Score(ScoreEvent { award_name: AwardName(name.to_string()), score: Score(value) })
}

fn badge(name: &str, value: bool) -> Event {
    Event::Badge(BadgeEvent { award_name: AwardName(name.to_string()), badge: value })
}

fn submission(id: &str, user: &str, problem: &str, created_at: i64) -> SubmissionData {
    SubmissionData {
        id: id.to_string(),
        user_id: user.to_string(),
        problem_name: problem.to_string(),
        created_at,
    }
}

fn s(x: &str) -> String {
    x.to_string()
}

#[test]
fn three_event_stream_gives_serials_and_two_records() {
    let mut store = AwardStore::new();
    store.add_submission(submission("sub-1", "alice", "sum", 1));
    let mut run = EvaluationRun::start(s("sub-1"));
    run.on_event(&mut store, score("st.1.score", 500_000));
    run.on_event(&mut store, Event::Other(s("{\"Value\":1}")));
    run.on_event(&mut store, badge("st.2.badge", true));
    run.on_end();
    assert_eq!(run.status, SubmissionStatus::Success);
    let events = query_events(&store, &s("sub-1"));
    let serials: Vec<u64> = events.iter().map(|e| e.serial()).collect();
    assert_eq!(serials, vec![0, 1, 2]);
    assert!(matches!(events[1].event(), Event::Other(_)));
    assert_eq!(store.awards.len(), 2);
    let a = &store.awards[0];
    assert_eq!((a.kind, a.submission_id.as_str(), a.award_name.as_str(), a.value),
        (AwardKind::Score, "sub-1", "st.1.score", Score(500_000)));
    let b = &store.awards[1];
    assert_eq!((b.kind, b.submission_id.as_str(), b.award_name.as_str(), b.value),
        (AwardKind::Badge, "sub-1", "st.2.badge", Score(1_000_000)));
}

#[test]
fn serials_count_per_submission() {
    let mut store = AwardStore::new();
    assert_eq!(store.insert_event(0, &s("a"), score("x", 1)), Ok(()));
    assert_eq!(store.insert_event(0, &s("b"), score("x", 2)), Ok(()));
    assert_eq!(store.insert_event(1, &s("a"), Event::Other(s("o"))), Ok(()));
    assert_eq!(store.next_serial(&s("a")), 2);
    assert_eq!(store.next_serial(&s("b")), 1);
    assert_eq!(store.next_serial(&s("c")), 0);
    let a: Vec<u64> = query_events(&store, &s("a")).iter().map(|e| e.serial).collect();
    assert_eq!(a, vec![0, 1]);
}

#[test]
fn out_of_order_serial_is_refused_and_nothing_stored() {
    let mut store = AwardStore::new();
    assert_eq!(store.insert_event(1, &s("a"), score("x", 1)), Err(StoreError::SerialOutOfOrder));
    assert_eq!(store.events.len(), 0);
    assert_eq!(store.awards.len(), 0);
    store.insert_event(0, &s("a"), score("x", 1)).unwrap();
    assert_eq!(store.insert_event(0, &s("a"), score("x", 1)), Err(StoreError::SerialOutOfOrder));
    assert_eq!(store.events.len(), 1);
    assert_eq!(store.awards.len(), 1);
}

#[test]
fn badge_false_is_zero_and_other_gives_no_record() {
    let lost = award_of_event(&s("q"), &badge("b", false)).unwrap();
    assert_eq!(lost.value, Score(0));
    assert_eq!(lost.kind, AwardKind::Badge);
    assert!(award_of_event(&s("q"), &Event::Other(s("{}"))).is_none());
    let sc = award_of_event(&s("q"), &score("t", 250_000)).unwrap();
    assert_eq!((sc.kind, sc.award_name.as_str(), sc.value), (AwardKind::Score, "t", Score(250_000)));
}

#[test]
fn later_submission_represents_equal_best_score() {
    let mut store = AwardStore::new();
    store.add_submission(submission("s1", "u", "p", 10));
    store.add_submission(submission("s2", "u", "p", 20));
    store.insert_event(0, &s("s1"), score("subtask.1.score", 80_000_000)).unwrap();
    store.insert_event(0, &s("s2"), score("subtask.1.score", 80_000_000)).unwrap();
    let best = query_awards_of_user_and_problem(&store, AwardKind::Score, &s("u"), &s("p"));
    assert_eq!(best.len(), 1);
    assert_eq!(best[0].submission_id, "s2");
    assert_eq!(best[0].value, Score(80_000_000));
    assert_eq!(best[0].award_name, "subtask.1.score");
}

#[test]
fn best_score_is_maximum_per_award_and_filters_user_problem_kind() {
    let mut store = AwardStore::new();
    store.add_submission(submission("s1", "u", "p", 10));
    store.add_submission(submission("s2", "u", "p", 20));
    store.add_submission(submission("s3", "v", "p", 30));
    store.add_submission(submission("s4", "u", "q", 40));
    store.insert_event(0, &s("s1"), score("a", 90)).unwrap();
    store.insert_event(1, &s("s1"), score("b", 10)).unwrap();
    store.insert_event(0, &s("s2"), score("a", 50)).unwrap();
    store.insert_event(1, &s("s2"), score("b", 30)).unwrap();
    store.insert_event(2, &s("s2"), badge("a", true)).unwrap();
    store.insert_event(0, &s("s3"), score("a", 100)).unwrap();
    store.insert_event(0, &s("s4"), score("a", 100)).unwrap();
    let best = query_awards_of_user_and_problem(&store, AwardKind::Score, &s("u"), &s("p"));
    let got: Vec<(String, i64, String)> =
        best.iter().map(|b| (b.award_name.clone(), b.value.0, b.submission_id.clone())).collect();
    assert_eq!(got, vec![(s("a"), 90, s("s1")), (s("b"), 30, s("s2"))]);
    let badges = query_awards_of_user_and_problem(&store, AwardKind::Badge, &s("u"), &s("p"));
    assert_eq!(badges.len(), 1);
    let bb = BestBadgeAward { data: badges.into_iter().next().unwrap() };
    assert!(bb.badge());
    assert_eq!(bb.submission_id(), "s2");
    assert_eq!(bb.award_name(), "a");
    assert!(query_awards_of_user_and_problem(&store, AwardKind::Score, &s("w"), &s("p")).is_empty());
}

#[test]
fn aggregation_is_repeatable() {
    let mut store = AwardStore::new();
    store.add_submission(submission("s1", "u", "p", 5));
    store.add_submission(submission("s2", "u", "p", 5));
    store.insert_event(0, &s("s1"), score("a", 7)).unwrap();
    store.insert_event(0, &s("s2"), score("a", 7)).unwrap();
    let first = query_awards_of_user_and_problem(&store, AwardKind::Score, &s("u"), &s("p"));
    let second = query_awards_of_user_and_problem(&store, AwardKind::Score, &s("u"), &s("p"));
    let key = |v: &Vec<turingarena::aggregate::MaxAwardData>| -> Vec<(String, i64, String)> {
        v.iter().map(|b| (b.award_name.clone(), b.value.0, b.submission_id.clone())).collect()
    };
    assert_eq!(key(&first), key(&second));
    // equal value and creation time: the submission registered last
    assert_eq!(first[0].submission_id, "s2");
    let m = MaxScoreAward { data: first.into_iter().next().unwrap() };
    assert_eq!(m.score(), Score(7));
    assert_eq!(m.submission_id(), "s2");
    assert_eq!(m.award_name(), "a");
}

#[test]
fn awards_of_one_submission() {
    let mut store = AwardStore::new();
    store.insert_event(0, &s("s1"), score("a", 1)).unwrap();
    store.insert_event(1, &s("s1"), badge("b", false)).unwrap();
    store.insert_event(0, &s("s2"), score("c", 2)).unwrap();
    let sc = query_awards(&store, AwardKind::Score, &s("s1"));
    assert_eq!(sc.len(), 1);
    assert_eq!(sc[0].award_name, "a");
    let bd = query_awards(&store, AwardKind::Badge, &s("s1"));
    assert_eq!(bd.len(), 1);
    let ba = BadgeAward { data: award_of_event(&s("s1"), &badge("b", false)).unwrap() };
    assert!(!ba.badge());
    assert_eq!(ba.award_name().0, "b");
    let sa = ScoreAward { data: award_of_event(&s("s1"), &score("a", 3)).unwrap() };
    assert_eq!(sa.score(), Score(3));
    assert_eq!(sa.award_name().0, "a");
}

#[test]
fn failed_stream_and_refused_event_end_in_failure() {
    let mut store = AwardStore::new();
    let mut run = EvaluationRun::start(s("x"));
    run.on_event(&mut store, score("a", 1));
    assert_eq!(run.next_serial, 1);
    run.on_failure();
    assert_eq!(run.status, SubmissionStatus::Failed);
    run.on_end();
    assert_eq!(run.status, SubmissionStatus::Failed);
    run.on_event(&mut store, score("a", 1));
    assert_eq!(store.events.len(), 1);

    let mut other = EvaluationRun::start(s("y"));
    store.insert_event(0, &s("y"), score("a", 1)).unwrap();
    other.on_event(&mut store, score("b", 1));
    assert_eq!(other.status, SubmissionStatus::Failed);
    assert_eq!(store.events.len(), 2);
}

#[test]
fn empty_stream_succeeds() {
    let mut run = EvaluationRun::start(s("z"));
    run.on_end();
    assert_eq!(run.status, SubmissionStatus::Success);
    assert_eq!(run.next_serial, 0);
}
