use vstd::prelude::*;

use crate::award::{Score, SCORE_UNIT};
use crate::evaluation::{AwardData, AwardKind, AwardView};
use crate::store::{AwardStore, SubmissionData, SubmissionView};

verus! {

/// The best value of one award, and the submission that represents it.
pub struct MaxAwardData {
    pub award_name: String,
    pub value: Score,
    /// Id of the most recent submission that made the best value
    pub submission_id: String,
}

/// The mathematical content of a [`MaxAwardData`].
pub struct MaxAwardView {
    pub award_name: Seq<char>,
    pub value: Score,
    pub submission_id: Seq<char>,
}

impl View for MaxAwardData {
    type V = MaxAwardView;

    open spec fn view(&self) -> MaxAwardView {
        MaxAwardView {
            award_name: self.award_name@,
            value: self.value,
            submission_id: self.submission_id@,
        }
    }
}

/// Index of the last submission with the given id, or -1 if there is none.
pub open spec fn submission_index(subs: Seq<SubmissionView>, id: Seq<char>) -> int
    decreases subs.len(),
{
    if subs.len() == 0 {
        -1
    } else if subs.last().id == id {
        subs.len() - 1
    } else {
        submission_index(subs.drop_last(), id)
    }
}

/// Index of the last entry for the given award name, or -1 if there is none.
pub open spec fn best_index(best: Seq<MaxAwardView>, name: Seq<char>) -> int
    decreases best.len(),
{
    if best.len() == 0 {
        -1
    } else if best.last().award_name == name {
        best.len() - 1
    } else {
        best_index(best.drop_last(), name)
    }
}

/// The record is of the given kind and belongs to a submission of the user for the problem.
pub open spec fn counts(
    subs: Seq<SubmissionView>,
    a: AwardView,
    kind: AwardKind,
    user_id: Seq<char>,
    problem_name: Seq<char>,
) -> bool {
    let k = submission_index(subs, a.submission_id);
    &&& a.kind == kind
    &&& k >= 0
    &&& subs[k].user_id == user_id
    &&& subs[k].problem_name == problem_name
}

/// Ranks a value achieved by the submission at index `k1`, created at `c1`,
/// over one achieved by the submission at index `k2`, created at `c2`: a
/// higher value wins; on equal values the more recent submission wins; on
/// equal creation times the submission registered later wins.
pub open spec fn outranks(v1: Score, c1: i64, k1: int, v2: Score, c2: i64, k2: int) -> bool {
    ||| v1.0 > v2.0
    ||| v1.0 == v2.0 && c1 > c2
    ||| v1.0 == v2.0 && c1 == c2 && k1 >= k2
}

/// The best entries after considering one more record.
pub open spec fn best_step(
    subs: Seq<SubmissionView>,
    prev: Seq<MaxAwardView>,
    a: AwardView,
) -> Seq<MaxAwardView> {
    let k = submission_index(subs, a.submission_id);
    let j = best_index(prev, a.award_name);
    let entry = MaxAwardView {
        award_name: a.award_name,
        value: a.value,
        submission_id: a.submission_id,
    };
    if j < 0 {
        prev.push(entry)
    } else {
        let kb = submission_index(subs, prev[j].submission_id);
        if outranks(a.value, subs[k].created_at, k, prev[j].value, subs[kb].created_at, kb) {
            prev.update(j, entry)
        } else {
            prev
        }
    }
}

/// For each award name among the counted records, in order of first
/// appearance: the best value, with the submission that represents it.
pub open spec fn best_of(
    subs: Seq<SubmissionView>,
    awards: Seq<AwardView>,
    kind: AwardKind,
    user_id: Seq<char>,
    problem_name: Seq<char>,
) -> Seq<MaxAwardView>
    decreases awards.len(),
{
    if awards.len() == 0 {
        Seq::empty()
    } else {
        let prev = best_of(subs, awards.drop_last(), kind, user_id, problem_name);
        if counts(subs, awards.last(), kind, user_id, problem_name) {
            best_step(subs, prev, awards.last())
        } else {
            prev
        }
    }
}

proof fn lemma_submission_index_range(subs: Seq<SubmissionView>, id: Seq<char>)
    ensures
        -1 <= submission_index(subs, id) < subs.len(),
        submission_index(subs, id) >= 0 ==> subs[submission_index(subs, id)].id == id,
    decreases subs.len(),
{
    if subs.len() > 0 {
        lemma_submission_index_range(subs.drop_last(), id);
    }
}

proof fn lemma_best_index_range(best: Seq<MaxAwardView>, name: Seq<char>)
    ensures
        -1 <= best_index(best, name) < best.len(),
        best_index(best, name) >= 0 ==> best[best_index(best, name)].award_name == name,
        best_index(best, name) < 0 ==> forall|j: int|
            0 <= j < best.len() ==> #[trigger] best[j].award_name != name,
    decreases best.len(),
{
    if best.len() > 0 {
        lemma_best_index_range(best.drop_last(), name);
        assert forall|j: int| 0 <= j < best.len() - 1 implies #[trigger] best[j] == best.drop_last()[j] by {}
    }
}

fn find_submission(subs: &Vec<SubmissionData>, id: &String) -> (r: Option<usize>)
    ensures
        match r {
            Some(k) => k < subs@.len() && k as int == submission_index(
                subs@.map_values(|s: SubmissionData| s@),
                id@,
            ),
            None => submission_index(subs@.map_values(|s: SubmissionData| s@), id@) == -1,
        },
{
    let ghost views = subs@.map_values(|s: SubmissionData| s@);
    let mut found: Option<usize> = None;
    let mut i: usize = 0;
    while i < subs.len()
        invariant
            i <= subs@.len(),
            views == subs@.map_values(|s: SubmissionData| s@),
            match found {
                Some(k) => k < i && k as int == submission_index(views.take(i as int), id@),
                None => submission_index(views.take(i as int), id@) == -1,
            },
        decreases subs@.len() - i,
    {
        assert(views.take(i + 1).drop_last() =~= views.take(i as int));
        if subs[i].id == *id {
            found = Some(i);
        }
        i = i + 1;
    }
    assert(views.take(i as int) =~= views);
    found
}

fn find_best(best: &Vec<MaxAwardData>, name: &String) -> (r: Option<usize>)
    ensures
        match r {
            Some(j) => j < best@.len() && j as int == best_index(
                best@.map_values(|b: MaxAwardData| b@),
                name@,
            ),
            None => best_index(best@.map_values(|b: MaxAwardData| b@), name@) == -1,
        },
{
    let ghost views = best@.map_values(|b: MaxAwardData| b@);
    let mut found: Option<usize> = None;
    let mut i: usize = 0;
    while i < best.len()
        invariant
            i <= best@.len(),
            views == best@.map_values(|b: MaxAwardData| b@),
            match found {
                Some(j) => j < i && j as int == best_index(views.take(i as int), name@),
                None => best_index(views.take(i as int), name@) == -1,
            },
        decreases best@.len() - i,
    {
        assert(views.take(i + 1).drop_last() =~= views.take(i as int));
        if best[i].award_name == *name {
            found = Some(i);
        }
        i = i + 1;
    }
    assert(views.take(i as int) =~= views);
    found
}

/// Gets the best award of each name for (user, problem): among the records
/// of the given kind of the user's submissions for the problem, the highest
/// value of each award name, represented by the most recent submission that
/// achieved it (on equal creation times, the one registered last). Names come
/// in order of first appearance; no submissions give no entries.
pub fn query_awards_of_user_and_problem(
    store: &AwardStore,
    kind: AwardKind,
    user_id: &String,
    problem_name: &String,
) -> (r: Vec<MaxAwardData>)
    ensures
        r@.map_values(|b: MaxAwardData| b@) == best_of(
            store.submission_views(),
            store.award_views(),
            kind,
            user_id@,
            problem_name@,
        ),
{
    let ghost subs = store.submission_views();
    let ghost awards = store.award_views();
    let mut best: Vec<MaxAwardData> = Vec::new();
    // index in the store of the submission that represents each entry
    let mut reps: Vec<usize> = Vec::new();
    let mut i: usize = 0;
    while i < store.awards.len()
        invariant
            i <= store.awards@.len(),
            subs == store.submission_views(),
            awards == store.award_views(),
            best@.map_values(|b: MaxAwardData| b@) == best_of(
                subs,
                awards.take(i as int),
                kind,
                user_id@,
                problem_name@,
            ),
            reps@.len() == best@.len(),
            forall|j: int|
                0 <= j < reps@.len() ==> reps@[j] < subs.len() && #[trigger] reps@[j] as int
                    == submission_index(subs, best@[j].submission_id@),
        decreases store.awards@.len() - i,
    {
        let ghost prev = best@.map_values(|b: MaxAwardData| b@);
        assert(awards.take(i + 1).drop_last() =~= awards.take(i as int));
        assert(awards.take(i + 1).last() == store.awards@[i as int]@);
        let a = &store.awards[i];
        if a.kind == kind {
            let found = find_submission(&store.submissions, &a.submission_id);
            if let Some(k) = found {
                let s = &store.submissions[k];
                if s.user_id == *user_id && s.problem_name == *problem_name {
                    let entry = MaxAwardData {
                        award_name: a.award_name.clone(),
                        value: a.value,
                        submission_id: a.submission_id.clone(),
                    };
                    match find_best(&best, &a.award_name) {
                        None => {
                            best.push(entry);
                            reps.push(k);
                            assert(best@.map_values(|b: MaxAwardData| b@) =~= prev.push(entry@));
                        },
                        Some(j) => {
                            let kb = reps[j];
                            let sb = &store.submissions[kb];
                            let wins = a.value.0 > best[j].value.0 || (a.value.0 == best[j].value.0
                                && (s.created_at > sb.created_at || (s.created_at == sb.created_at
                                && k >= kb)));
                            if wins {
                                best.set(j, entry);
                                reps.set(j, k);
                                assert(best@.map_values(|b: MaxAwardData| b@) =~= prev.update(
                                    j as int,
                                    entry@,
                                ));
                            }
                        },
                    }
                }
            }
        }
        i = i + 1;
    }
    assert(awards.take(i as int) =~= awards);
    best
}

/// Gets the awards of the given kind of one submission, in store order.
pub fn query_awards<'a>(store: &'a AwardStore, kind: AwardKind, submission_id: &String) -> (r: Vec<
    &'a AwardData,
>)
    ensures
        r@.map_values(|a: &AwardData| a@) == store.award_views().filter(
            |a: AwardView| a.kind == kind && a.submission_id == submission_id@,
        ),
{
    let ghost awards = store.award_views();
    let mut r: Vec<&AwardData> = Vec::new();
    let mut i: usize = 0;
    while i < store.awards.len()
        invariant
            i <= store.awards@.len(),
            awards == store.award_views(),
            r@.map_values(|a: &AwardData| a@) == awards.take(i as int).filter(
                |a: AwardView| a.kind == kind && a.submission_id == submission_id@,
            ),
        decreases store.awards@.len() - i,
    {
        let ghost prev = r@.map_values(|a: &AwardData| a@);
        assert(awards.take(i + 1).drop_last() =~= awards.take(i as int));
        reveal(Seq::filter);
        let a = &store.awards[i];
        if a.kind == kind && a.submission_id == *submission_id {
            r.push(a);
            assert(r@.map_values(|a: &AwardData| a@) =~= prev.push(a@));
        }
        i = i + 1;
    }
    assert(awards.take(i as int) =~= awards);
    r
}

/// Creation time of the submission with the given id.
pub open spec fn created_at_of(subs: Seq<SubmissionView>, id: Seq<char>) -> i64 {
    subs[submission_index(subs, id)].created_at
}

/// The entry carries the name, value and submission of a counted record.
pub open spec fn from_counted_record(
    subs: Seq<SubmissionView>,
    awards: Seq<AwardView>,
    kind: AwardKind,
    user_id: Seq<char>,
    problem_name: Seq<char>,
    e: MaxAwardView,
) -> bool {
    exists|i: int|
        0 <= i < awards.len() && counts(subs, #[trigger] awards[i], kind, user_id, problem_name)
            && awards[i].award_name == e.award_name && awards[i].value == e.value
            && awards[i].submission_id == e.submission_id
}

/// What the aggregation guarantees of each entry it returns.
pub open spec fn best_props(
    subs: Seq<SubmissionView>,
    awards: Seq<AwardView>,
    kind: AwardKind,
    user_id: Seq<char>,
    problem_name: Seq<char>,
    best: Seq<MaxAwardView>,
) -> bool {
    // one entry per award name
    &&& forall|j1: int, j2: int|
        0 <= j1 < j2 < best.len() ==> #[trigger] best[j1].award_name != #[trigger] best[j2].award_name
    // every entry is a counted record
    &&& forall|j: int|
        0 <= j < best.len() ==> #[trigger] from_counted_record(
            subs,
            awards,
            kind,
            user_id,
            problem_name,
            best[j],
        )
    // every counted record has an entry for its name
    &&& forall|i: int|
        0 <= i < awards.len() && counts(subs, #[trigger] awards[i], kind, user_id, problem_name)
            ==> best_index(best, awards[i].award_name) >= 0
    // no counted record beats its entry, and none with the same value is more recent
    &&& forall|i: int, j: int|
        0 <= i < awards.len() && 0 <= j < best.len() && counts(
            subs,
            #[trigger] awards[i],
            kind,
            user_id,
            problem_name,
        ) && awards[i].award_name == #[trigger] best[j].award_name ==> {
            &&& awards[i].value.0 <= best[j].value.0
            &&& awards[i].value == best[j].value ==> created_at_of(subs, awards[i].submission_id)
                <= created_at_of(subs, best[j].submission_id)
        }
}

/// The aggregation picks, for each award name, the highest value among the
/// user's records for the problem, and as representative a submission that
/// achieved it no older than any other that did: of two submissions with the
/// same best value, the one created later is returned.
pub proof fn lemma_best_is_latest_maximum(
    subs: Seq<SubmissionView>,
    awards: Seq<AwardView>,
    kind: AwardKind,
    user_id: Seq<char>,
    problem_name: Seq<char>,
)
    ensures
        best_props(subs, awards, kind, user_id, problem_name, best_of(subs, awards, kind, user_id, problem_name)),
    decreases awards.len(),
{
    if awards.len() > 0 {
        let pa = awards.drop_last();
        let prev = best_of(subs, pa, kind, user_id, problem_name);
        let best = best_of(subs, awards, kind, user_id, problem_name);
        let a = awards.last();
        let n = awards.len() - 1;
        lemma_best_is_latest_maximum(subs, pa, kind, user_id, problem_name);
        assert forall|i: int| 0 <= i < n implies #[trigger] awards[i] == pa[i] by {}
        if !counts(subs, a, kind, user_id, problem_name) {
            assert(best == prev);
            assert forall|j: int| 0 <= j < best.len() implies #[trigger] from_counted_record(subs, awards, kind, user_id, problem_name, best[j]) by {
                assert(from_counted_record(subs, pa, kind, user_id, problem_name, prev[j]));
                let i = choose|i: int|
                    0 <= i < pa.len() && counts(subs, #[trigger] pa[i], kind, user_id, problem_name)
                        && pa[i].award_name == prev[j].award_name && pa[i].value == prev[j].value
                        && pa[i].submission_id == prev[j].submission_id;
                assert(awards[i] == pa[i]);
            }
            assert forall|i: int|
                0 <= i < awards.len() && counts(subs, #[trigger] awards[i], kind, user_id, problem_name)
                    implies best_index(best, awards[i].award_name) >= 0 by {
                assert(awards[i] == pa[i]);
            }
            assert forall|i: int, j: int|
                0 <= i < awards.len() && 0 <= j < best.len() && counts(
                    subs,
                    #[trigger] awards[i],
                    kind,
                    user_id,
                    problem_name,
                ) && awards[i].award_name == #[trigger] best[j].award_name implies {
                    &&& awards[i].value.0 <= best[j].value.0
                    &&& awards[i].value == best[j].value ==> created_at_of(subs, awards[i].submission_id)
                        <= created_at_of(subs, best[j].submission_id)
                } by {
                assert(awards[i] == pa[i]);
            }
        } else {
            let k = submission_index(subs, a.submission_id);
            let jj = best_index(prev, a.award_name);
            let entry = MaxAwardView {
                award_name: a.award_name,
                value: a.value,
                submission_id: a.submission_id,
            };
            lemma_best_index_range(prev, a.award_name);
            assert(best == best_step(subs, prev, a));
            if jj < 0 {
                assert(best == prev.push(entry));
                assert forall|j: int| 0 <= j < best.len() implies #[trigger] from_counted_record(subs, awards, kind, user_id, problem_name, best[j]) by {
                    if j < prev.len() {
                        assert(from_counted_record(subs, pa, kind, user_id, problem_name, prev[j]));
                let i = choose|i: int|
                    0 <= i < pa.len() && counts(subs, #[trigger] pa[i], kind, user_id, problem_name)
                        && pa[i].award_name == prev[j].award_name && pa[i].value == prev[j].value
                        && pa[i].submission_id == prev[j].submission_id;
                        assert(awards[i] == pa[i]);
                    } else {
                        assert(awards[n] == a);
                    }
                }
                assert forall|i: int|
                    0 <= i < awards.len() && counts(subs, #[trigger] awards[i], kind, user_id, problem_name)
                        implies best_index(best, awards[i].award_name) >= 0 by {
                    lemma_best_index_range(best, awards[i].award_name);
                    if i < n {
                        assert(awards[i] == pa[i]);
                        lemma_best_index_range(prev, awards[i].award_name);
                        let j = best_index(prev, awards[i].award_name);
                        assert(best[j] == prev[j]);
                    } else {
                        assert(best[best.len() - 1].award_name == awards[i].award_name);
                    }
                }
                assert forall|i: int, j: int|
                    0 <= i < awards.len() && 0 <= j < best.len() && counts(
                        subs,
                        #[trigger] awards[i],
                        kind,
                        user_id,
                        problem_name,
                    ) && awards[i].award_name == #[trigger] best[j].award_name implies {
                        &&& awards[i].value.0 <= best[j].value.0
                        &&& awards[i].value == best[j].value ==> created_at_of(subs, awards[i].submission_id)
                            <= created_at_of(subs, best[j].submission_id)
                    } by {
                    if i < n {
                        assert(awards[i] == pa[i]);
                        if j == prev.len() {
                            lemma_best_index_range(prev, pa[i].award_name);
                            let j2 = best_index(prev, pa[i].award_name);
                            assert(prev[j2].award_name == a.award_name);
                        }
                    } else if j < prev.len() {
                        assert(prev[j].award_name != a.award_name);
                    }
                }
            } else {
                let kb = submission_index(subs, prev[jj].submission_id);
                let wins = outranks(a.value, subs[k].created_at, k, prev[jj].value, subs[kb].created_at, kb);
                if wins {
                    assert(best == prev.update(jj, entry));
                } else {
                    assert(best == prev);
                }
                assert forall|j: int| 0 <= j < best.len() implies #[trigger] from_counted_record(subs, awards, kind, user_id, problem_name, best[j]) by {
                    if wins && j == jj {
                        assert(awards[n] == a);
                    } else {
                        assert(from_counted_record(subs, pa, kind, user_id, problem_name, prev[j]));
                let i = choose|i: int|
                    0 <= i < pa.len() && counts(subs, #[trigger] pa[i], kind, user_id, problem_name)
                        && pa[i].award_name == prev[j].award_name && pa[i].value == prev[j].value
                        && pa[i].submission_id == prev[j].submission_id;
                        assert(awards[i] == pa[i]);
                    }
                }
                assert forall|i: int|
                    0 <= i < awards.len() && counts(subs, #[trigger] awards[i], kind, user_id, problem_name)
                        implies best_index(best, awards[i].award_name) >= 0 by {
                    lemma_best_index_range(best, awards[i].award_name);
                    if i < n {
                        assert(awards[i] == pa[i]);
                        lemma_best_index_range(prev, awards[i].award_name);
                        let j = best_index(prev, awards[i].award_name);
                        assert(best[j].award_name == prev[j].award_name);
                    } else {
                        assert(best[jj].award_name == a.award_name);
                    }
                }
                assert forall|i: int, j: int|
                    0 <= i < awards.len() && 0 <= j < best.len() && counts(
                        subs,
                        #[trigger] awards[i],
                        kind,
                        user_id,
                        problem_name,
                    ) && awards[i].award_name == #[trigger] best[j].award_name implies {
                        &&& awards[i].value.0 <= best[j].value.0
                        &&& awards[i].value == best[j].value ==> created_at_of(subs, awards[i].submission_id)
                            <= created_at_of(subs, best[j].submission_id)
                    } by {
                    if i < n {
                        assert(awards[i] == pa[i]);
                        assert(best[j].award_name == prev[j].award_name);
                        assert(pa[i].award_name == prev[j].award_name);
                    } else {
                        if j != jj {
                            assert(best[j] == prev[j]);
                            assert(prev[j].award_name == prev[jj].award_name);
                        }
                    }
                }
            }
        }
    }
}

/// The aggregation is a function of the store's content: two stores with the
/// same submissions and award records give the same result, so repeating the
/// query on an unchanged store gives the same entries.
pub proof fn lemma_aggregation_repeatable(
    s1: AwardStore,
    s2: AwardStore,
    kind: AwardKind,
    user_id: Seq<char>,
    problem_name: Seq<char>,
)
    requires
        s1.submission_views() == s2.submission_views(),
        s1.award_views() == s2.award_views(),
    ensures
        best_of(s1.submission_views(), s1.award_views(), kind, user_id, problem_name) == best_of(
            s2.submission_views(),
            s2.award_views(),
            kind,
            user_id,
            problem_name,
        ),
{
}

/// Best score of an award.
pub struct MaxScoreAward {
    pub data: MaxAwardData,
}

/// Best badge of an award.
pub struct BestBadgeAward {
    pub data: MaxAwardData,
}

impl MaxScoreAward {
    /// Id of the most recent submission that made the max score
    pub fn submission_id(&self) -> (r: &String)
        ensures
            r@ == self.data.submission_id@,
    {
        &self.data.submission_id
    }

    /// The score
    pub fn score(&self) -> (r: Score)
        ensures
            r == self.data.value,
    {
        self.data.value
    }

    /// Name of the award
    pub fn award_name(&self) -> (r: &String)
        ensures
            r@ == self.data.award_name@,
    {
        &self.data.award_name
    }
}

impl BestBadgeAward {
    /// Id of the most recent submission that won the badge (or, if none did,
    /// that failed it)
    pub fn submission_id(&self) -> (r: &String)
        ensures
            r@ == self.data.submission_id@,
    {
        &self.data.submission_id
    }

    /// The badge: won when the best value is one point.
    pub fn badge(&self) -> (r: bool)
        ensures
            r == (self.data.value.0 == SCORE_UNIT),
    {
        self.data.value.0 == SCORE_UNIT
    }

    /// Name of the award
    pub fn award_name(&self) -> (r: &String)
        ensures
            r@ == self.data.award_name@,
    {
        &self.data.award_name
    }
}

} // verus!
