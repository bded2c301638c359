use vstd::prelude::*;

verus! {

/// Ids with no repetition.
pub open spec fn distinct_ids(ids: Seq<u32>) -> bool {
    forall|a: int, b: int| 0 <= a < b < ids.len() ==> #[trigger] ids[a] != #[trigger] ids[b]
}

/// `ord` lists every position of `ids` once, by increasing id.
pub open spec fn is_id_order(ids: Seq<u32>, ord: Seq<usize>) -> bool {
    &&& ord.len() == ids.len()
    &&& forall|j: int| 0 <= j < ord.len() ==> #[trigger] ord[j] < ids.len()
    &&& forall|a: int, b: int|
        0 <= a < b < ord.len() ==> ids[#[trigger] ord[a] as int] < ids[#[trigger] ord[b] as int]
    &&& forall|k: int| 0 <= k < ids.len() ==> #[trigger] listed(ord, k)
}

/// Position `k` occurs in `ord`.
pub open spec fn listed(ord: Seq<usize>, k: int) -> bool {
    exists|j: int| 0 <= j < ord.len() && #[trigger] ord[j] == k
}

/// The positions of `ids` by increasing id (unique when the ids are distinct).
pub open spec fn id_order(ids: Seq<u32>) -> Seq<usize> {
    choose|ord: Seq<usize>| is_id_order(ids, ord)
}

proof fn lemma_orders_agree_up_to(ids: Seq<u32>, o1: Seq<usize>, o2: Seq<usize>, j: int)
    requires
        is_id_order(ids, o1),
        is_id_order(ids, o2),
        0 <= j < o1.len(),
    ensures
        forall|i: int| 0 <= i <= j ==> #[trigger] o1[i] == o2[i],
    decreases j,
{
    if j > 0 {
        lemma_orders_agree_up_to(ids, o1, o2, j - 1);
    }
    let a = o1[j];
    let b = o2[j];
    assert(listed(o2, a as int));
    assert(listed(o1, b as int));
    let x = choose|x: int| 0 <= x < o2.len() && #[trigger] o2[x] == a as int;
    let y = choose|y: int| 0 <= y < o1.len() && #[trigger] o1[y] == b as int;
    if x < j {
        assert(o1[x] == o2[x]);
    }
    if y < j {
        assert(o1[y] == o2[y]);
    }
    if x > j {
        assert(ids[o2[j] as int] < ids[o2[x] as int]);
    }
    if y > j {
        assert(ids[o1[j] as int] < ids[o1[y] as int]);
    }
}

/// There is one id order of a sequence, and `id_order` is it.
pub proof fn lemma_id_order_unique(ids: Seq<u32>, ord: Seq<usize>)
    requires
        is_id_order(ids, ord),
    ensures
        id_order(ids) == ord,
{
    let o = id_order(ids);
    assert(is_id_order(ids, o));
    if ord.len() > 0 {
        lemma_orders_agree_up_to(ids, ord, o, ord.len() - 1);
    }
    assert(o =~= ord);
}

/// Sorts the positions of distinct ids by increasing id.
pub fn sorted_positions(ids: &Vec<u32>) -> (r: Vec<usize>)
    requires
        distinct_ids(ids@),
    ensures
        r@ == id_order(ids@),
        is_id_order(ids@, r@),
{
    let n = ids.len();
    let mut ord: Vec<usize> = Vec::new();
    let mut k: usize = 0;
    while k < n
        invariant
            n == ids@.len(),
            k <= n,
            ord@.len() == k,
            forall|j: int| 0 <= j < k ==> #[trigger] ord@[j] == j,
        decreases n - k,
    {
        ord.push(k);
        k = k + 1;
    }
    assert forall|k: int| 0 <= k < n implies #[trigger] listed(ord@, k) by {
        assert(ord@[k] == k);
    }
    let mut i: usize = 0;
    while i < n
        invariant
            n == ids@.len(),
            i <= n,
            distinct_ids(ids@),
            ord@.len() == n,
            forall|j: int| 0 <= j < n ==> #[trigger] ord@[j] < n,
            forall|a: int, b: int| 0 <= a < b < n ==> #[trigger] ord@[a] != #[trigger] ord@[b],
            forall|k: int| 0 <= k < n ==> #[trigger] listed(ord@, k),
            forall|a: int, b: int|
                0 <= a < b < n && a < i ==> ids@[#[trigger] ord@[a] as int] < ids@[#[trigger] ord@[b] as int],
        decreases n - i,
    {
        // find the smallest id among positions i..n
        let mut m: usize = i;
        let mut j: usize = i + 1;
        while j < n
            invariant
                n == ids@.len(),
                ord@.len() == n,
                i <= m < n,
                i < j <= n,
                forall|t: int| 0 <= t < n ==> #[trigger] ord@[t] < n,
                forall|t: int| i <= t < j ==> ids@[ord@[m as int] as int] <= ids@[#[trigger] ord@[t] as int],
            decreases n - j,
        {
            if ids[ord[j]] < ids[ord[m]] {
                m = j;
            }
            j = j + 1;
        }
        let ghost before = ord@;
        let oi = ord[i];
        let om = ord[m];
        ord.set(i, om);
        ord.set(m, oi);
        proof {
            assert forall|k: int| 0 <= k < n implies #[trigger] listed(ord@, k) by {
                assert(listed(before, k));
                let w = choose|w: int| 0 <= w < n && #[trigger] before[w] == k;
                if w == i {
                    assert(ord@[m as int] == k);
                } else if w == m {
                    assert(ord@[i as int] == k);
                } else {
                    assert(ord@[w] == k);
                }
            }
            assert forall|a: int, b: int| 0 <= a < b < n implies #[trigger] ord@[a] != #[trigger] ord@[b] by {
                let pa = if a == i { m as int } else if a == m { i as int } else { a };
                let pb = if b == i { m as int } else if b == m { i as int } else { b };
                assert(ord@[a] == before[pa]);
                assert(ord@[b] == before[pb]);
                if pa < pb {
                    assert(before[pa] != before[pb]);
                } else {
                    assert(before[pb] != before[pa]);
                }
            }
            assert forall|a: int, b: int|
                0 <= a < b < n && a < i + 1 implies ids@[#[trigger] ord@[a] as int] < ids@[#[trigger] ord@[b] as int] by {
                let pb = if b == i { m as int } else if b == m { i as int } else { b };
                assert(ord@[b] == before[pb]);
                if a < i {
                    assert(ord@[a] == before[a]);
                    assert(a < pb);
                } else {
                    assert(ord@[a] == before[m as int]);
                    assert(i <= pb);
                    assert(ids@[before[m as int] as int] <= ids@[before[pb] as int]);
                    assert(pb != m);
                    if pb < m {
                        assert(before[pb] != before[m as int]);
                    } else {
                        assert(before[m as int] != before[pb]);
                    }
                    assert(distinct_ids(ids@));
                    if (before[pb] as int) < (before[m as int] as int) {
                        assert(ids@[before[pb] as int] != ids@[before[m as int] as int]);
                    } else {
                        assert(ids@[before[m as int] as int] != ids@[before[pb] as int]);
                    }
                }
            }
        }
        i = i + 1;
    }
    proof {
        lemma_id_order_unique(ids@, ord@);
    }
    ord
}

/// Tells whether the ids are distinct.
pub fn all_distinct(ids: &Vec<u32>) -> (r: bool)
    ensures
        r == distinct_ids(ids@),
{
    let n = ids.len();
    let mut a: usize = 0;
    while a < n
        invariant
            n == ids@.len(),
            a <= n,
            forall|x: int, y: int| 0 <= x < y < n && x < a ==> #[trigger] ids@[x] != #[trigger] ids@[y],
        decreases n - a,
    {
        let mut b: usize = a + 1;
        while b < n
            invariant
                n == ids@.len(),
                a < n,
                a < b <= n,
                forall|x: int, y: int| 0 <= x < y < n && x < a ==> #[trigger] ids@[x] != #[trigger] ids@[y],
                forall|y: int| a < y < b ==> ids@[a as int] != #[trigger] ids@[y],
            decreases n - b,
        {
            if ids[a] == ids[b] {
                return false;
            }
            b = b + 1;
        }
        a = a + 1;
    }
    true
}

} // verus!
