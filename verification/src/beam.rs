//! Selection of the beam: candidates ordered by score, one per idea, the best
//! few kept.

use crate::scalar::Scalar;
use vstd::prelude::*;

verus! {

/// Candidate `a` is preferred to candidate `b`: a score earlier in the total
/// order, or the same score and an earlier place in the pool.
pub open spec fn before(scores: Seq<Scalar>, a: int, b: int) -> bool {
    scores[a].rank() < scores[b].rank() || (scores[a].rank() == scores[b].rank() && a < b)
}

/// Places of a pool in falling preference.
pub open spec fn in_preference(scores: Seq<Scalar>, r: Seq<usize>) -> bool {
    &&& forall|p: int| 0 <= p < r.len() ==> 0 <= #[trigger] r[p] < scores.len()
    &&& forall|p: int, q: int|
        0 <= p < q < r.len() ==> before(scores, #[trigger] r[p] as int, #[trigger] r[q] as int)
}

/// Every place of a pool, in falling preference: the stable order by score.
pub open spec fn is_stable_order(scores: Seq<Scalar>, r: Seq<usize>) -> bool {
    &&& r.len() == scores.len()
    &&& in_preference(scores, r)
    &&& forall|k: usize| 0 <= k < scores.len() ==> #[trigger] r.contains(k)
}

/// The stable order of a pool by score.
pub fn stable_order(scores: &Vec<Scalar>) -> (r: Vec<usize>)
    ensures
        is_stable_order(scores@, r@),
{
    let mut r: Vec<usize> = Vec::new();
    let mut i: usize = 0;
    while i < scores.len()
        invariant
            i <= scores.len(),
            r.len() == i,
            in_preference(scores@, r@),
            forall|p: int| 0 <= p < r@.len() ==> #[trigger] r@[p] < i,
            forall|k: usize| 0 <= k < i ==> #[trigger] r@.contains(k),
        decreases scores.len() - i,
    {
        let mut at: usize = 0;
        while at < r.len() && !scores[i].ranks_before(scores[r[at]])
            invariant
                at <= r.len(),
                r.len() == i,
                i < scores.len(),
                in_preference(scores@, r@),
                forall|p: int| 0 <= p < r@.len() ==> #[trigger] r@[p] < i,
                forall|p: int| 0 <= p < at ==> before(scores@, #[trigger] r@[p] as int, i as int),
            decreases r.len() - at,
        {
            at = at + 1;
        }
        let ghost prev = r@;
        r.insert(at, i);
        proof {
            assert(r@ == prev.insert(at as int, i));
            assert forall|p: int| 0 <= p < r@.len() implies 0 <= #[trigger] r@[p] < i + 1 by {
                if p < at {
                    assert(r@[p] == prev[p]);
                } else if p > at {
                    assert(r@[p] == prev[p - 1]);
                }
            }
            assert forall|p: int, q: int| 0 <= p < q < r@.len() implies before(
                scores@,
                #[trigger] r@[p] as int,
                #[trigger] r@[q] as int,
            ) by {
                if p < at && q < at {
                    assert(r@[p] == prev[p] && r@[q] == prev[q]);
                } else if p < at && q == at {
                    assert(r@[p] == prev[p]);
                } else if p < at {
                    assert(r@[p] == prev[p] && r@[q] == prev[q - 1]);
                } else if p == at {
                    assert(r@[q] == prev[q - 1]);
                    if q - 1 > at {
                        assert(before(scores@, prev[at as int] as int, prev[q - 1] as int));
                    }
                } else {
                    assert(r@[p] == prev[p - 1] && r@[q] == prev[q - 1]);
                }
            }
            assert forall|k: usize| 0 <= k < i + 1 implies #[trigger] r@.contains(k) by {
                if k == i {
                    assert(r@[at as int] == i);
                } else {
                    assert(prev.contains(k));
                    let p = choose|p: int| 0 <= p < prev.len() && prev[p] == k;
                    if p < at {
                        assert(r@[p] == k);
                    } else {
                        assert(r@[p + 1] == k);
                    }
                }
            }
        }
        i = i + 1;
    }
    r
}

proof fn insertion_place(scores: Seq<Scalar>, r: Seq<usize>, x: int, from: int) -> (at: int)
    requires
        in_preference(scores, r),
        0 <= from <= r.len(),
        0 <= x < scores.len(),
        forall|p: int| 0 <= p < r.len() ==> #[trigger] r[p] < x,
        forall|p: int| 0 <= p < from ==> before(scores, #[trigger] r[p] as int, x),
    ensures
        from <= at <= r.len(),
        forall|p: int| 0 <= p < at ==> before(scores, #[trigger] r[p] as int, x),
        forall|p: int| at <= p < r.len() ==> before(scores, x, #[trigger] r[p] as int),
    decreases r.len() - from,
{
    if from < r.len() && scores[x].rank() >= scores[r[from] as int].rank() {
        insertion_place(scores, r, x, from + 1)
    } else {
        assert forall|p: int| from <= p < r.len() implies before(
            scores,
            x,
            #[trigger] r[p] as int,
        ) by {
            if p > from {
                assert(before(scores, r[from] as int, r[p] as int));
            }
        }
        from
    }
}

proof fn order_of_first(scores: Seq<Scalar>, n: int) -> (r: Seq<usize>)
    requires
        0 <= n <= scores.len(),
        scores.len() <= usize::MAX,
    ensures
        r.len() == n,
        in_preference(scores, r),
        forall|p: int| 0 <= p < r.len() ==> #[trigger] r[p] < n,
        forall|k: usize| 0 <= k < n ==> #[trigger] r.contains(k),
    decreases n,
{
    if n == 0 {
        Seq::empty()
    } else {
        let x = n - 1;
        let prev = order_of_first(scores, x);
        let at = insertion_place(scores, prev, x, 0);
        let r = prev.insert(at, x as usize);
        assert forall|p: int| 0 <= p < r.len() implies 0 <= #[trigger] r[p] < n by {
            if p < at {
                assert(r[p] == prev[p]);
            } else if p > at {
                assert(r[p] == prev[p - 1]);
            }
        }
        assert forall|p: int, q: int| 0 <= p < q < r.len() implies before(
            scores,
            #[trigger] r[p] as int,
            #[trigger] r[q] as int,
        ) by {
            if p < at {
                assert(r[p] == prev[p]);
            } else if p > at {
                assert(r[p] == prev[p - 1]);
            }
            if q < at {
                assert(r[q] == prev[q]);
            } else if q > at {
                assert(r[q] == prev[q - 1]);
            }
        }
        assert forall|k: usize| 0 <= k < n implies #[trigger] r.contains(k) by {
            if k == x {
                assert(r[at] == k);
            } else {
                assert(prev.contains(k));
                let p = choose|p: int| 0 <= p < prev.len() && prev[p] == k;
                if p < at {
                    assert(r[p] == k);
                } else {
                    assert(r[p + 1] == k);
                }
            }
        }
        r
    }
}

/// A pool has a stable order.
pub proof fn stable_order_exists(scores: Seq<Scalar>)
    requires
        scores.len() <= usize::MAX,
    ensures
        exists|r: Seq<usize>| is_stable_order(scores, r),
{
    let r = order_of_first(scores, scores.len() as int);
    assert(is_stable_order(scores, r));
}

/// A pool has one stable order.
pub proof fn stable_order_is_unique(scores: Seq<Scalar>, r: Seq<usize>, s: Seq<usize>)
    requires
        is_stable_order(scores, r),
        is_stable_order(scores, s),
    ensures
        r == s,
{
    stable_orders_agree(scores, r, s, r.len() as int);
    assert(r =~= s);
}

proof fn stable_orders_agree(scores: Seq<Scalar>, r: Seq<usize>, s: Seq<usize>, n: int)
    requires
        is_stable_order(scores, r),
        is_stable_order(scores, s),
        0 <= n <= r.len(),
    ensures
        forall|i: int| 0 <= i < n ==> r[i] == s[i],
    decreases n,
{
    if n > 0 {
        stable_orders_agree(scores, r, s, n - 1);
        let i = n - 1;
        assert(s.contains(r[i]));
        let q = choose|q: int| 0 <= q < s.len() && s[q] == r[i];
        assert(r.contains(s[i]));
        let p = choose|p: int| 0 <= p < r.len() && r[p] == s[i];
        if q < i {
            assert(r[q] == r[i]);
            assert(before(scores, r[q] as int, r[i] as int));
        }
        if p < i {
            assert(s[p] == s[i]);
            assert(before(scores, s[p] as int, s[i] as int));
        }
        if q > i && p > i {
            assert(before(scores, s[i] as int, s[q] as int));
            assert(before(scores, r[i] as int, r[p] as int));
        }
    }
}

/// The preferred candidate among those with its key: the one that stands for
/// its idea.
pub open spec fn champion(scores: Seq<Scalar>, keys: Seq<u64>, k: int) -> bool {
    &&& 0 <= k < scores.len()
    &&& forall|j: int|
        0 <= j < scores.len() && j != k && #[trigger] keys[j] == keys[k] ==> before(scores, k, j)
}

/// The first `width` champions of a pool, in falling preference.
pub open spec fn is_beam(
    scores: Seq<Scalar>,
    keys: Seq<u64>,
    width: nat,
    r: Seq<usize>,
) -> bool {
    &&& r.len() <= width
    &&& in_preference(scores, r)
    &&& forall|p: int| 0 <= p < r.len() ==> champion(scores, keys, #[trigger] r[p] as int)
    &&& forall|k: usize|
        champion(scores, keys, k as int) && !(#[trigger] r.contains(k)) ==> r.len() == width
            && forall|p: int|
            0 <= p < r.len() ==> before(scores, #[trigger] r[p] as int, k as int)
}

/// The first `width` champions of a pool: sort by score, keep the first of
/// each key, truncate.
pub fn select_beam(scores: &Vec<Scalar>, keys: &Vec<u64>, width: usize) -> (r: Vec<usize>)
    requires
        scores.len() == keys.len(),
    ensures
        is_beam(scores@, keys@, width as nat, r@),
{
    let order: Vec<usize> = stable_order(scores);
    let mut r: Vec<usize> = Vec::new();
    // Where each kept candidate stands in the order, and which kept candidate
    // carries the key of each place passed.
    let ghost mut place: Seq<int> = Seq::empty();
    let ghost mut holder: Seq<int> = Seq::empty();
    let mut seen: std::collections::HashSet<u64> = std::collections::HashSet::<u64>::new();
    let mut p: usize = 0;
    while p < order.len() && r.len() < width
        invariant
            p <= order.len(),
            scores.len() == keys.len(),
            is_stable_order(scores@, order@),
            r.len() <= width,
            kept_so_far(scores@, keys@, order@, p as int, r@, place, holder),
            forall|x: int|
                0 <= x < r@.len() ==> seen@.contains(keys@[(#[trigger] r@[x]) as int]),
            forall|key: u64| #[trigger]
                seen@.contains(key) ==> exists|x: int|
                    0 <= x < r@.len() && keys@[(#[trigger] r@[x]) as int] == key,
        decreases order.len() - p,
    {
        broadcast use vstd::std_specs::hash::group_hash_axioms;

        let k: usize = order[p];
        let key: u64 = keys[k];
        let ghost known = seen@;
        let ghost kept = r@;
        let fresh: bool = seen.insert(key);
        if fresh {
            proof {
                new_key_is_champion(scores@, keys@, order@, p as int, r@, place, holder);
            }
            r.push(k);
            proof {
                assert forall|other: u64| #[trigger] seen@.contains(other) implies exists|x: int|
                    0 <= x < r@.len() && keys@[(#[trigger] r@[x]) as int] == other by {
                    if other == key {
                        assert(r@[kept.len() as int] == k);
                    } else {
                        assert(known.contains(other));
                        let x = choose|x: int|
                            0 <= x < kept.len() && keys@[(#[trigger] kept[x]) as int] == other;
                        assert(r@[x] == kept[x]);
                    }
                }
                place = place.push(p as int);
                holder = holder.push(kept.len() as int);
            }
        } else {
            proof {
                assert(known.contains(key));
                let o = choose|x: int|
                    0 <= x < r@.len() && keys@[(#[trigger] r@[x]) as int] == key;
                old_key_is_no_champion(scores@, keys@, order@, p as int, r@, place, holder, o);
                holder = holder.push(o);
                assert(seen@ =~= known);
            }
        }
        p = p + 1;
    }
    proof {
        assert forall|x: int, y: int| 0 <= x < y < r@.len() implies before(
            scores@,
            #[trigger] r@[x] as int,
            #[trigger] r@[y] as int,
        ) by {
            assert(place[x] < place[y]);
            assert(before(scores@, order@[place[x]] as int, order@[place[y]] as int));
        }
        assert forall|k: usize|
            champion(scores@, keys@, k as int) && !(#[trigger] r@.contains(k)) implies r@.len()
            == width && forall|x: int|
            0 <= x < r@.len() ==> before(scores@, #[trigger] r@[x] as int, k as int) by {
            assert(order@.contains(k));
            let q = choose|q: int| 0 <= q < order@.len() && order@[q] == k;
            if q < p {
                assert(r@[holder[q]] == k);
            }
            assert forall|x: int| 0 <= x < r@.len() implies before(
                scores@,
                #[trigger] r@[x] as int,
                k as int,
            ) by {
                assert(before(scores@, order@[place[x]] as int, order@[q] as int));
            }
        }
    }
    r
}

/// After `p` places of the order: `r` keeps the champions among them.
spec fn kept_so_far(
    scores: Seq<Scalar>,
    keys: Seq<u64>,
    order: Seq<usize>,
    p: int,
    r: Seq<usize>,
    place: Seq<int>,
    holder: Seq<int>,
) -> bool {
    &&& place.len() == r.len()
    &&& holder.len() == p
    &&& forall|o: int|
        0 <= o < r.len() ==> 0 <= #[trigger] place[o] < p && order[place[o]] == r[o]
    &&& forall|o: int| 0 <= o < r.len() ==> #[trigger] r[o] < scores.len()
    &&& forall|o: int| 0 <= o < r.len() ==> champion(scores, keys, #[trigger] r[o] as int)
    &&& forall|x: int, y: int| 0 <= x < y < r.len() ==> #[trigger] place[x] < #[trigger] place[y]
    &&& forall|q: int|
        0 <= q < p ==> 0 <= #[trigger] holder[q] < r.len() && keys[r[holder[q]] as int]
            == keys[order[q] as int]
    &&& forall|q: int|
        0 <= q < p && champion(scores, keys, order[q] as int) ==> r[#[trigger] holder[q]]
            == order[q]
}

proof fn new_key_is_champion(
    scores: Seq<Scalar>,
    keys: Seq<u64>,
    order: Seq<usize>,
    p: int,
    r: Seq<usize>,
    place: Seq<int>,
    holder: Seq<int>,
)
    requires
        scores.len() == keys.len(),
        scores.len() <= usize::MAX,
        is_stable_order(scores, order),
        kept_so_far(scores, keys, order, p, r, place, holder),
        0 <= p < order.len(),
        forall|x: int|
            0 <= x < r.len() ==> keys[(#[trigger] r[x]) as int] != keys[order[p] as int],
    ensures
        kept_so_far(
            scores,
            keys,
            order,
            p + 1,
            r.push(order[p]),
            place.push(p),
            holder.push(r.len() as int),
        ),
{
    let k = order[p] as int;
    assert forall|j: int|
        0 <= j < scores.len() && j != k && #[trigger] keys[j] == keys[k] implies before(
        scores,
        k,
        j,
    ) by {
        assert(order.contains(j as usize));
        let q = choose|q: int| 0 <= q < order.len() && order[q] == j as usize;
        if q < p {
            assert(keys[r[holder[q]] as int] == keys[order[q] as int]);
        }
        assert(before(scores, order[p] as int, order[q] as int));
    }
    let r2 = r.push(order[p]);
    let h2 = holder.push(r.len() as int);
    assert forall|q: int| 0 <= q < p + 1 implies 0 <= #[trigger] h2[q] < r2.len() && keys[r2[h2[q]] as int]
        == keys[order[q] as int] by {
        if q < p {
            assert(h2[q] == holder[q]);
        }
    }
    assert forall|q: int| 0 <= q < p + 1 && champion(scores, keys, order[q] as int) implies r2[
    #[trigger] h2[q]] == order[q] by {
        if q < p {
            assert(h2[q] == holder[q]);
        }
    }
}

proof fn old_key_is_no_champion(
    scores: Seq<Scalar>,
    keys: Seq<u64>,
    order: Seq<usize>,
    p: int,
    r: Seq<usize>,
    place: Seq<int>,
    holder: Seq<int>,
    o: int,
)
    requires
        scores.len() == keys.len(),
        is_stable_order(scores, order),
        kept_so_far(scores, keys, order, p, r, place, holder),
        0 <= p < order.len(),
        0 <= o < r.len(),
        keys[r[o] as int] == keys[order[p] as int],
    ensures
        kept_so_far(scores, keys, order, p + 1, r, place, holder.push(o)),
{
    assert(before(scores, order[place[o]] as int, order[p] as int));
    assert(!champion(scores, keys, order[p] as int));
    let h2 = holder.push(o);
    assert forall|q: int| 0 <= q < p + 1 implies 0 <= #[trigger] h2[q] < r.len() && keys[r[h2[q]] as int]
        == keys[order[q] as int] by {
        if q < p {
            assert(h2[q] == holder[q]);
        }
    }
    assert forall|q: int| 0 <= q < p + 1 && champion(scores, keys, order[q] as int) implies r[
    #[trigger] h2[q]] == order[q] by {
        if q < p {
            assert(h2[q] == holder[q]);
        }
    }
}

/// A pool has one beam: the selection depends on nothing else.
pub proof fn beam_is_unique(
    scores: Seq<Scalar>,
    keys: Seq<u64>,
    width: nat,
    r: Seq<usize>,
    s: Seq<usize>,
)
    requires
        is_beam(scores, keys, width, r),
        is_beam(scores, keys, width, s),
    ensures
        r == s,
{
    let n = if r.len() < s.len() {
        r.len() as int
    } else {
        s.len() as int
    };
    beams_agree(scores, keys, width, r, s, n);
    beam_is_maximal(scores, keys, width, r, s);
    beam_is_maximal(scores, keys, width, s, r);
    assert(r =~= s);
}

proof fn beam_is_maximal(
    scores: Seq<Scalar>,
    keys: Seq<u64>,
    width: nat,
    r: Seq<usize>,
    s: Seq<usize>,
)
    requires
        is_beam(scores, keys, width, r),
        is_beam(scores, keys, width, s),
        forall|i: int| 0 <= i < r.len() && i < s.len() ==> r[i] == s[i],
    ensures
        r.len() >= s.len(),
{
    if r.len() < s.len() {
        let k = s[r.len() as int];
        assert(champion(scores, keys, k as int));
        if r.contains(k) {
            let x = choose|x: int| 0 <= x < r.len() && r[x] == k;
            assert(before(scores, s[x] as int, s[r.len() as int] as int));
        }
    }
}

proof fn beams_agree(
    scores: Seq<Scalar>,
    keys: Seq<u64>,
    width: nat,
    r: Seq<usize>,
    s: Seq<usize>,
    n: int,
)
    requires
        is_beam(scores, keys, width, r),
        is_beam(scores, keys, width, s),
        0 <= n <= r.len(),
        n <= s.len(),
    ensures
        forall|i: int| 0 <= i < n ==> r[i] == s[i],
    decreases n,
{
    if n > 0 {
        beams_agree(scores, keys, width, r, s, n - 1);
        let i = n - 1;
        assert(champion(scores, keys, r[i] as int));
        assert(champion(scores, keys, s[i] as int));
        if r[i] != s[i] {
            if s.contains(r[i]) {
                let q = choose|q: int| 0 <= q < s.len() && s[q] == r[i];
                if q < i {
                    assert(before(scores, r[q] as int, r[i] as int));
                }
                assert(before(scores, s[i] as int, s[q] as int));
            } else {
                assert(before(scores, s[i] as int, r[i] as int));
            }
            if r.contains(s[i]) {
                let q = choose|q: int| 0 <= q < r.len() && r[q] == s[i];
                if q < i {
                    assert(before(scores, s[q] as int, s[i] as int));
                }
                assert(before(scores, r[i] as int, r[q] as int));
            } else {
                assert(before(scores, r[i] as int, s[i] as int));
            }
        }
    }
}

/// The preferred candidate of the whole pool always leads the beam.
pub proof fn best_leads_the_beam(
    scores: Seq<Scalar>,
    keys: Seq<u64>,
    width: nat,
    r: Seq<usize>,
    k: int,
)
    requires
        is_beam(scores, keys, width, r),
        width > 0,
        0 <= k < scores.len(),
        scores.len() <= usize::MAX,
    ensures
        r.len() > 0,
        r[0] == k || before(scores, r[0] as int, k),
{
    let m = best_of(scores, scores.len() as int);
    best_of_is_best(scores, scores.len() as int);
    assert(champion(scores, keys, m));
    if k != m {
        assert(before(scores, m, k));
    }
    if !r.contains(m as usize) {
        assert(before(scores, r[0] as int, m));
        assert(before(scores, m, r[0] as int));
    } else {
        let x = choose|x: int| 0 <= x < r.len() && r[x] == m as usize;
        if x > 0 {
            assert(before(scores, r[0] as int, r[x] as int));
            assert(before(scores, m, r[0] as int));
        }
    }
}

/// The preferred place among the first `n`.
spec fn best_of(scores: Seq<Scalar>, n: int) -> int
    decreases n,
{
    if n <= 1 {
        0
    } else {
        let b = best_of(scores, n - 1);
        if before(scores, n - 1, b) {
            n - 1
        } else {
            b
        }
    }
}

proof fn best_of_is_best(scores: Seq<Scalar>, n: int)
    requires
        0 < n <= scores.len(),
    ensures
        0 <= best_of(scores, n) < n,
        forall|j: int|
            0 <= j < n && j != best_of(scores, n) ==> #[trigger] before(
                scores,
                best_of(scores, n),
                j,
            ),
    decreases n,
{
    if n > 1 {
        best_of_is_best(scores, n - 1);
        let b = best_of(scores, n - 1);
        assert forall|j: int| 0 <= j < n && j != best_of(scores, n) implies #[trigger] before(
            scores,
            best_of(scores, n),
            j,
        ) by {
            if j < n - 1 && j != b {
                assert(before(scores, b, j));
            }
        }
    }
}

/// A search never loses its best: where the pool opens with the leader of the
/// previous beam, the new leader ranks no later.
pub proof fn beam_never_worsens(
    scores: Seq<Scalar>,
    keys: Seq<u64>,
    width: nat,
    r: Seq<usize>,
    leader: Scalar,
)
    requires
        is_beam(scores, keys, width, r),
        width > 0,
        0 < scores.len() <= usize::MAX,
        scores[0] == leader,
    ensures
        r.len() > 0,
        scores[r[0] as int].rank() <= leader.rank(),
{
    best_leads_the_beam(scores, keys, width, r, 0);
}

/// No two members of a beam are the same idea.
pub proof fn beam_holds_distinct_ideas(
    scores: Seq<Scalar>,
    keys: Seq<u64>,
    width: nat,
    r: Seq<usize>,
    p: int,
    q: int,
)
    requires
        is_beam(scores, keys, width, r),
        0 <= p < q < r.len(),
    ensures
        keys[r[p] as int] != keys[r[q] as int],
{
    assert(before(scores, r[p] as int, r[q] as int));
    assert(champion(scores, keys, r[q] as int));
}

/// Evaluations that one generation costs: every mutation of every member, and
/// one fresh candidate.
pub fn evals_per_step(beam_width: usize, mutations: usize) -> (r: u64)
    requires
        beam_width * mutations + 1 <= usize::MAX,
    ensures
        r == beam_width * mutations + 1,
{
    assert(0 <= beam_width * mutations) by (nonlinear_arith);
    (beam_width * mutations + 1) as u64
}

/// Whether a score replaces the best so far: there is none, or it is below.
pub fn improves(score: Scalar, best: Option<Scalar>) -> (r: bool)
    ensures
        r == match best {
            Some(b) => score.lt(b),
            None => true,
        },
{
    match best {
        Some(b) => score.less_than(b),
        None => true,
    }
}

} // verus!
