//! Which Lambert arcs of a leg are looked for, and in which order they are
//! offered. The arcs themselves are solved by the caller.

use crate::beam::{before, is_stable_order, stable_order};
use crate::scalar::{Scalar, INFINITY_BITS};
use vstd::prelude::*;

verus! {

/// Revolutions swept at most, however many the geometry admits.
pub const MAX_LAMBERT_REVS: u32 = 20;

/// One arc to look for.
#[derive(Clone, Copy, Debug, PartialEq, Eq, Structural)]
pub struct ArcChoice {
    /// Whole revolutions about the Sun.
    pub revs: u32,
    /// The higher of the two branches that a revolving arc has.
    pub high: bool,
}

/// Revolutions swept where the geometry admits `bound`.
pub open spec fn revs_swept(bound: u32) -> int {
    if bound < MAX_LAMBERT_REVS {
        bound as int
    } else {
        MAX_LAMBERT_REVS as int
    }
}

/// The sweep up to `n` revolutions: the single arc, then both branches of each
/// revolution count.
pub open spec fn arcs_up_to(n: int) -> Seq<ArcChoice>
    decreases n,
{
    if n <= 0 {
        seq![ArcChoice { revs: 0, high: false }]
    } else {
        arcs_up_to(n - 1).push(ArcChoice { revs: n as u32, high: false }).push(
            ArcChoice { revs: n as u32, high: true },
        )
    }
}

/// The arcs to look for where the geometry admits `bound` revolutions.
pub fn arc_sweep(bound: u32) -> (r: Vec<ArcChoice>)
    ensures
        r@ == arcs_up_to(revs_swept(bound)),
{
    let n: u32 = if bound < MAX_LAMBERT_REVS {
        bound
    } else {
        MAX_LAMBERT_REVS
    };
    let mut r: Vec<ArcChoice> = Vec::new();
    r.push(ArcChoice { revs: 0, high: false });
    assert(r@ =~= arcs_up_to(0));
    let mut m: u32 = 0;
    while m < n
        invariant
            m <= n <= MAX_LAMBERT_REVS,
            r@ == arcs_up_to(m as int),
        decreases n - m,
    {
        m = m + 1;
        r.push(ArcChoice { revs: m, high: false });
        r.push(ArcChoice { revs: m, high: true });
    }
    r
}

/// An arc that was found: its end velocities, and the square of what leaving
/// along it costs.
#[derive(Clone, Copy, Debug, PartialEq, Eq)]
pub struct FoundArc {
    pub v_start: [Scalar; 3],
    pub v_end: [Scalar; 3],
    pub cost: Scalar,
}

/// A number, neither infinite nor a NaN.
pub open spec fn finite(x: Scalar) -> bool {
    x.magnitude() < INFINITY_BITS
}

impl FoundArc {
    /// Both velocities are numbers.
    pub open spec fn usable(self) -> bool {
        finite(self.v_start@[0]) && finite(self.v_start@[1]) && finite(self.v_start@[2]) && finite(
            self.v_end@[0],
        ) && finite(self.v_end@[1]) && finite(self.v_end@[2])
    }

    fn is_usable(&self) -> (r: bool)
        ensures
            r == self.usable(),
    {
        self.v_start[0].is_finite() && self.v_start[1].is_finite() && self.v_start[2].is_finite()
            && self.v_end[0].is_finite() && self.v_end[1].is_finite() && self.v_end[2].is_finite()
    }
}

/// Places of the usable arcs among the first `n` looked for.
pub open spec fn usable_places(found: Seq<Option<FoundArc>>, n: int) -> Seq<usize>
    decreases n,
{
    if n <= 0 {
        Seq::empty()
    } else if found[n - 1] matches Some(a) && a.usable() {
        usable_places(found, n - 1).push((n - 1) as usize)
    } else {
        usable_places(found, n - 1)
    }
}

/// Costs of the arcs at some places.
pub open spec fn costs(found: Seq<Option<FoundArc>>, places: Seq<usize>) -> Seq<Scalar> {
    places.map_values(|i: usize| found[i as int]->0.cost)
}

/// `r` holds the places of all usable arcs, the cheapest first; arcs of equal
/// cost stay in the order of the sweep.
pub open spec fn is_offer(found: Seq<Option<FoundArc>>, r: Seq<usize>) -> bool {
    let places = usable_places(found, found.len() as int);
    exists|order: Seq<usize>| #[trigger]
        is_stable_order(costs(found, places), order) && r == order.map_values(
            |k: usize| places[k as int],
        )
}

proof fn usable_places_hold(found: Seq<Option<FoundArc>>, n: int)
    requires
        0 <= n <= found.len() <= usize::MAX,
    ensures
        forall|p: int|
            0 <= p < usable_places(found, n).len() ==> (#[trigger] usable_places(found, n)[p]) < n
                && found[usable_places(found, n)[p] as int] is Some
                && found[usable_places(found, n)[p] as int]->0.usable(),
        forall|i: usize|
            0 <= i < n && found[i as int] is Some && found[i as int]->0.usable()
                ==> #[trigger] usable_places(found, n).contains(i),
        forall|p: int, q: int|
            0 <= p < q < usable_places(found, n).len() ==> #[trigger] usable_places(found, n)[p]
                < #[trigger] usable_places(found, n)[q],
    decreases n,
{
    if n > 0 {
        usable_places_hold(found, n - 1);
        let prev = usable_places(found, n - 1);
        let all = usable_places(found, n);
        assert forall|i: usize|
            0 <= i < n && found[i as int] is Some
                && found[i as int]->0.usable() implies #[trigger] all.contains(i) by {
            if i < n - 1 {
                assert(prev.contains(i));
                let p = choose|p: int| 0 <= p < prev.len() && prev[p] == i;
                assert(all[p] == i);
            } else {
                assert(all[all.len() - 1] == i);
            }
        }
    }
}

/// Every Lambert arc that fits a leg, by departure cost: places in the sweep.
pub fn lambert_candidates(found: &Vec<Option<FoundArc>>) -> (r: Vec<usize>)
    ensures
        is_offer(found@, r@),
        forall|p: int|
            0 <= p < r@.len() ==> (#[trigger] r@[p]) < found.len() && found@[r@[p] as int] is Some,
{
    let mut places: Vec<usize> = Vec::new();
    let mut prices: Vec<Scalar> = Vec::new();
    let mut i: usize = 0;
    while i < found.len()
        invariant
            i <= found.len(),
            places@ == usable_places(found@, i as int),
            prices.len() == places.len(),
            forall|p: int|
                0 <= p < places@.len() ==> (#[trigger] places@[p]) < i && prices@[p]
                    == found@[places@[p] as int]->0.cost,
        decreases found.len() - i,
    {
        if let Some(a) = &found[i] {
            if a.is_usable() {
                places.push(i);
                prices.push(a.cost);
            }
        }
        i = i + 1;
    }
    assert(prices@ =~= costs(found@, places@));
    let order: Vec<usize> = stable_order(&prices);
    let mut r: Vec<usize> = Vec::new();
    let mut k: usize = 0;
    while k < order.len()
        invariant
            k <= order.len(),
            r.len() == k,
            order.len() == places.len(),
            forall|p: int| 0 <= p < order@.len() ==> #[trigger] order@[p] < places.len(),
            forall|p: int| 0 <= p < k ==> #[trigger] r@[p] == places@[order@[p] as int],
        decreases order.len() - k,
    {
        r.push(places[order[k]]);
        k = k + 1;
    }
    proof {
        usable_places_hold(found@, found@.len() as int);
        assert(r@ =~= order@.map_values(|k: usize| places@[k as int]));
        assert forall|p: int| 0 <= p < r@.len() implies (#[trigger] r@[p]) < found.len()
            && found@[r@[p] as int] is Some by {
            let q = order@[p] as int;
            assert(places@[q] == usable_places(found@, found@.len() as int)[q]);
        }
    }
    r
}

/// The place of the `k`-th cheapest of `n` arcs, counting round, so that every
/// gene value stands for some arc.
pub fn lambert_branch(k: u32, n: usize) -> (r: Option<usize>)
    ensures
        r == (if n == 0 {
            None
        } else {
            Some((k as int % n as int) as usize)
        }),
        r matches Some(i) ==> i < n,
{
    if n == 0 {
        None
    } else {
        Some(k as usize % n)
    }
}

// ---------------------------------------------------------------- laws

/// The sweep holds each arc once: one for no revolution, and two for each count
/// up to the cap.
pub proof fn sweep_is_complete(bound: u32, a: ArcChoice)
    ensures
        arcs_up_to(revs_swept(bound)).len() == 1 + 2 * revs_swept(bound),
        arcs_up_to(revs_swept(bound)).contains(a) <==> a.revs <= bound && a.revs
            <= MAX_LAMBERT_REVS && (a.revs == 0 ==> !a.high),
{
    sweep_holds(revs_swept(bound), a);
}

proof fn sweep_holds(n: int, a: ArcChoice)
    requires
        0 <= n <= MAX_LAMBERT_REVS,
    ensures
        arcs_up_to(n).len() == 1 + 2 * n,
        arcs_up_to(n).contains(a) <==> a.revs <= n && (a.revs == 0 ==> !a.high),
    decreases n,
{
    let all = arcs_up_to(n);
    if n > 0 {
        sweep_holds(n - 1, a);
        let prev = arcs_up_to(n - 1);
        let low = ArcChoice { revs: n as u32, high: false };
        let high = ArcChoice { revs: n as u32, high: true };
        assert(all[all.len() - 1] == high && all[all.len() - 2] == low);
        if prev.contains(a) {
            let p = choose|p: int| 0 <= p < prev.len() && prev[p] == a;
            assert(all[p] == a);
        }
        if all.contains(a) {
            let p = choose|p: int| 0 <= p < all.len() && all[p] == a;
            if p < prev.len() {
                assert(prev[p] == a);
            }
        }
    } else {
        assert(all[0] == ArcChoice { revs: 0, high: false });
    }
}

/// The first arc offered costs no more than any usable arc, in the total order
/// of costs.
pub proof fn first_arc_is_the_cheapest(found: Seq<Option<FoundArc>>, r: Seq<usize>, i: usize)
    requires
        found.len() <= usize::MAX,
        is_offer(found, r),
        i < found.len(),
        found[i as int] is Some,
        found[i as int]->0.usable(),
    ensures
        r.len() > 0,
        found[r[0] as int] is Some,
        found[r[0] as int]->0.cost.rank() <= found[i as int]->0.cost.rank(),
        r.contains(i),
{
    let places = usable_places(found, found.len() as int);
    let prices = costs(found, places);
    usable_places_hold(found, found.len() as int);
    let order = choose|order: Seq<usize>| #[trigger]
        is_stable_order(prices, order) && r == order.map_values(|k: usize| places[k as int]);
    assert(places.contains(i));
    let p = choose|p: int| 0 <= p < places.len() && places[p] == i;
    assert(places[p] < found.len());
    assert(p <= i) by {
        usable_places_are_few(found, found.len() as int);
    }
    assert(order.contains(p as usize));
    let q = choose|q: int| 0 <= q < order.len() && order[q] == p as usize;
    assert(r[q] == i);
    assert(r[0] == places[order[0] as int]);
    if q > 0 {
        assert(before(prices, order[0] as int, order[q] as int));
    }
}

proof fn usable_places_are_few(found: Seq<Option<FoundArc>>, n: int)
    requires
        0 <= n <= found.len() <= usize::MAX,
    ensures
        usable_places(found, n).len() <= n,
        forall|p: int|
            0 <= p < usable_places(found, n).len() ==> p <= #[trigger] usable_places(found, n)[p],
    decreases n,
{
    if n > 0 {
        usable_places_are_few(found, n - 1);
    }
}

/// An arc is usable where all six components of its velocities are numbers below
/// infinity, and no other arc is.
pub proof fn arcs_are_usable_with_six_numbers(a: FoundArc)
    ensures
        a.usable() <==> forall|k: int|
            0 <= k < 3 ==> (#[trigger] a.v_start@[k]).magnitude() < INFINITY_BITS
                && a.v_end@[k].magnitude() < INFINITY_BITS,
{
    if a.usable() {
        assert forall|k: int| 0 <= k < 3 implies (#[trigger] a.v_start@[k]).magnitude()
            < INFINITY_BITS && a.v_end@[k].magnitude() < INFINITY_BITS by {
            assert(k == 0 || k == 1 || k == 2);
        }
    } else {
        let s = a.v_start@;
        assert(!(s[0].magnitude() < INFINITY_BITS && a.v_end@[0].magnitude() < INFINITY_BITS) || !(
        s[1].magnitude() < INFINITY_BITS && a.v_end@[1].magnitude() < INFINITY_BITS) || !(
        s[2].magnitude() < INFINITY_BITS && a.v_end@[2].magnitude() < INFINITY_BITS));
    }
}

/// Only usable arcs are offered, in rising cost; of two that cost the same the one
/// swept first comes first.
pub proof fn offers_rise_in_cost(found: Seq<Option<FoundArc>>, r: Seq<usize>, p: int, q: int)
    requires
        found.len() <= usize::MAX,
        is_offer(found, r),
        0 <= p < q < r.len(),
    ensures
        ({
            let a = found[r[p] as int];
            let b = found[r[q] as int];
            &&& r[p] < found.len() && r[q] < found.len()
            &&& a is Some && a->0.usable() && b is Some && b->0.usable()
            &&& a->0.cost.rank() <= b->0.cost.rank()
            &&& a->0.cost.rank() == b->0.cost.rank() ==> r[p] < r[q]
        }),
{
    let places = usable_places(found, found.len() as int);
    let prices = costs(found, places);
    usable_places_hold(found, found.len() as int);
    let order = choose|order: Seq<usize>| #[trigger]
        is_stable_order(prices, order) && r == order.map_values(|k: usize| places[k as int]);
    assert(before(prices, order[p] as int, order[q] as int));
    assert(r[p] == places[order[p] as int] && r[q] == places[order[q] as int]);
}

/// The sweep goes up in revolutions, the lower branch of each before the higher.
pub proof fn sweep_goes_up(n: int, k: int)
    requires
        0 <= k < arcs_up_to(n).len(),
        0 <= n <= u32::MAX,
    ensures
        arcs_up_to(n)[k].revs == (k + 1) / 2,
        arcs_up_to(n)[k].high <==> k > 0 && k % 2 == 0,
        arcs_up_to(n).len() == 2 * n + 1,
    decreases n,
{
    if n > 0 {
        sweep_length(n - 1);
        if k < arcs_up_to(n - 1).len() {
            sweep_goes_up(n - 1, k);
        }
    }
}

proof fn sweep_length(n: int)
    requires
        0 <= n,
    ensures
        arcs_up_to(n).len() == 2 * n + 1,
    decreases n,
{
    if n > 0 {
        sweep_length(n - 1);
    }
}

} // verus!
