//! Verdicts on patched-conic tours: which tour closes, how a flyby turns, how
//! the conics are sampled, and how the refinement of a tour goes.

use crate::bodies::BodyId;
use crate::scalar::Scalar;
use vstd::prelude::*;

verus! {

// ---------------------------------------------------------------- closing

/// Whether a tour can be scored.
#[derive(Clone, Copy, Debug, PartialEq, Eq, Structural)]
pub enum TourVerdict {
    /// This leg, the first such, has no arc.
    Unsolved { leg: usize },
    /// The flyby at this stop, the first such, has no speed to turn.
    StalledFlyby { stop: usize },
    Closes,
}

/// Excess speeds before and after a flyby, km/s.
#[derive(Clone, Copy, Debug, PartialEq, Eq, Structural)]
pub struct FlybySpeeds {
    pub incoming: Scalar,
    pub outgoing: Scalar,
}

/// Below a metre per second there is nothing to turn.
#[verifier::allow_in_spec]
pub fn stall_speed() -> Scalar
    returns
        (Scalar { bits: 0x3f50_624d_d2f1_a9fc }),
{
    Scalar { bits: 0x3f50_624d_d2f1_a9fc }
}

impl FlybySpeeds {
    pub open spec fn stalled(self) -> bool {
        self.incoming.lt(stall_speed()) || self.outgoing.lt(stall_speed())
    }
}

/// The first leg without an arc, where there is one.
pub fn unsolved_leg(solved: &Vec<bool>) -> (r: Option<usize>)
    ensures
        match r {
            Some(i) => i < solved.len() && !solved@[i as int] && forall|j: int|
                0 <= j < i ==> #[trigger] solved@[j],
            None => forall|j: int| 0 <= j < solved.len() ==> #[trigger] solved@[j],
        },
{
    let mut i: usize = 0;
    while i < solved.len()
        invariant
            i <= solved.len(),
            forall|j: int| 0 <= j < i ==> #[trigger] solved@[j],
        decreases solved.len() - i,
    {
        if !solved[i] {
            return Some(i);
        }
        i = i + 1;
    }
    None
}

/// What a tour comes to, from which legs have an arc and from its flybys in order.
pub open spec fn is_verdict(
    solved: Seq<bool>,
    flybys: Seq<FlybySpeeds>,
    v: TourVerdict,
) -> bool {
    let all_solved = forall|j: int| 0 <= j < solved.len() ==> #[trigger] solved[j];
    match v {
        TourVerdict::Unsolved { leg } => leg < solved.len() && !solved[leg as int] && forall|
            j: int,
        |
            0 <= j < leg ==> #[trigger] solved[j],
        TourVerdict::StalledFlyby { stop } => {
            &&& all_solved
            &&& 1 <= stop <= flybys.len()
            &&& flybys[stop - 1].stalled()
            &&& forall|j: int| 0 <= j < stop - 1 ==> !(#[trigger] flybys[j]).stalled()
        },
        TourVerdict::Closes => {
            &&& all_solved
            &&& forall|j: int| 0 <= j < flybys.len() ==> !(#[trigger] flybys[j]).stalled()
        },
    }
}

/// Whether a tour closes: every leg has an arc, and every flyby, in order, has
/// a speed to turn. Stop `k` lies between legs `k - 1` and `k`.
pub fn tour_verdict(solved: &Vec<bool>, flybys: &Vec<FlybySpeeds>) -> (r: TourVerdict)
    ensures
        match r {
            TourVerdict::Unsolved { leg } => leg < solved.len() && !solved@[leg as int] && forall|
                j: int,
            |
                0 <= j < leg ==> #[trigger] solved@[j],
            TourVerdict::StalledFlyby { stop } => {
                &&& forall|j: int| 0 <= j < solved.len() ==> #[trigger] solved@[j]
                &&& 1 <= stop <= flybys.len()
                &&& flybys@[stop - 1].stalled()
                &&& forall|j: int| 0 <= j < stop - 1 ==> !(#[trigger] flybys@[j]).stalled()
            },
            TourVerdict::Closes => {
                &&& forall|j: int| 0 <= j < solved.len() ==> #[trigger] solved@[j]
                &&& forall|j: int| 0 <= j < flybys.len() ==> !(#[trigger] flybys@[j]).stalled()
            },
        },
        is_verdict(solved@, flybys@, r),
        r is Unsolved <==> exists|j: int| 0 <= j < solved.len() && !#[trigger] solved@[j],
        r is Closes ==> forall|j: int|
            0 <= j < flybys.len() ==> !(#[trigger] flybys@[j]).incoming.lt(stall_speed())
                && !flybys@[j].outgoing.lt(stall_speed()),
{
    if let Some(leg) = unsolved_leg(solved) {
        return TourVerdict::Unsolved { leg };
    }
    let mut k: usize = 0;
    while k < flybys.len()
        invariant
            k <= flybys.len(),
            forall|j: int| 0 <= j < solved.len() ==> #[trigger] solved@[j],
            forall|j: int| 0 <= j < k ==> !(#[trigger] flybys@[j]).stalled(),
        decreases flybys.len() - k,
    {
        let f: FlybySpeeds = flybys[k];
        if f.incoming.less_than(stall_speed()) || f.outgoing.less_than(stall_speed()) {
            return TourVerdict::StalledFlyby { stop: k + 1 };
        }
        k = k + 1;
    }
    TourVerdict::Closes
}

/// The bodies flown past: all but the first and the last of a sequence.
pub fn flyby_stops(seq: &Vec<BodyId>) -> (r: Vec<BodyId>)
    ensures
        r@ == (if seq@.len() <= 2 {
            Seq::empty()
        } else {
            seq@.subrange(1, seq@.len() - 1)
        }),
{
    let mut r: Vec<BodyId> = Vec::new();
    let mut k: usize = 1;
    while k + 1 < seq.len()
        invariant
            1 <= k,
            seq.len() <= 2 ==> k == 1 && r.len() == 0,
            seq.len() > 2 ==> k + 1 <= seq.len() && r@ == seq@.subrange(1, k as int),
        decreases seq.len() - k,
    {
        r.push(seq[k]);
        assert(r@ =~= seq@.subrange(1, k + 1));
        k = k + 1;
    }
    r
}

// ---------------------------------------------------------------- turning

/// What a flyby does for a turn.
#[derive(Clone, Copy, Debug, PartialEq, Eq, Structural)]
pub enum Turn {
    /// There is next to no turn, or it is not a number.
    Straight,
    /// The body bends the path so far by itself.
    Bent,
    /// The body cannot bend the path so far: the rest is burnt.
    Deficit,
}

/// A turn of a millionth of a radian or less is none.
#[verifier::allow_in_spec]
pub fn least_turn() -> Scalar
    returns
        (Scalar { bits: 0x3eb0_c6f7_a0b5_ed8d }),
{
    Scalar { bits: 0x3eb0_c6f7_a0b5_ed8d }
}

/// What a flyby does for a turn, where the body can give `limit`.
pub open spec fn turn_of(turn: Scalar, limit: Scalar) -> Turn {
    if limit.lt(turn) {
        Turn::Deficit
    } else if turn.le(limit) && least_turn().lt(turn) {
        Turn::Bent
    } else {
        Turn::Straight
    }
}

/// What a flyby does for a turn, where the body can give `limit`. A turn of a
/// millionth of a radian or less is none.
pub fn turn_kind(turn: Scalar, limit: Scalar) -> (r: Turn)
    ensures
        r == (if limit.lt(turn) {
            Turn::Deficit
        } else if turn.le(limit) && (Scalar { bits: 0x3eb0_c6f7_a0b5_ed8d }).lt(turn) {
            Turn::Bent
        } else {
            Turn::Straight
        }),
        r == turn_of(turn, limit),
        r == Turn::Straight <==> !limit.lt(turn) && (turn.nan() || limit.nan() || turn.le(
            least_turn(),
        )),
        r == Turn::Bent ==> turn.le(limit) && least_turn().lt(turn),
{
    if limit.less_than(turn) {
        Turn::Deficit
    } else if turn.at_most(limit) && (Scalar { bits: 0x3eb0_c6f7_a0b5_ed8d }).less_than(turn) {
        Turn::Bent
    } else {
        Turn::Straight
    }
}

// ---------------------------------------------------------------- sampling

/// Samples of each leg when a tour of that many legs is drawn with `n` samples.
pub fn samples_per_leg(n: usize, legs: usize) -> (r: usize)
    ensures
        r == (if legs == 0 {
            if n < 8 {
                8
            } else {
                n as int
            }
        } else if n as int / legs as int >= 8 {
            n as int / legs as int
        } else {
            8
        }),
{
    let share: usize = if legs == 0 {
        n
    } else {
        n / legs
    };
    if share < 8 {
        8
    } else {
        share
    }
}

/// Samples of a part of a leg that is worth `share` of them.
pub fn samples_of_part(share: usize) -> (r: usize)
    ensures
        r == (if share < 4 {
            4
        } else {
            share
        }),
{
    if share < 4 {
        4
    } else {
        share
    }
}

// ---------------------------------------------------------------- refining

/// The refinement of a tour, leg by leg.
#[derive(Clone, Copy, Debug, PartialEq, Eq, Structural)]
pub struct Refinement {
    pub legs: usize,
    /// Legs corrected so far.
    pub done: usize,
    /// Largest targeting residual so far, km.
    pub worst_miss_km: Scalar,
    /// A flight was cut short: nothing can be said of where the tour goes.
    pub truncated: bool,
}

/// Largest of some residuals.
pub open spec fn worst_of(misses: Seq<Scalar>) -> Scalar
    decreases misses.len(),
{
    if misses.len() == 0 {
        Scalar { bits: 0 }
    } else {
        worst_of(misses.drop_last()).larger(misses.last())
    }
}

impl Refinement {
    /// The leg to correct next.
    pub open spec fn next(self) -> Option<usize> {
        if self.truncated || self.done >= self.legs {
            None
        } else {
            Some(self.done)
        }
    }

    /// The refinement after the correction of a leg.
    pub open spec fn after(self, miss_km: Option<Scalar>) -> Refinement {
        match miss_km {
            Some(m) => Refinement {
                done: (self.done + 1) as usize,
                worst_miss_km: self.worst_miss_km.larger(m),
                ..self
            },
            None => Refinement { truncated: true, ..self },
        }
    }

    pub fn new(legs: usize) -> (r: Self)
        ensures
            r == (Refinement {
                legs,
                done: 0,
                worst_miss_km: Scalar { bits: 0 },
                truncated: false,
            }),
    {
        Refinement { legs, done: 0, worst_miss_km: Scalar::zero(), truncated: false }
    }

    /// The leg to correct next.
    pub fn next_leg(&self) -> (r: Option<usize>)
        ensures
            r == self.next(),
    {
        if self.truncated || self.done >= self.legs {
            None
        } else {
            Some(self.done)
        }
    }

    /// Takes in how the correction of a leg went: `None` where a flight was
    /// cut short.
    pub fn record(&mut self, miss_km: Option<Scalar>)
        requires
            old(self).next() is Some,
        ensures
            *final(self) == old(self).after(miss_km),
    {
        match miss_km {
            Some(m) => {
                self.done = self.done + 1;
                self.worst_miss_km = self.worst_miss_km.max(m);
            },
            None => {
                self.truncated = true;
            },
        }
    }

    /// Whether the tour is refined: every leg was corrected and none was cut
    /// short.
    pub fn is_refined(&self) -> (r: bool)
        ensures
            r == (!self.truncated && self.done >= self.legs),
    {
        !self.truncated && self.done >= self.legs
    }
}

/// A tour whose legs were corrected with those residuals, in order.
pub open spec fn refined(legs: usize, misses: Seq<Scalar>) -> Refinement
    decreases misses.len(),
{
    if misses.len() == 0 {
        Refinement { legs, done: 0, worst_miss_km: Scalar { bits: 0 }, truncated: false }
    } else {
        refined(legs, misses.drop_last()).after(Some(misses.last()))
    }
}

/// A tour is refined once every leg was corrected, in order, and none was cut
/// short; its worst residual is the largest of its legs' residuals.
pub proof fn refinement_keeps_the_worst(legs: usize, misses: Seq<Scalar>)
    requires
        misses.len() <= legs,
    ensures
        ({
            let t = refined(legs, misses);
            &&& t.legs == legs && t.done == misses.len() && !t.truncated
            &&& t.worst_miss_km == worst_of(misses)
            &&& t.next() == (if misses.len() < legs {
                Some(misses.len() as usize)
            } else {
                None
            })
        }),
    decreases misses.len(),
{
    if misses.len() > 0 {
        refinement_keeps_the_worst(legs, misses.drop_last());
    }
}

/// The worst residual of a refined tour is at least every leg's.
pub proof fn worst_miss_covers_every_leg(legs: usize, misses: Seq<Scalar>, i: int)
    requires
        0 <= i < misses.len() <= legs,
        !misses[i].nan(),
    ensures
        misses[i].le(refined(legs, misses).worst_miss_km),
        !refined(legs, misses).worst_miss_km.nan(),
{
    refinement_keeps_the_worst(legs, misses);
    worst_covers(misses, i);
}

proof fn worst_covers(misses: Seq<Scalar>, i: int)
    requires
        0 <= i < misses.len(),
        !misses[i].nan(),
    ensures
        misses[i].le(worst_of(misses)),
        !worst_of(misses).nan(),
    decreases misses.len(),
{
    let head = misses.drop_last();
    worst_is_a_number(head);
    if i < head.len() {
        assert(head[i] == misses[i]);
        worst_covers(head, i);
    }
}

proof fn worst_is_a_number(misses: Seq<Scalar>)
    ensures
        !worst_of(misses).nan(),
    decreases misses.len(),
{
    if misses.len() > 0 {
        worst_is_a_number(misses.drop_last());
    }
}

/// A flyby stalls on either side: too slow before it, or too slow after it.
pub proof fn flybys_stall_on_either_side(f: FlybySpeeds)
    ensures
        f.incoming.lt(stall_speed()) ==> f.stalled(),
        f.outgoing.lt(stall_speed()) ==> f.stalled(),
        f.stalled() && !f.incoming.lt(stall_speed()) ==> f.outgoing.lt(stall_speed()),
        f.stalled() == (FlybySpeeds { incoming: f.outgoing, outgoing: f.incoming }).stalled(),
{
}

/// The double is the one nearest to one thousandth and to one millionth: a metre
/// per second, and a millionth of a radian.
pub proof fn thresholds_are_decimal()
    ensures
        ({
            let s = stall_speed().bits as int;
            let t = least_turn().bits as int;
            let one = 0x10_0000_0000_0000int;
            // 2^62 is the scale of the one, 2^72 that of the other.
            &&& s / one == 1_075 - 62
            &&& -500 <= 1_000 * (s % one + one) - 4_611_686_018_427_387_904 <= 500
            &&& t / one == 1_075 - 72
            &&& -500_000 <= 1_000_000 * (t % one + one) - 4_722_366_482_869_645_213_696
                <= 500_000
        }),
{
}

/// Refining goes leg by leg: a residual counts its leg and can only raise the
/// worst, and a flight that was cut short ends it for good.
pub proof fn refining_goes_leg_by_leg(r: Refinement, miss: Scalar)
    requires
        r.next() is Some,
    ensures
        r.next() == Some(r.done),
        r.after(Some(miss)).done == r.done + 1,
        r.after(Some(miss)).next() is Some <==> r.done + 1 < r.legs,
        !miss.nan() ==> miss.le(r.after(Some(miss)).worst_miss_km),
        !r.worst_miss_km.nan() ==> r.worst_miss_km.le(r.after(Some(miss)).worst_miss_km),
        r.after(Some(miss)).worst_miss_km == miss || r.after(Some(miss)).worst_miss_km
            == r.worst_miss_km,
        r.after(None).next() is None,
        r.after(None).worst_miss_km == r.worst_miss_km && r.after(None).done == r.done,
{
}

/// A turn that the body cannot give is a deficit, and only such a turn; of the others
/// those above a millionth of a radian are bent. What is not a number is straight.
pub proof fn turns_are_told_apart(turn: Scalar, limit: Scalar)
    ensures
        turn_of(turn, limit) == Turn::Deficit <==> limit.lt(turn),
        turn_of(turn, limit) == Turn::Bent <==> turn.le(limit) && least_turn().lt(turn),
        turn.nan() || limit.nan() ==> turn_of(turn, limit) == Turn::Straight,
        turn.le(least_turn()) && turn.le(limit) ==> turn_of(turn, limit) == Turn::Straight,
{
}

/// A leg without an arc is told before any flyby, and the first of each kind before
/// the later ones; a tour closes where there is neither.
pub proof fn verdicts_are_decided(
    solved: Seq<bool>,
    flybys: Seq<FlybySpeeds>,
    v: TourVerdict,
    w: TourVerdict,
)
    requires
        is_verdict(solved, flybys, v),
        is_verdict(solved, flybys, w),
    ensures
        v == w,
        v is Unsolved <==> exists|j: int| 0 <= j < solved.len() && !#[trigger] solved[j],
        v is Closes ==> forall|j: int|
            0 <= j < flybys.len() ==> !(#[trigger] flybys[j]).incoming.lt(stall_speed())
                && !flybys[j].outgoing.lt(stall_speed()),
        v matches TourVerdict::StalledFlyby { stop } ==> 1 <= stop <= flybys.len() && (
        flybys[stop - 1].incoming.lt(stall_speed()) || flybys[stop - 1].outgoing.lt(stall_speed())),
{
    match (v, w) {
        (TourVerdict::Unsolved { leg: a }, TourVerdict::Unsolved { leg: b }) => {
            if a < b {
                assert(solved[a as int]);
            } else if b < a {
                assert(solved[b as int]);
            }
        },
        (TourVerdict::StalledFlyby { stop: a }, TourVerdict::StalledFlyby { stop: b }) => {
            if a < b {
                assert(!flybys[a - 1].stalled());
            } else if b < a {
                assert(!flybys[b - 1].stalled());
            }
        },
        (TourVerdict::StalledFlyby { stop }, TourVerdict::Closes) => {
            assert(!flybys[stop - 1].stalled());
        },
        (TourVerdict::Closes, TourVerdict::StalledFlyby { stop }) => {
            assert(!flybys[stop - 1].stalled());
        },
        (TourVerdict::Unsolved { leg }, _) => {
            assert(!solved[leg as int]);
        },
        (_, TourVerdict::Unsolved { leg }) => {
            assert(!solved[leg as int]);
        },
        _ => {},
    }
    if v is Closes {
        assert forall|j: int| 0 <= j < flybys.len() implies !(#[trigger] flybys[j]).incoming.lt(
            stall_speed(),
        ) && !flybys[j].outgoing.lt(stall_speed()) by {
            assert(!flybys[j].stalled());
        }
    }
}

} // verus!
