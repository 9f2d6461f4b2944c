//! The refinement of a tour as a whole: where and when its legs meet, and what
//! a tour is once its schedule was tuned and every leg was flown. The caller
//! solves and flies the legs.

use crate::bodies::BodyId;
use crate::bounds::{within, Limits};
use crate::problem::{copy_route, Genes, Genome, Setup, SolverConfig};
use crate::scalar::Scalar;
use crate::schedule::{
    same_but_for_schedule, scored_by, tuned, tuning_improves_within_bounds, untuned, Probe, Probed,
    Tuned, Tuning,
};
use crate::tour::{
    refined, refinement_keeps_the_worst, unsolved_leg, worst_miss_covers_every_leg, worst_of,
    Refinement,
};
use vstd::prelude::*;

verus! {

/// Where two legs meet, or a tour begins or ends.
#[derive(Clone, Copy, Debug, PartialEq, Eq, Structural)]
pub struct Patch {
    pub body: BodyId,
    /// Days since the patch before; none at the departure.
    pub gap_days: Option<Scalar>,
}

/// The patches of a tour past those bodies: its departure, then the end of each
/// leg, its flight time after the patch before.
pub open spec fn patches_of(bodies: Seq<BodyId>, legs: Seq<Scalar>) -> Seq<Patch> {
    Seq::new(
        legs.len() + 1,
        |k: int|
            Patch {
                body: bodies[k],
                gap_days: if k == 0 {
                    None
                } else {
                    Some(legs[k - 1])
                },
            },
    )
}

/// The patches of a tour.
pub fn patches(cfg: &SolverConfig, g: &Genome) -> (r: Vec<Patch>)
    requires
        g@.legs.len() == cfg@.route.len() + 1,
    ensures
        r@ == patches_of(cfg@.bodies(), g@.legs),
        r@.len() == g@.legs.len() + 1,
{
    let bodies: Vec<BodyId> = cfg.sequence();
    let mut r: Vec<Patch> = Vec::new();
    r.push(Patch { body: bodies[0], gap_days: None });
    let mut k: usize = 0;
    while k < g.legs.len()
        invariant
            k <= g.legs@.len(),
            bodies@ == cfg@.bodies(),
            bodies@.len() == g.legs@.len() + 1,
            r@ == patches_of(bodies@, g.legs@).take(k + 1),
        decreases g.legs@.len() - k,
    {
        r.push(Patch { body: bodies[k + 1], gap_days: Some(g.legs[k]) });
        assert(r@ =~= patches_of(bodies@, g.legs@).take(k + 2));
        k = k + 1;
    }
    assert(r@ =~= patches_of(cfg@.bodies(), g@.legs));
    r
}

/// A tour whose legs were all flown.
pub struct RefinedTour {
    /// The candidate that was flown.
    pub genome: Genome,
    pub patches: Vec<Patch>,
    /// Bodies flown past, in order.
    pub flybys: Vec<BodyId>,
    /// The burn of each leg, where it has one.
    pub burns: Vec<Option<[Scalar; 4]>>,
    /// Largest targeting residual of a leg, km.
    pub worst_miss_km: Scalar,
}

/// The burn of each leg of a candidate.
pub open spec fn burns_of(g: Genome) -> Seq<Option<[Scalar; 4]>> {
    Seq::new(g.legs@.len(), |i: int| g.burn(i))
}

/// Every leg has an arc, and every leg was flown: none was cut short.
pub open spec fn all_flown(arcs: Seq<bool>, flights: Seq<Option<Scalar>>, legs: nat) -> bool {
    &&& forall|i: int| 0 <= i < arcs.len() ==> #[trigger] arcs[i]
    &&& flights.len() == legs
    &&& forall|i: int| 0 <= i < flights.len() ==> #[trigger] flights[i] is Some
}

/// The residuals of the legs flown.
pub open spec fn misses_of(flights: Seq<Option<Scalar>>) -> Seq<Scalar> {
    Seq::new(flights.len(), |i: int| flights[i]->0)
}

/// What a tuned schedule and its flights come to: a tour exactly where every leg
/// was flown. Its candidate is the tuned one, its flybys are the route, its
/// patches and burns are those of the candidate, and its miss is the worst.
pub open spec fn closes_as(
    s: Setup,
    t: Tuned,
    arcs: Seq<bool>,
    flights: Seq<Option<Scalar>>,
    r: Option<RefinedTour>,
) -> bool {
    &&& r is Some <==> all_flown(arcs, flights, t.genes.legs.len())
    &&& r matches Some(x) ==> {
        &&& x.genome@ == t.genes
        &&& x.flybys@ == s.route
        &&& x.patches@ == patches_of(s.bodies(), t.genes.legs)
        &&& x.burns@ == burns_of(x.genome)
        &&& x.worst_miss_km == worst_of(misses_of(flights))
    }
}

fn burns(g: &Genome) -> (r: Vec<Option<[Scalar; 4]>>)
    ensures
        r@ == burns_of(*g),
{
    let mut r: Vec<Option<[Scalar; 4]>> = Vec::new();
    let mut i: usize = 0;
    while i < g.legs.len()
        invariant
            i <= g.legs@.len(),
            r@ == burns_of(*g).take(i as int),
        decreases g.legs@.len() - i,
    {
        r.push(g.leg_dsm(i));
        assert(r@ =~= burns_of(*g).take(i + 1));
        i = i + 1;
    }
    assert(r@ =~= burns_of(*g));
    r
}

/// Closes the refinement of a tour, from its tuned schedule, from which legs
/// have an arc, and from the residual of each leg flown, in order, with `None`
/// where a flight was cut short.
pub fn close_tour(
    cfg: &SolverConfig,
    tuning: Tuning,
    arcs: &Vec<bool>,
    flights: &Vec<Option<Scalar>>,
) -> (r: Option<RefinedTour>)
    requires
        tuning@.wf(),
        tuning@.descent.next == Probe::Done,
        tuning@.genes.legs.len() == cfg@.route.len() + 1,
        arcs@.len() == tuning@.genes.legs.len(),
        flights@.len() <= tuning@.genes.legs.len(),
    ensures
        closes_as(cfg@, tuning@, arcs@, flights@, r),
{
    if unsolved_leg(arcs).is_some() {
        return None;
    }
    let legs: usize = tuning.genome.legs.len();
    let mut progress: Refinement = Refinement::new(legs);
    let ghost misses = misses_of(flights@);
    assert(misses.take(0) =~= Seq::empty());
    let mut i: usize = 0;
    while i < flights.len()
        invariant
            i <= flights@.len() <= legs,
            misses == misses_of(flights@),
            progress == refined(legs, misses.take(i as int)),
            forall|j: int| 0 <= j < i ==> #[trigger] flights@[j] is Some,
        decreases flights@.len() - i,
    {
        proof {
            refinement_keeps_the_worst(legs, misses.take(i as int));
        }
        progress.record(flights[i]);
        if progress.truncated {
            return None;
        }
        assert(misses.take(i + 1).drop_last() =~= misses.take(i as int));
        assert(misses.take(i + 1).last() == misses[i as int]);
        i = i + 1;
    }
    proof {
        assert(misses.take(i as int) =~= misses);
        refinement_keeps_the_worst(legs, misses);
    }
    if !progress.is_refined() {
        return None;
    }
    let patches: Vec<Patch> = patches(cfg, &tuning.genome);
    let burns: Vec<Option<[Scalar; 4]>> = burns(&tuning.genome);
    Some(
        RefinedTour {
            genome: tuning.genome,
            patches,
            flybys: copy_route(&cfg.route),
            burns,
            worst_miss_km: progress.worst_miss_km,
        },
    )
}

/// What a refined tour is, from the candidate that it was tuned from on. There
/// is one exactly where every leg of the tuned schedule has an arc and was
/// flown. It flies the tuned candidate, which scores no worse than the one
/// given and differs from it in nothing but the schedule; it has one patch more
/// than legs, each a flight time after the one before; it flies past the bodies
/// of its route, in order; and its miss is at least that of every leg.
pub proof fn refined_tours_are_whole(
    s: Setup,
    genes: Genes,
    limits: Limits,
    probes: Seq<Probed>,
    score: spec_fn(Genes) -> Scalar,
    arcs: Seq<bool>,
    flights: Seq<Option<Scalar>>,
    r: Option<RefinedTour>,
)
    requires
        limits.valid(),
        within(genes, limits),
        genes.legs.len() == s.route.len() + 1 <= usize::MAX,
        probes.len() > 0,
        scored_by(untuned(genes, limits), probes, score),
        tuned(untuned(genes, limits), probes).descent.next == Probe::Done,
        closes_as(s, tuned(untuned(genes, limits), probes), arcs, flights, r),
    ensures
        r is Some <==> all_flown(arcs, flights, genes.legs.len()),
        r matches Some(x) ==> {
            &&& x.genome@ == tuned(untuned(genes, limits), probes).genes
            &&& x.genome@ == genes || score(x.genome@).lt(score(genes))
            &&& same_but_for_schedule(x.genome@, genes)
            &&& within(x.genome@, limits)
            &&& x.patches@.len() == x.genome@.legs.len() + 1
            &&& x.patches@[0] == (Patch { body: BodyId::Earth, gap_days: None })
            &&& x.patches@.last().body == s.target
            &&& forall|k: int|
                0 <= k < x.genome@.legs.len() ==> (#[trigger] x.patches@[k + 1]).gap_days == Some(
                    x.genome@.legs[k],
                )
            &&& forall|k: int|
                0 <= k < s.route.len() ==> (#[trigger] x.patches@[k + 1]).body == s.route[k]
            &&& x.flybys@ == s.route
            &&& x.burns@ == burns_of(x.genome)
            &&& forall|i: int|
                0 <= i < flights.len() && !(#[trigger] flights[i])->0.nan() ==> flights[i]->0.le(
                    x.worst_miss_km,
                )
        },
{
    tuning_improves_within_bounds(genes, limits, probes, score);
    if let Some(x) = r {
        let legs = genes.legs.len() as usize;
        let misses = misses_of(flights);
        refinement_keeps_the_worst(legs, misses);
        assert forall|i: int| 0 <= i < flights.len() && !(
        #[trigger] flights[i])->0.nan() implies flights[i]->0.le(x.worst_miss_km) by {
            assert(misses[i] == flights[i]->0);
            worst_miss_covers_every_leg(legs, misses, i);
        }
    }
}

/// The burns of a refined tour are those its legs are flown by, one entry for each
/// leg; and its legs meet at the bodies of its sequence.
pub proof fn burns_follow_the_legs(s: Setup, g: Genome, k: int)
    requires
        g.legs@.len() == s.route.len() + 1,
    ensures
        burns_of(g).len() == g.legs@.len(),
        0 <= k < g.legs@.len() ==> burns_of(g)[k] == g.flown_by(k).burn,
        patches_of(s.bodies(), g.legs@).len() == s.bodies().len(),
        0 <= k < s.bodies().len() ==> patches_of(s.bodies(), g.legs@)[k].body == s.bodies()[k],
        0 <= k < s.bodies().len() ==> (patches_of(s.bodies(), g.legs@)[k].gap_days is None <==> k
            == 0),
{
}

} // verus!
