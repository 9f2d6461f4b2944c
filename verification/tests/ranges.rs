use orbital::bodies::{BodyId, BODY_COUNT};
use orbital::bounds::{
    apply_edit, burn_margin_range, burn_place_range, burn_range, shape, throttle_range, Bounds,
    Moved, Range,
};
use orbital::ephemeris::{coverage_epoch, fraction, segment, tabulated, Backing, Source};
use orbital::mutation::{Edit, GenomeShape};
use orbital::problem::{
    arrival_charge, ArrivalCharge, Engine, Genome, MissionType, SolverConfig, N_SEG,
};
use orbital::refine::{close_tour, patches, Patch};
use orbital::scalar::Scalar;
use orbital::schedule::{Probe, Tuning, FIRST_STEP_DAYS};
use orbital::seeding::fresh_genome;

fn scalar(x: f64) -> Scalar {
    Scalar { bits: x.to_bits() }
}

fn double(s: Scalar) -> f64 {
    f64::from_bits(s.bits)
}

fn range(lo: f64, hi: f64) -> Range {
    Range { lo: scalar(lo), hi: scalar(hi) }
}

fn genome() -> Genome {
    Genome {
        depart_days: scalar(100.0),
        legs: vec![scalar(150.0), scalar(300.0)],
        vinf_dep: [scalar(1.0), scalar(2.0), scalar(3.0)],
        thrust: vec![[scalar(0.5), scalar(-0.5), scalar(0.0)]; 2],
        dsm: vec![[scalar(0.5), scalar(0.1), scalar(0.2), scalar(0.3)]; 2],
        branch: vec![0, 1],
    }
}

fn limits() -> Bounds {
    Bounds::new(scalar(365.0), vec![range(100.0, 200.0), range(250.0, 800.0)])
}

fn after(e: Edit, m: Moved) -> Genome {
    let mut g = genome();
    apply_edit(&mut g, &e, &m, &limits());
    g
}

fn value(x: f64) -> Moved {
    Moved::Value { x: scalar(x) }
}

#[test]
fn numbers_are_held_to_a_range() {
    let r = range(-1.0, 2.0);
    assert_eq!(r.clamp(scalar(-3.0)), scalar(-1.0));
    assert_eq!(r.clamp(scalar(0.5)), scalar(0.5));
    assert_eq!(r.clamp(scalar(f64::INFINITY)), scalar(2.0));
    assert_eq!(r.clamp(scalar(f64::NAN)), scalar(f64::NAN));
    assert!(r.is_valid() && !range(2.0, 1.0).is_valid() && !range(f64::NAN, 1.0).is_valid());
    assert!(limits().is_valid());
    assert!(!Bounds::new(scalar(-1.0), vec![]).is_valid());
    assert!(!Bounds::new(scalar(1.0), vec![range(5.0, 4.0)]).is_valid());
    assert_eq!(throttle_range(), range(-1.0, 1.0));
    assert_eq!(burn_place_range(), range(0.05, 0.95));
    assert_eq!(burn_range(), range(-2.0, 2.0));
    assert_eq!(burn_margin_range(), range(0.03, 0.15));
}

#[test]
fn edits_hold_genes_to_their_ranges() {
    let g = after(Edit::ThrustNudge { seg: 1, axis: 2, unit: 0 }, value(1.3));
    assert_eq!(g.thrust[1], [scalar(0.5), scalar(-0.5), scalar(1.0)]);
    assert_eq!(g.thrust[0], genome().thrust[0]);
    let rows = vec![[scalar(2.0), scalar(-2.0), scalar(0.25)]; 2];
    let g = after(Edit::ThrustScale { unit: 0 }, Moved::Profile { rows });
    assert_eq!(g.thrust, vec![[scalar(1.0), scalar(-1.0), scalar(0.25)]; 2]);
    let g = after(Edit::ThrustBurn { seg: 0, forward: true, unit: 0 }, value(0.75));
    assert_eq!(g.thrust[0], [scalar(0.75), scalar(0.0), scalar(0.0)]);
    assert_eq!(after(Edit::Depart { unit: 0 }, value(-4.0)).depart_days, scalar(0.0));
    assert_eq!(after(Edit::Depart { unit: 0 }, value(400.0)).depart_days, scalar(365.0));
    let g = after(Edit::LegCoarse { leg: 1, unit: 0 }, value(900.0));
    assert_eq!(g.legs, vec![scalar(150.0), scalar(800.0)]);
    let g = after(Edit::LegFine { leg: 0, unit: 0 }, value(99.0));
    assert_eq!(g.legs, vec![scalar(100.0), scalar(300.0)]);
    let g = after(Edit::LegResample { leg: 0, unit: 0 }, value(123.0));
    assert_eq!(g.legs, vec![scalar(123.0), scalar(300.0)]);
    let g = after(Edit::DsmSlide { leg: 1, unit: 0 }, value(0.99));
    assert_eq!(g.dsm[1], [scalar(0.95), scalar(0.1), scalar(0.2), scalar(0.3)]);
    let g = after(Edit::DsmKick { leg: 0, axis: 3, unit: 0 }, value(-2.5));
    assert_eq!(g.dsm[0], [scalar(0.5), scalar(0.1), scalar(0.2), scalar(-2.0)]);
    assert_eq!(g.dsm[1], genome().dsm[1]);
}

#[test]
fn edits_without_a_range() {
    let g = after(Edit::VinfAxis { axis: 1, unit: 0 }, value(9.0));
    assert_eq!(g.vinf_dep, [scalar(1.0), scalar(9.0), scalar(3.0)]);
    let v = [scalar(7.0), scalar(8.0), scalar(9.0)];
    assert_eq!(after(Edit::VinfAll { x: 0, y: 0, z: 0 }, Moved::Vector { v }).vinf_dep, v);
    assert_eq!(after(Edit::Reaim, Moved::Vector { v }).vinf_dep, v);
    assert_eq!(after(Edit::Reaim, Moved::Nothing).vinf_dep, genome().vinf_dep);
    assert_eq!(after(Edit::Branch { leg: 0, branch: 4 }, Moved::Nothing).branch, vec![4, 1]);
    let g = after(Edit::DsmZero { leg: 1 }, Moved::Nothing);
    assert_eq!(g.dsm[1], [scalar(0.5), scalar(0.0), scalar(0.0), scalar(0.0)]);
    assert_eq!(g.dsm[0], genome().dsm[0]);
    assert_eq!(shape(&g), GenomeShape { legs: 2, thrust: 2, dsm: 2, branch: 2 });
}

#[test]
fn fresh_candidates() {
    let v = [scalar(1.0), scalar(2.0), scalar(3.0)];
    let legs = || vec![scalar(150.0), scalar(300.0)];
    let tour = SolverConfig { route: vec![BodyId::Venus], ..SolverConfig::default() };
    let g = fresh_genome(&tour, scalar(5.0), legs(), v, scalar(-0.85));
    assert_eq!((g.depart_days, g.legs.clone()), (scalar(5.0), legs()));
    assert_eq!(g.vinf_dep, [scalar(0.0); 3]);
    assert_eq!(g.dsm, vec![[scalar(0.5), scalar(0.0), scalar(0.0), scalar(0.0)]; 2]);
    assert_eq!(g.branch, vec![0, 0]);
    assert!(g.thrust.is_empty());
    let direct = fresh_genome(&SolverConfig::default(), scalar(5.0), legs(), v, scalar(-0.85));
    assert_eq!(direct.vinf_dep, v);
    assert!(direct.thrust.is_empty() && direct.dsm.is_empty() && direct.branch.is_empty());
    let engine = Engine::ALL[1];
    assert_ne!(engine, Engine::Ballistic);
    let orbiter = SolverConfig { engine, mission: MissionType::Orbit, ..SolverConfig::default() };
    let g = fresh_genome(&orbiter, scalar(5.0), legs(), v, scalar(-0.5));
    assert_eq!(g.thrust.len(), N_SEG);
    assert_eq!(g.thrust[N_SEG / 2 - 1], [scalar(0.0); 3]);
    assert_eq!(g.thrust[N_SEG / 2], [scalar(-0.5), scalar(0.0), scalar(0.0)]);
}

#[test]
fn tuned_schedules_stay_in_their_ranges() {
    let wish = [-30.0f64, 120.0, 900.0];
    let score = |g: &Genome| -> f64 {
        let x = [g.depart_days, g.legs[0], g.legs[1]];
        (0..3).map(|k| (double(x[k]) - wish[k]).abs()).sum()
    };
    let first = score(&genome());
    let mut t = Tuning::new(genome(), limits());
    assert_eq!(t.entry(), None);
    loop {
        let to = match t.descent.next {
            Probe::Done => break,
            Probe::Base => scalar(0.0),
            Probe::Nudge { round, back, .. } => {
                let step = FIRST_STEP_DAYS as f64 / (1u32 << round) as f64;
                let from = double(t.entry().unwrap());
                scalar(if back { from - step } else { from + step })
            }
        };
        let trial = t.trial(to);
        let s = score(&trial);
        if t.advance(to, scalar(s)) {
            assert_eq!(score(&t.genome), s);
        }
    }
    assert!(score(&t.genome) < first);
    assert_eq!(t.descent.best, scalar(score(&t.genome)));
    assert_eq!(t.genome.depart_days, scalar(0.0));
    assert_eq!(t.genome.legs, vec![scalar(120.0), scalar(800.0)]);
    assert_eq!((t.genome.dsm, t.genome.branch), (genome().dsm, genome().branch));
}

#[test]
fn inert_legs_fly_like_bare_ones() {
    let mut inert = genome();
    inert.dsm = vec![[scalar(0.7), scalar(0.0), scalar(-0.0), scalar(0.0)]; 2];
    let mut bare = genome();
    bare.dsm = Vec::new();
    for i in 0..2 {
        assert_eq!(inert.leg_plan(i), bare.leg_plan(i));
    }
    let plan = genome().leg_plan(1);
    assert_eq!((plan.tof_days, plan.branch), (scalar(300.0), 1));
    assert_eq!(plan.burn, Some(genome().dsm[1]));
}

#[test]
fn fixed_arrival_charges() {
    let fixed = |b, m| arrival_charge(b, m).fixed();
    assert_eq!(fixed(BodyId::Mars, MissionType::Flyby), Some(scalar(0.0)));
    assert_eq!(fixed(BodyId::Jupiter, MissionType::Land), Some(scalar(1e3)));
    assert_eq!(fixed(BodyId::Mars, MissionType::Land), Some(scalar(0.05)));
    assert_eq!(fixed(BodyId::Mars, MissionType::Orbit), None);
    assert_eq!(ArrivalCharge::SoftLanding.fixed(), None);
}

#[test]
fn tables_answer_for_planets_only() {
    let mut mask = [true; BODY_COUNT];
    mask[BodyId::Venus.index()] = false;
    let backing = Backing::Tables { tabulated: tabulated(&mask) };
    assert_eq!(backing.source(BodyId::Earth), Source::Table);
    assert_eq!(backing.source(BodyId::Venus), Source::Model);
    assert_eq!(backing.source(BodyId::Io), Source::Model);
    assert_eq!(backing.source(BodyId::Moon), Source::Model);
}

#[test]
fn queries_outside_a_table_clamp() {
    let at = |x: f64, samples: usize| {
        let i = segment(x.floor() as i64, samples);
        (i, double(fraction(scalar(x - i as f64))))
    };
    assert_eq!(at(-3.5, 5), (0, 0.0));
    assert_eq!(at(0.0, 5), (0, 0.0));
    assert_eq!(at(2.25, 5), (2, 0.25));
    assert_eq!(at(4.0, 5), (3, 1.0));
    assert_eq!(at(99.0, 5), (3, 1.0));
    assert_eq!((coverage_epoch().centuries, coverage_epoch().nanoseconds % 86_400_000_000_000), (1, 0));
}

/// The schedule of the candidate above, tuned until nothing improves.
fn tuned() -> Tuning {
    let mut t = Tuning::new(genome(), limits());
    loop {
        let to = match t.descent.next {
            Probe::Done => return t,
            Probe::Base => scalar(0.0),
            Probe::Nudge { back, .. } => {
                scalar(double(t.entry().unwrap()) + if back { -8.0 } else { 8.0 })
            }
        };
        let days = double(t.trial(to).legs[0]);
        t.advance(to, scalar((days - 174.0).abs()));
    }
}

#[test]
fn refined_tours_fly_the_tuned_schedule() {
    let cfg = SolverConfig {
        route: vec![BodyId::Venus],
        target: BodyId::Jupiter,
        ..SolverConfig::default()
    };
    let arcs = vec![true, true];
    let flown = vec![Some(scalar(120.0)), Some(scalar(80.0))];
    let r = close_tour(&cfg, tuned(), &arcs, &flown).unwrap();
    assert_eq!(r.genome.legs, vec![scalar(174.0), scalar(300.0)]);
    assert_eq!(r.genome.branch, genome().branch);
    assert_eq!(r.flybys, vec![BodyId::Venus]);
    assert_eq!(r.worst_miss_km, scalar(120.0));
    assert_eq!(r.burns, vec![Some(genome().dsm[0]), Some(genome().dsm[1])]);
    assert_eq!(
        r.patches,
        vec![
            Patch { body: BodyId::Earth, gap_days: None },
            Patch { body: BodyId::Venus, gap_days: Some(scalar(174.0)) },
            Patch { body: BodyId::Jupiter, gap_days: Some(scalar(300.0)) },
        ]
    );
    assert_eq!(patches(&cfg, &r.genome), r.patches);
    assert!(close_tour(&cfg, tuned(), &vec![true, false], &vec![]).is_none());
    assert!(close_tour(&cfg, tuned(), &arcs, &vec![Some(scalar(1.0)), None]).is_none());
    assert!(close_tour(&cfg, tuned(), &arcs, &vec![Some(scalar(1.0))]).is_none());
}
