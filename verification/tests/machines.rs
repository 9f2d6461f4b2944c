use orbital::bodies::{BodyId, ALL_BODIES};
use orbital::evaluation::{
    hardware_floor, injection, ranked_score, standing, truncated_floor, Injection, Standing,
    EARTH_SOI_KM,
};
use orbital::lambert::{arc_sweep, lambert_branch, lambert_candidates, ArcChoice, FoundArc};
use orbital::problem::MissionType;
use orbital::propagation::{
    keeps_step, leg_dynamics, sample_due, solver_dynamics, throttle_segment, Advance,
    DynamicsConfig, Flight,
};
use orbital::scalar::Scalar;
use orbital::schedule::{Descent, Probe, FIRST_STEP_DAYS, ROUNDS};
use orbital::shooting::{
    bplane_rules, burn_rules, center_rules, insertion, leg_closes, leg_rules, lost_shot_km,
    newton_rules, Aim, Arrival, Corrector, DirectCorrection, Insertion, Outcome, Report, Rules,
    SecondStage,
};
use orbital::tableau::{fifth, fourth, node, weight, STAGES};
use orbital::tour::{
    flyby_stops, samples_of_part, samples_per_leg, tour_verdict, turn_kind, unsolved_leg,
    FlybySpeeds, Refinement, TourVerdict, Turn,
};

fn scalar(x: f64) -> Scalar {
    Scalar { bits: x.to_bits() }
}

fn point(x: f64) -> [Scalar; 3] {
    [scalar(x), scalar(0.0), scalar(-x)]
}

fn corrector(rules: Rules) -> Corrector {
    Corrector::new(rules, point(0.0))
}

fn shot(x: f64, residual: f64) -> Report {
    Report::Shot { at: point(x), residual: scalar(residual) }
}

#[test]
fn corrector_rules() {
    assert_eq!(newton_rules(15, scalar(1.0)), bplane_rules());
    assert_eq!(newton_rules(5, scalar(300.0)), leg_rules());
    assert_eq!(newton_rules(30, scalar(500.0)), center_rules());
    assert_eq!((burn_rules().iterations, burn_rules().trials), (20, 8));
    assert_eq!(burn_rules().tolerance, scalar(1e-3));
}

#[test]
fn corrector_walks_downhill() {
    let mut c = corrector(newton_rules(2, scalar(1.0)));
    assert_eq!((c.point, c.residual), (point(0.0), scalar(f64::INFINITY)));
    assert!(c.advance(shot(0.0, 100.0)));
    assert_eq!(c.aim, Aim::Columns);
    assert!(!c.advance(Report::Solved));
    assert_eq!(c.aim, Aim::Trial { halvings: 0 });
    assert!(!c.advance(shot(8.0, 100.0)));
    assert!(!c.advance(Report::Failed));
    assert_eq!(c.aim, Aim::Trial { halvings: 2 });
    assert_eq!((c.point, c.residual), (point(0.0), scalar(100.0)));
    assert!(c.advance(shot(2.0, 40.0)));
    assert_eq!((c.point, c.residual), (point(2.0), scalar(40.0)));
    assert!(!c.advance(Report::Solved));
    assert!(c.advance(shot(3.0, 2.0)));
    assert_eq!(c.aim, Aim::Closed { outcome: Outcome::Settled });
    assert_eq!((c.point, c.residual), (point(3.0), scalar(2.0)));
}

#[test]
fn corrector_stops_when_it_cannot_go_on() {
    let start = || corrector(newton_rules(9, scalar(1.0)));
    let mut c = start();
    c.advance(Report::Failed);
    assert_eq!(c.aim, Aim::Closed { outcome: Outcome::NoShot });
    assert_eq!((c.point, c.residual), (point(0.0), scalar(f64::INFINITY)));
    let mut c = start();
    c.advance(shot(0.0, 0.5));
    assert_eq!(c.aim, Aim::Closed { outcome: Outcome::Settled });
    let mut c = start();
    c.advance(shot(0.0, 5.0));
    c.advance(Report::Failed);
    assert_eq!(c.aim, Aim::Closed { outcome: Outcome::NoJacobian });
    let mut c = start();
    c.advance(shot(0.0, 5.0));
    c.advance(Report::Singular);
    assert_eq!(c.aim, Aim::Closed { outcome: Outcome::Settled });
    let mut c = start();
    c.advance(shot(0.0, 5.0));
    c.advance(Report::Solved);
    for k in 0..6 {
        assert_eq!(c.aim, Aim::Trial { halvings: k });
        assert!(!c.advance(shot(0.0, 6.0)));
    }
    assert_eq!(c.aim, Aim::Closed { outcome: Outcome::Settled });
    assert_eq!(c.residual, scalar(5.0));
}

#[test]
fn correction_takes_a_bounded_number_of_reports() {
    let mut c = corrector(newton_rules(4, scalar(0.0)));
    let mut n = 1;
    c.advance(shot(0.0, 1e9));
    let mut r = 1e9;
    while !matches!(c.aim, Aim::Closed { .. }) {
        match c.aim {
            Aim::Columns => {
                c.advance(Report::Solved);
            }
            Aim::Trial { halvings } if halvings < 5 => {
                c.advance(Report::Failed);
            }
            _ => {
                r -= 1.0;
                c.advance(shot(0.0, r));
            }
        }
        n += 1;
    }
    assert_eq!(n, 1 + 4 * 7);
}

#[test]
fn legs_close_within_a_kilometre() {
    let settle = |x: f64| {
        let mut c = corrector(burn_rules());
        c.advance(shot(0.0, x));
        c.advance(Report::Singular);
        c
    };
    assert!(leg_closes(&settle(1.0)));
    assert!(!leg_closes(&settle(1.0000001)));
    let mut failed = corrector(burn_rules());
    assert!(!leg_closes(&failed));
    failed.advance(Report::Failed);
    assert!(!leg_closes(&failed));
}

#[test]
fn direct_correction_in_two_stages() {
    let v = [scalar(1.0), scalar(2.0), scalar(3.0)];
    let w = [scalar(1.5), scalar(2.0), scalar(3.0)];
    let arrival = Arrival {
        periapsis_alt_km: scalar(1700.0),
        vinf_kms: scalar(2.6),
        insertion_kms: scalar(1.1),
    };
    let mut d = DirectCorrection::coarse(v, scalar(9000.0));
    assert!(d.wants_bplane(scalar(9000.0)));
    assert!(!d.wants_bplane(scalar(8999.0)));
    assert!(!d.retarget(w, scalar(1e9)));
    assert!(!d.retarget(w, scalar(f64::INFINITY)));
    assert!(!d.retarget(w, scalar(f64::NAN)));
    assert_eq!(d, DirectCorrection::coarse(v, scalar(9000.0)));
    assert!(d.retarget(w, scalar(0.25)));
    d.observe(MissionType::Orbit, arrival);
    assert_eq!(d.vinf_dep, w);
    assert_eq!(d.bplane_err_km, Some(scalar(0.25)));
    assert_eq!(d.periapsis_alt_km, Some(scalar(1700.0)));
    assert_eq!(d.vinf_arr_kms, Some(scalar(2.6)));
    assert_eq!(d.arrival_dv_kms, Some(scalar(1.1)));
    assert_eq!(d.center_miss_km, scalar(9000.0));
    assert_eq!(lost_shot_km(), scalar(1e9));
    assert_eq!(insertion(MissionType::Flyby), Insertion::Free);
    assert_eq!(insertion(MissionType::Orbit), Insertion::AtPeriapsis);
    assert_eq!(insertion(MissionType::Land), Insertion::AsLanding);
}

#[test]
fn direct_corrections_conclude() {
    let (v, w) = (point(1.0), point(2.0));
    let arrival = Arrival {
        periapsis_alt_km: scalar(1700.0),
        vinf_kms: scalar(2.6),
        insertion_kms: scalar(1.1),
    };
    let stage = |err: f64, arrival: Option<Arrival>| {
        Some(SecondStage { vinf_dep: w, bplane_err_km: scalar(err), arrival })
    };
    let end = |m: MissionType, soi: f64, second: Option<SecondStage>| {
        DirectCorrection::conclude(m, v, scalar(400.0), scalar(soi), second)
    };
    let coarse = DirectCorrection::coarse(v, scalar(400.0));
    assert_eq!(end(MissionType::Orbit, 399.0, stage(0.5, Some(arrival))), coarse);
    assert_eq!(end(MissionType::Orbit, 5e5, None), coarse);
    assert_eq!(end(MissionType::Orbit, 5e5, stage(1e9, Some(arrival))), coarse);
    assert_eq!(end(MissionType::Orbit, 5e5, stage(f64::NAN, Some(arrival))), coarse);
    let lost = end(MissionType::Orbit, 5e5, stage(0.5, None));
    assert_eq!((lost.vinf_dep, lost.bplane_err_km), (w, Some(scalar(0.5))));
    assert_eq!((lost.periapsis_alt_km, lost.arrival_dv_kms), (None, None));
    let orbit = end(MissionType::Orbit, 5e5, stage(0.5, Some(arrival)));
    assert_eq!(orbit.periapsis_alt_km, Some(scalar(1700.0)));
    assert_eq!(orbit.vinf_arr_kms, Some(scalar(2.6)));
    assert_eq!(orbit.arrival_dv_kms, Some(scalar(1.1)));
    assert_eq!(orbit.center_miss_km, scalar(400.0));
    let flyby = end(MissionType::Flyby, 5e5, stage(0.5, Some(arrival)));
    assert_eq!(flyby.arrival_dv_kms, Some(scalar(0.0)));
}

#[test]
fn scores_keep_to_their_floors() {
    let rank = |s, a: f64, b: f64, c: f64| ranked_score(s, scalar(a), scalar(b), scalar(c));
    assert_eq!((hardware_floor(), truncated_floor()), (scalar(1e9), scalar(1e6)));
    assert_eq!(rank(Standing::Flyable, 7.5, 1e9 + 8.0, 2e6), scalar(7.5));
    assert_eq!(rank(Standing::BeyondHardware, 7.5, 1e9 + 8.0, 2e6), scalar(1e9 + 8.0));
    assert_eq!(rank(Standing::BeyondHardware, 7.5, 9e8, 2e6), scalar(1e9));
    assert_eq!(rank(Standing::Truncated, 7.5, 1e9, 1.5e6), scalar(1.5e6));
    assert_eq!(rank(Standing::Truncated, 7.5, 1e9, 12.0), scalar(1e6));
    let ours = rank(Standing::Flyable, 9e8, 0.0, 0.0);
    assert!(ours.ranks_before(rank(Standing::BeyondHardware, 1.0, -5.0, 0.0)));
}

#[test]
fn descent_finds_the_bottom_of_a_bowl() {
    let target = [3.25f64, 100.0, 210.5];
    let score = |x: &[f64; 3]| -> f64 { (0..3).map(|k| (x[k] - target[k]).abs()).sum() };
    let mut best = [40.0, 90.0, 250.0];
    let mut d = Descent::new(2);
    let mut probes = 0;
    let mut last = f64::INFINITY;
    loop {
        let trial = match d.next {
            Probe::Base => best,
            Probe::Nudge { round, entry, back } => {
                let step = FIRST_STEP_DAYS as f64 / (1u32 << round) as f64;
                let mut t = best;
                t[entry] += if back { -step } else { step };
                t
            }
            Probe::Done => break,
        };
        let s = score(&trial);
        if d.advance(scalar(s)) {
            assert!(probes == 0 || s < last);
            last = s;
            best = trial;
        }
        probes += 1;
        assert!(probes < 10_000);
    }
    assert_eq!(best, target);
    assert_eq!(d.best, scalar(0.0));
    assert_eq!(ROUNDS, 9);
}

#[test]
fn descent_sweeps_in_order() {
    let mut d = Descent::new(1);
    let mut seen = Vec::new();
    d.advance(scalar(5.0));
    for s in [5.0, 4.0, 6.0, 6.0, 4.0, 4.0, 4.0, 4.0, f64::NAN] {
        if let Probe::Nudge { round, entry, back } = d.next {
            seen.push((round, entry, back));
        }
        d.advance(scalar(s));
    }
    assert_eq!(
        seen,
        vec![
            (0, 0, false),
            (0, 0, true),
            (0, 1, false),
            (0, 1, true),
            (0, 0, false),
            (0, 0, true),
            (0, 1, false),
            (0, 1, true),
            (1, 0, false),
        ]
    );
    assert_eq!(d.best, scalar(4.0));
}

#[test]
fn dynamics_of_each_stage() {
    let d = DynamicsConfig::default();
    assert!(d.relativity && d.perturbers.iter().all(|p| *p));
    assert_eq!((d.rel_tol, d.max_steps), (scalar(1e-10), 2_000_000));
    let s = solver_dynamics();
    assert_eq!((s.rel_tol, s.max_steps), (scalar(1e-8), 30_000));
    let l = leg_dynamics(BodyId::Venus);
    assert_eq!(l.rel_tol, scalar(1e-9));
    for (i, b) in ALL_BODIES.iter().enumerate() {
        assert_eq!(l.perturbers[i], *b != BodyId::Venus);
    }
}

#[test]
fn flights_arrive_or_run_out_of_steps() {
    let mut f = Flight::new(2);
    assert_eq!(f.advance(scalar(0.0), scalar(10.0)), Advance::Step);
    assert_eq!(f.advance(scalar(4.0), scalar(10.0)), Advance::Step);
    assert_eq!(f.advance(scalar(9.0), scalar(10.0)), Advance::Exhausted);
    assert_eq!(f.advance(scalar(10.0), scalar(10.0)), Advance::Arrived);
    assert_eq!(f.taken, 2);
    assert!(keeps_step(scalar(1.0)) && !keeps_step(scalar(1.5)) && !keeps_step(scalar(f64::NAN)));
    assert!(sample_due(scalar(3.0), scalar(3.0), scalar(9.0)));
    assert!(!sample_due(scalar(3.5), scalar(3.0), scalar(9.0)));
    assert!(!sample_due(scalar(9.5), scalar(10.0), scalar(9.0)));
    assert_eq!((throttle_segment(3, 12), throttle_segment(12, 12)), (3, 11));
}

#[test]
fn tableau_is_consistent() {
    let r = |q: orbital::tableau::Ratio| q.num as f64 / q.den as f64;
    for s in 0..STAGES {
        let sum: f64 = (0..6).map(|j| r(weight(s, j))).sum();
        assert!((sum - r(node(s))).abs() < 1e-14, "stage {s}: {sum}");
        assert_eq!(weight(5, s), fifth(s));
    }
    let five: f64 = (0..7).map(|j| r(fifth(j))).sum();
    let four: f64 = (0..7).map(|j| r(fourth(j))).sum();
    assert!((five - 1.0).abs() < 1e-15 && (four - 1.0).abs() < 1e-15);
    assert_eq!(r(weight(3, 0)), 19372.0 / 6561.0);
    assert_eq!(r(fourth(4)), -92097.0 / 339200.0);
    assert_eq!(r(node(3)), 8.0 / 9.0);
}

#[test]
fn standings() {
    assert_eq!(injection(scalar(0.05)), Injection::AlongEarthVelocity);
    assert_eq!(injection(scalar(0.0501)), Injection::AlongExcessVelocity);
    assert_eq!(standing(false, scalar(0.0)), Standing::Truncated);
    assert_eq!(standing(true, scalar(0.1)), Standing::BeyondHardware);
    assert_eq!(standing(true, scalar(0.0)), Standing::Flyable);
    assert_eq!(EARTH_SOI_KM, 925_000);
}

#[test]
fn sweep_of_revolutions() {
    let arc = |revs, high| ArcChoice { revs, high };
    assert_eq!(arc_sweep(0), vec![arc(0, false)]);
    assert_eq!(
        arc_sweep(2),
        vec![arc(0, false), arc(1, false), arc(1, true), arc(2, false), arc(2, true)]
    );
    assert_eq!(arc_sweep(500).len(), 41);
}

#[test]
fn arcs_are_offered_by_cost() {
    let arc = |x: f64, cost: f64| {
        Some(FoundArc {
            v_start: [scalar(x), scalar(0.0), scalar(0.0)],
            v_end: [scalar(0.0), scalar(0.0), scalar(x)],
            cost: scalar(cost),
        })
    };
    let found = vec![arc(1.0, 5.0), None, arc(2.0, 3.0), arc(f64::NAN, 0.0), arc(3.0, 3.0)];
    assert_eq!(lambert_candidates(&found), vec![2, 4, 0]);
    assert!(lambert_candidates(&vec![None, arc(f64::INFINITY, 1.0)]).is_empty());
    assert_eq!(lambert_branch(0, 3), Some(0));
    assert_eq!(lambert_branch(4, 3), Some(1));
    assert_eq!(lambert_branch(4, 0), None);
}

#[test]
fn tours_close_or_tell_why_not() {
    let f = |a: f64, b: f64| FlybySpeeds { incoming: scalar(a), outgoing: scalar(b) };
    assert_eq!(
        tour_verdict(&vec![true, false, false], &vec![]),
        TourVerdict::Unsolved { leg: 1 }
    );
    assert_eq!(
        tour_verdict(&vec![true, true, true], &vec![f(3.0, 3.0), f(3.0, 1e-4)]),
        TourVerdict::StalledFlyby { stop: 2 }
    );
    assert_eq!(
        tour_verdict(&vec![true, true], &vec![f(1e-3, 1e-3)]),
        TourVerdict::Closes
    );
    assert_eq!(unsolved_leg(&vec![true]), None);
    assert_eq!(
        flyby_stops(&vec![BodyId::Earth, BodyId::Venus, BodyId::Earth, BodyId::Jupiter]),
        vec![BodyId::Venus, BodyId::Earth]
    );
    assert!(flyby_stops(&vec![BodyId::Earth, BodyId::Mars]).is_empty());
}

#[test]
fn turns_and_samples() {
    assert_eq!(turn_kind(scalar(0.5), scalar(0.6)), Turn::Bent);
    assert_eq!(turn_kind(scalar(0.7), scalar(0.6)), Turn::Deficit);
    assert_eq!(turn_kind(scalar(1e-6), scalar(0.6)), Turn::Straight);
    assert_eq!(turn_kind(scalar(f64::NAN), scalar(0.6)), Turn::Straight);
    assert_eq!(samples_per_leg(240, 4), 60);
    assert_eq!(samples_per_leg(20, 4), 8);
    assert_eq!(samples_per_leg(20, 0), 20);
    assert_eq!((samples_of_part(3), samples_of_part(30)), (4, 30));
}

#[test]
fn refinement_keeps_the_worst_miss() {
    let mut r = Refinement::new(3);
    for (i, m) in [120.0, 250.0, 80.0].iter().enumerate() {
        assert_eq!(r.next_leg(), Some(i));
        r.record(Some(scalar(*m)));
    }
    assert!(r.is_refined());
    assert_eq!(r.worst_miss_km, scalar(250.0));
    let mut cut = Refinement::new(3);
    cut.record(Some(scalar(1.0)));
    cut.record(None);
    assert_eq!(cut.next_leg(), None);
    assert!(!cut.is_refined());
}
