use orbital::auto::{
    headless_budget, live_budget, search_request, Auto, AutoBudget, Command, Reply, Stage,
};
use orbital::beam::{evals_per_step, improves, select_beam, stable_order};
use orbital::bodies::BodyId;
use orbital::identity::{genome_key, Buckets};
use orbital::incumbent::{restart_seed, Campaign, Incumbent, Turn};
use orbital::mutation::{mutate, Edit, GenomeShape};
use orbital::problem::{Engine, Genome, MissionType, SolverConfig, N_SEG};
use orbital::rng::Rng;
use orbital::scalar::Scalar;
use orbital::search::Search;
use orbital::seeding::{
    braking_segments, choose_draw, draw_timing, plan_seed, seed_branches, seed_burns, Aim, Channel,
    LegDraw, SeedDrawStats, SEED_DRAWS,
};

fn scalar(x: f64) -> Scalar {
    Scalar { bits: x.to_bits() }
}

fn scalars(xs: &[f64]) -> Vec<Scalar> {
    xs.iter().map(|x| scalar(*x)).collect()
}

#[test]
fn stream_of_seed_seven() {
    let mut r = Rng::new(7);
    assert_eq!(r.next(), 0x1cdb_abb0_290c_5e8b);
    assert_eq!(r.below(12), 8);
    assert_eq!(r.unit(), 3_169_726_122_560_853);
    let mut a = Rng::new(0);
    let mut b = Rng::new(1);
    for _ in 0..100 {
        assert_eq!(a.next(), b.next());
    }
    let mut c = a.clone();
    assert_eq!(a.next(), c.next());
}

#[test]
fn order_is_stable_and_total() {
    let s = scalars(&[3.0, f64::NAN, 1.0, 3.0, -0.0, 0.0, f64::NEG_INFINITY]);
    assert_eq!(stable_order(&s), vec![6, 4, 5, 2, 0, 3, 1]);
    assert_eq!(stable_order(&vec![]), Vec::<usize>::new());
}

#[test]
fn beam_keeps_the_best_of_each_idea() {
    let s = scalars(&[5.0, 2.0, 4.0, 2.0, 1.0, 9.0]);
    let keys = vec![1, 2, 2, 3, 1, 4];
    assert_eq!(select_beam(&s, &keys, 10), vec![4, 1, 3, 5]);
    assert_eq!(select_beam(&s, &keys, 2), vec![4, 1]);
    assert_eq!(select_beam(&s, &keys, 0), Vec::<usize>::new());
    assert_eq!(evals_per_step(12, 6), 73);
}

#[test]
fn improvement_is_strict() {
    assert!(improves(scalar(5.0), None));
    assert!(improves(scalar(1.0), Some(scalar(2.0))));
    assert!(!improves(scalar(2.0), Some(scalar(2.0))));
    assert!(!improves(scalar(f64::NAN), Some(scalar(2.0))));
}

#[test]
fn identity_is_fnv_over_the_genes() {
    let blank = Buckets {
        depart: 0,
        legs: vec![0],
        vinf_dep: [0, 0, 0],
        thrust: vec![],
        dsm: vec![],
        branch: vec![],
    };
    assert_eq!(genome_key(&blank), 0x40d6_9e0c_f0f6_5c45);
    let full = Buckets {
        depart: 1234,
        legs: vec![2500],
        vinf_dep: [-100, 250, 3],
        thrust: vec![[1, -2, 3]],
        dsm: vec![[25, 0, -7, 9]],
        branch: vec![2],
    };
    assert_eq!(genome_key(&full), 0x706a_61d1_7e60_e659);
}

#[test]
fn edits_of_a_direct_transfer() {
    let shape = GenomeShape { legs: 1, thrust: 0, dsm: 0, branch: 0 };
    assert_eq!(
        mutate(&mut Rng::new(7), &shape, false),
        vec![
            Edit::VinfAll {
                x: 3_169_726_122_560_853,
                y: 8_276_163_728_253_460,
                z: 3_886_038_328_919_735
            },
            Edit::LegCoarse { leg: 0, unit: 6_355_732_146_691_430 },
        ]
    );
}

#[test]
fn edits_of_a_tour() {
    let shape = GenomeShape { legs: 2, thrust: 0, dsm: 2, branch: 2 };
    assert_eq!(
        mutate(&mut Rng::new(7), &shape, true),
        vec![
            Edit::LegFine { leg: 0, unit: 7_851_251_957_891_715 },
            Edit::Depart { unit: 6_355_732_146_691_430 },
        ]
    );
}

#[test]
fn edits_of_a_thrust_profile() {
    let shape = GenomeShape { legs: 1, thrust: 12, dsm: 0, branch: 0 };
    let edits = mutate(&mut Rng::new(7), &shape, false);
    assert_eq!(edits.len(), 3);
    assert_eq!(edits[0], Edit::Reaim);
    assert_eq!(edits[2], Edit::Reaim);
    let mut rng = Rng::new(3);
    let mut kinds = [0; 3];
    for _ in 0..500 {
        for e in mutate(&mut rng, &shape, false) {
            match e {
                Edit::ThrustNudge { seg, axis, .. } => {
                    assert!(seg < 12 && axis < 3);
                    kinds[0] += 1;
                }
                Edit::ThrustScale { .. } => kinds[1] += 1,
                Edit::ThrustBurn { seg, .. } => {
                    assert!(seg < 12);
                    kinds[2] += 1;
                }
                _ => {}
            }
        }
    }
    assert!(kinds.iter().all(|n| *n > 50), "{kinds:?}");
}

#[test]
fn every_tour_edit_comes_up() {
    let shape = GenomeShape { legs: 3, thrust: 0, dsm: 3, branch: 3 };
    let mut rng = Rng::new(11);
    let mut seen = [false; 6];
    for _ in 0..2000 {
        for e in mutate(&mut rng, &shape, true) {
            match e {
                Edit::Branch { leg, branch } => {
                    assert!(leg < 3 && branch < 4);
                    seen[0] = true;
                }
                Edit::DsmZero { leg } => {
                    assert!(leg < 3);
                    seen[1] = true;
                }
                Edit::DsmSlide { .. } => seen[2] = true,
                Edit::DsmKick { axis, .. } => {
                    assert!(axis >= 1 && axis <= 3);
                    seen[3] = true;
                }
                Edit::LegResample { .. } => seen[4] = true,
                Edit::LegFine { .. } => seen[5] = true,
                Edit::Depart { .. } | Edit::LegCoarse { .. } => {}
                other => panic!("{other:?} in a tour"),
            }
        }
    }
    assert_eq!(seen, [true; 6]);
}

#[test]
fn seed_of_a_ballistic_transfer() {
    let plan = plan_seed(&mut Rng::new(7), &SolverConfig::default());
    assert_eq!(plan.channel, Some(Channel { uniform: false, pick: 8 }));
    assert_eq!(plan.draws.len(), SEED_DRAWS);
    assert_eq!(plan.draws[0].depart, 3_169_726_122_560_853);
    assert_eq!(plan.draws[0].legs, vec![LegDraw::Uniform { unit: 8_276_163_728_253_460 }]);
    assert!(matches!(plan.aim, Aim::Lambert { .. }));
}

#[test]
fn seeds_of_one_request_cost_the_same() {
    let cfg = SolverConfig::default();
    let (mut a, mut b) = (Rng::new(1), Rng::new(2));
    plan_seed(&mut a, &cfg);
    plan_seed(&mut b, &cfg);
    let (mut c, mut d) = (Rng::new(1), Rng::new(2));
    for _ in 0..2 + 2 * SEED_DRAWS + 3 {
        c.next();
        d.next();
    }
    assert_eq!(a.next(), c.next());
    assert_eq!(b.next(), d.next());
}

#[test]
fn seed_of_a_tour_and_of_electric_propulsion() {
    let mut cfg = SolverConfig::default();
    cfg.route = vec![BodyId::Venus, BodyId::Earth, BodyId::Earth];
    let plan = plan_seed(&mut Rng::new(7), &cfg);
    assert_eq!((plan.channel, plan.draws.len(), plan.aim), (None, 1, Aim::Tour));
    assert_eq!(plan.draws[0].legs.len(), 4);
    assert!(matches!(plan.draws[0].legs[2], LegDraw::Resonant { years: 1..=3, .. }));
    assert!(matches!(plan.draws[0].legs[3], LegDraw::Uniform { .. }));
    assert_eq!(seed_burns(&cfg, 4).len(), 4);
    assert_eq!(seed_burns(&cfg, 4)[0], [scalar(0.5), scalar(0.0), scalar(0.0), scalar(0.0)]);
    assert_eq!(seed_branches(&cfg, 4), vec![0, 0, 0, 0]);
    assert!(braking_segments(&cfg).is_empty());

    cfg.route = vec![];
    cfg.engine = Engine::Nstar;
    let draw = draw_timing(&mut Rng::new(7), &cfg);
    assert!(matches!(draw.legs[0], LegDraw::Long { .. }));
    let brake = braking_segments(&cfg);
    assert_eq!(brake.len(), N_SEG);
    assert_eq!(brake.iter().filter(|b| **b).count(), N_SEG / 2);
    cfg.mission = MissionType::Flyby;
    assert!(braking_segments(&cfg).iter().all(|b| !b));
    let draw = draw_timing(&mut Rng::new(7), &cfg);
    assert!(matches!(draw.legs[0], LegDraw::Uniform { .. }));
    assert!(seed_burns(&cfg, 1).is_empty() && seed_branches(&cfg, 1).is_empty());
}

#[test]
fn timings_are_kept_by_channel() {
    let mut stats = SeedDrawStats::default();
    assert_eq!(stats.feasible_rate(), None);
    let mut c3 = scalars(&[99.0; 12]);
    c3[4] = scalar(50.0);
    c3[7] = scalar(60.0);
    c3[9] = scalar(98.0);
    let cap = scalar(60.0);
    let uniform = Channel { uniform: true, pick: 5 };
    let feasible = Channel { uniform: false, pick: 5 };
    assert_eq!(choose_draw(uniform, &c3, cap, &mut stats), 0);
    assert_eq!(choose_draw(feasible, &c3, cap, &mut stats), 7);
    assert_eq!(choose_draw(feasible, &c3, scalar(10.0), &mut stats), 4);
    assert_eq!(
        stats,
        SeedDrawStats {
            uniform_genomes: 1,
            feasible_genomes: 2,
            feasible_misses: 1,
            draws: 36,
            draws_feasible: 4,
        }
    );
    assert_eq!(stats.feasible_rate(), Some((4, 36)));
}

/// A candidate that tells apart by its departure.
fn candidate(n: u64) -> Genome {
    Genome {
        depart_days: scalar(n as f64),
        legs: scalars(&[200.0]),
        vinf_dep: [scalar(0.0); 3],
        thrust: Vec::new(),
        dsm: Vec::new(),
        branch: Vec::new(),
    }
}

#[test]
fn two_searches_of_one_seed_agree() {
    let run = || {
        let mut s = Search::new(SolverConfig::default());
        let plans = s.seed_beam();
        assert_eq!(plans.len(), 12);
        let scores: Vec<Scalar> =
            plans.iter().map(|p| scalar((p.draws[0].depart % 1000) as f64)).collect();
        let keys: Vec<u64> = plans.iter().map(|p| p.draws[0].depart).collect();
        let pool: Vec<Genome> =
            plans.iter().map(|p| candidate(p.draws[0].depart % 1000)).collect();
        s.settle(&pool, &scores, &keys);
        let mut leaders = vec![s.leader().unwrap()];
        for _ in 0..20 {
            let width = s.width();
            let gen = s.expand();
            assert_eq!(gen.children.len(), width * 6);
            let mut scores = Vec::new();
            let mut keys = Vec::new();
            let mut born = Vec::new();
            for (i, c) in gen.children.iter().enumerate() {
                assert_eq!(c.parent, i / 6);
                let h = c.edits.iter().fold(i as u64, |h, e| match e {
                    Edit::Depart { unit } | Edit::LegCoarse { unit, .. } => h ^ unit,
                    _ => h + 1,
                });
                scores.push(scalar((h % 997) as f64));
                keys.push(h);
                born.push(candidate(h % 997));
            }
            let fresh = gen.fresh.draws[0].depart;
            scores.push(scalar((fresh % 997) as f64));
            keys.push(fresh);
            born.push(candidate(fresh % 997));
            let places = s.select(&born, &scores, &keys);
            assert!(!places.is_empty() && places.len() <= 12);
            let (top, g) = s.top().unwrap();
            assert_eq!((top, g.depart_days), (s.leader().unwrap(), s.leader().unwrap()));
            leaders.push(top);
        }
        let genes: Vec<Scalar> = s.beam_genomes().iter().map(|g| g.depart_days).collect();
        assert_eq!(genes, s.scores);
        (leaders, genes)
    };
    let (a, b) = (run(), run());
    assert_eq!(a, b);
    for w in a.0.windows(2) {
        assert!(w[1].at_most(w[0]), "the beam got worse");
    }
}

#[test]
fn settled_beams_are_sorted_and_distinct() {
    let mut s = Search::new(SolverConfig::default());
    let pool: Vec<Genome> = (0..4).map(candidate).collect();
    s.settle(&pool, &scalars(&[4.0, 3.0, 2.0, 1.0]), &vec![40, 30, 20, 10]);
    let born: Vec<Genome> = (4..7).map(candidate).collect();
    let places = s.select(&born, &scalars(&[2.5, 1.0, 0.5]), &vec![30, 10, 50]);
    // The old beam counts first, best first: places 0 to 3.
    assert_eq!(places, vec![6, 0, 1, 4, 3]);
    assert_eq!(s.scores, scalars(&[0.5, 1.0, 2.0, 2.5, 4.0]));
    assert_eq!(s.keys, vec![50, 10, 20, 30, 40]);
    let genes: Vec<f64> =
        s.beam_genomes().iter().map(|g| f64::from_bits(g.depart_days.bits)).collect();
    assert_eq!(genes, vec![6.0, 3.0, 2.0, 4.0, 0.0]);
    let empty = Search::new(SolverConfig::default());
    assert!(empty.top().is_none());
}

#[test]
fn draws_are_counted_by_the_search() {
    let mut s = Search::new(SolverConfig::default());
    let kept = s.keep_timing(
        Channel { uniform: false, pick: 0 },
        &scalars(&[9.0, 8.0, 7.0, 6.0, 5.0, 4.0, 3.0, 2.0, 1.0, 2.0, 3.0, 4.0]),
        scalar(1.5),
    );
    assert_eq!(kept, 8);
    assert_eq!(s.seed_draw_stats().draws, 12);
    assert_eq!(s.seed_draw_stats().draws_feasible, 1);
}

#[test]
fn incumbents_fall_only() {
    let mut i = Incumbent::new();
    assert!(i.offer(scalar(5.0)));
    assert!(i.crown(scalar(5.5)));
    assert!(!i.offer(scalar(5.0)));
    i.begin();
    assert!(i.offer(scalar(6.0)));
    assert!(!i.crown(scalar(6.0)));
    assert!(i.offer(scalar(4.0)));
    assert!(i.crown(scalar(4.5)));
    assert_eq!(i.overall, Some(scalar(4.5)));
    assert_eq!(i.local, scalar(4.0));
    assert_eq!(restart_seed(7, 3), 10);
}

#[test]
fn the_last_seed_can_be_searched() {
    let mut c = Campaign::new(u64::MAX, 1, 1);
    assert_eq!(c.advance(), Turn::Begin { seed: u64::MAX });
    assert_eq!(c.advance(), Turn::Generation { seed: u64::MAX, step: 0 });
    assert_eq!(c.advance(), Turn::Done);
    assert_eq!(Campaign::new(u64::MAX, 1, 0).advance(), Turn::Done);
}

#[test]
fn campaigns_run_every_generation() {
    let mut c = Campaign::new(7, 2, 2);
    let mut turns = Vec::new();
    loop {
        let t = c.advance();
        turns.push(t);
        if t == Turn::Done {
            break;
        }
    }
    assert_eq!(
        turns,
        vec![
            Turn::Begin { seed: 7 },
            Turn::Generation { seed: 7, step: 0 },
            Turn::Generation { seed: 7, step: 1 },
            Turn::Begin { seed: 8 },
            Turn::Generation { seed: 8, step: 0 },
            Turn::Generation { seed: 8, step: 1 },
            Turn::Done,
        ]
    );
    let mut none = Campaign::new(7, 0, 2);
    assert_eq!(none.advance(), Turn::Begin { seed: 7 });
    assert_eq!(none.advance(), Turn::Begin { seed: 8 });
    assert_eq!(none.advance(), Turn::Done);
}

fn discover(target: BodyId, budget: AutoBudget, score: impl Fn(usize, bool, usize) -> f64)
    -> (Vec<String>, Vec<f64>, Vec<(usize, bool)>, Auto)
{
    let mut a = Auto::new(target, budget);
    let (mut told, mut shown, mut begun) = (Vec::new(), Vec::new(), Vec::new());
    let mut at = (0, false);
    let mut ran = vec![[0usize; 2]; a.routes.len()];
    let mut replies = 0;
    loop {
        replies += 1;
        assert!(replies < 100_000);
        match a.command() {
            Command::Poll => {
                a.advance(Reply::Running { go: true });
            }
            Command::Begin { route, second } => {
                told.extend(a.status());
                begun.push((route, second));
                at = (route, second);
                a.advance(Reply::Ready);
            }
            Command::Resume { route, second } => {
                told.extend(a.status());
                at = (route, second);
                a.advance(Reply::Ready);
            }
            Command::Step => {
                let n = &mut ran[at.0][at.1 as usize];
                let s = score(at.0, at.1, *n);
                *n += 1;
                if a.advance(Reply::Scored { evals: 73, score: scalar(s) }) {
                    shown.push(s);
                }
            }
            Command::Stop => break,
        }
    }
    (told, shown, begun, a)
}

#[test]
fn discovery_screens_refines_and_polishes() {
    let budget = AutoBudget { screen: 2, refine: 3, polish: 4 };
    // Route 9 is the best; its second search reaches lower still.
    let (told, shown, begun, a) = discover(BodyId::Mars, budget, |route, second, n| {
        let base = if route == 9 { 10.0 } else { 100.0 + route as f64 };
        base - (n as f64) * 0.25 - if second { 3.0 } else { 0.0 }
    });
    assert_eq!(told[0], "screening direct (1/15)");
    assert_eq!(told[1], "screening V (2/15)");
    assert_eq!(told[14], "screening E-E-E (15/15)");
    assert_eq!(told[15], "refining E-V");
    assert_eq!(told.len(), 15 + 5 + 1);
    assert_eq!(told[20], "polishing E-V");
    let mut want: Vec<(usize, bool)> = (0..15).map(|i| (i, false)).collect();
    want.extend([(9, true), (0, true), (1, true), (2, true), (3, true)]);
    assert_eq!(begun, want);
    for w in shown.windows(2) {
        assert!(w[1] < w[0]);
    }
    assert_eq!(a.stage, Stage::Finished);
    assert_eq!(a.best, scalar(*shown.last().unwrap()));
    // Two routes of one stop, four of two, eight of three, and the direct one.
    let screened = 2 * (1 + 2 * 2 + 4 * 3 + 8 * 4);
    assert_eq!(a.evals, 73 * (screened + 5 * 2 * 3 + 4));
    assert!(a.contenders[a.winner].second && a.contenders[a.winner].route == 9);
}

#[test]
fn discovery_stops_when_told() {
    let mut a = Auto::new(BodyId::Mars, headless_budget(400));
    assert_eq!(a.budget, AutoBudget { screen: 120, refine: 600, polish: 400 });
    assert_eq!(a.command(), Command::Poll);
    a.advance(Reply::Running { go: true });
    assert_eq!(a.command(), Command::Begin { route: 0, second: false });
    a.advance(Reply::Ready);
    assert_eq!(a.command(), Command::Poll);
    a.advance(Reply::Running { go: true });
    assert_eq!(a.command(), Command::Step);
    assert!(a.advance(Reply::Scored { evals: 73, score: scalar(3.0) }));
    a.advance(Reply::Running { go: false });
    assert_eq!(a.command(), Command::Stop);
    assert_eq!(a.evals, 73);
    assert_eq!(live_budget().polish, usize::MAX);
}

#[test]
fn discovery_without_generations_ends() {
    let (told, shown, _, a) =
        discover(BodyId::Venus, AutoBudget { screen: 0, refine: 0, polish: 0 }, |_, _, _| 1.0);
    assert_eq!(told.len(), 4 + 4 + 1);
    assert!(shown.is_empty());
    assert_eq!(a.evals, 0);
}

#[test]
fn searches_of_a_discovery() {
    let mut cfg = SolverConfig::default();
    cfg.seed = u64::MAX;
    let r = search_request(&cfg, &vec![BodyId::Venus], false);
    assert!(!r.auto_route);
    assert_eq!((r.route.clone(), r.seed), (vec![BodyId::Venus], u64::MAX));
    assert_eq!(search_request(&cfg, &vec![], true).seed, 999);
}
