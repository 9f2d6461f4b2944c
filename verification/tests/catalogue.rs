use orbital::bodies::{find_body, BodyId, ALL_BODIES, BODY_COUNT};
use orbital::physical::{au_km, c_km_s, elements, Decimal, CENTURY_D, DAY_S};
use orbital::problem::{
    arrival_charge, has_usable_atmosphere, is_gas_giant, target_periapsis_percent, ArrivalCharge,
    Engine, Evaluator, Genome, Launcher, LegBound, MissionType, Objective, SolverConfig,
};
use orbital::routes::{assist_alphabet, candidate_routes, route_name, route_text};
use orbital::scalar::Scalar;
use orbital::text::{
    chars_of, decimal_of, integer_of, joined, lines_of, natural_of, padded_of, pieces,
    same_ignoring_case, split_once, strip_prefix, text_of,
};

fn double(d: Decimal) -> f64 {
    d.mantissa as f64 / 10f64.powi(d.places as i32)
}

fn scalar(x: f64) -> Scalar {
    Scalar { bits: x.to_bits() }
}

fn text(v: &Vec<char>) -> String {
    text_of(v)
}

#[test]
fn index_matches_all_bodies_order() {
    for (i, b) in ALL_BODIES.iter().enumerate() {
        assert_eq!(b.index(), i, "{} out of order", b.name());
    }
}

#[test]
fn bodies_are_found_by_name_in_any_case() {
    for b in ALL_BODIES {
        assert_eq!(find_body(&chars_of(b.name())), Some(b));
        assert_eq!(find_body(&chars_of(&b.name().to_uppercase())), Some(b));
    }
    assert_eq!(find_body(&chars_of("gAnYmEdE")), Some(BodyId::Ganymede));
    assert_eq!(find_body(&chars_of("Vulcan")), None);
    assert_eq!(find_body(&chars_of("")), None);
}

#[test]
fn naif_ids_and_parents() {
    assert_eq!(BODY_COUNT, 21);
    assert_eq!(BodyId::Sun.naif_id(), 10);
    assert_eq!(BodyId::Moon.naif_id(), 301);
    assert_eq!(BodyId::Titan.naif_id(), 606);
    assert_eq!(BodyId::Moon.parent(), Some(BodyId::Earth));
    assert_eq!(BodyId::Triton.parent(), Some(BodyId::Neptune));
    assert_eq!(BodyId::Mars.parent(), None);
    for a in ALL_BODIES {
        for b in ALL_BODIES {
            assert_eq!(a == b, a.naif_id() == b.naif_id());
        }
    }
}

#[test]
fn tables_round_to_the_nearest_doubles() {
    assert_eq!(double(BodyId::Sun.gm()), 1.327_124_400_41e11);
    assert_eq!(double(BodyId::Earth.gm()), 3.986_004_354_36e5);
    assert_eq!(double(au_km()), 149_597_870.7);
    assert_eq!(double(c_km_s()), 299_792.458);
    assert_eq!(DAY_S, 86_400);
    assert_eq!(CENTURY_D, 36_525);
    assert_eq!(BodyId::Triton.period_micro_days() as f64 / 1e6, -5.876_854);
    assert_eq!(BodyId::Io.period_days().mantissa, 1_769_138);
    assert_eq!(BodyId::Io.period_days().places, 6);
    assert_eq!(BodyId::Io.moon_orbit_radius_km(), 421_700);
    assert_eq!(BodyId::Mars.moon_orbit_radius_km(), 0);
    let j = BodyId::Earth.j2_params().unwrap();
    assert_eq!(double(j.radius_km), 6_378.137);
    assert!(BodyId::Io.j2_params().is_none());
    for b in ALL_BODIES {
        assert!(b.gm().mantissa > 0 && b.radius_km().mantissa > 0);
        assert_eq!(b.moon_orbit_radius_km() > 0, b.parent().is_some());
    }
}

#[test]
fn every_body_but_the_sun_and_the_moons_has_elements() {
    for b in ALL_BODIES {
        assert_eq!(elements(b).is_some(), b != BodyId::Sun && b.parent().is_none());
    }
    let mars = elements(BodyId::Mars).unwrap();
    assert_eq!(mars.base[0] as f64 / 1e8, 1.523_710_34);
    assert_eq!(mars.base[3] as f64 / 1e8, -4.553_432_05);
    assert_eq!(mars.rate[3] as f64 / 1e8, 19_140.302_684_99);
}

#[test]
fn routes_to_mars() {
    assert_eq!(assist_alphabet(BodyId::Mars), vec![BodyId::Venus, BodyId::Earth]);
    let routes = candidate_routes(BodyId::Mars);
    assert_eq!(routes.len(), 15);
    let (v, e) = (BodyId::Venus, BodyId::Earth);
    assert_eq!(
        routes[..8],
        [
            vec![],
            vec![v],
            vec![v, v],
            vec![v, v, v],
            vec![v, v, e],
            vec![v, e],
            vec![v, e, v],
            vec![v, e, e],
        ]
    );
}

#[test]
fn routes_widen_with_distance() {
    assert_eq!(assist_alphabet(BodyId::Venus), vec![BodyId::Earth]);
    assert_eq!(candidate_routes(BodyId::Venus).len(), 4);
    assert_eq!(
        assist_alphabet(BodyId::Jupiter),
        vec![BodyId::Venus, BodyId::Earth, BodyId::Mars]
    );
    assert_eq!(candidate_routes(BodyId::Jupiter).len(), 40);
    assert_eq!(
        assist_alphabet(BodyId::Saturn),
        vec![BodyId::Venus, BodyId::Earth, BodyId::Mars, BodyId::Jupiter]
    );
    assert_eq!(candidate_routes(BodyId::Pluto).len(), 85);
}

#[test]
fn routes_are_distinct_and_avoid_the_target() {
    for target in ALL_BODIES {
        let routes = candidate_routes(target);
        assert!(routes[0].is_empty());
        for (i, r) in routes.iter().enumerate() {
            assert!(r.len() <= 3);
            assert!(!r.contains(&target));
            for s in &routes[..i] {
                assert_ne!(r, s);
            }
        }
    }
}

#[test]
fn assist_bodies_follow_the_semi_major_axes() {
    let width = |b: BodyId| (b.period_micro_days() as f64 / 1e6).abs().powi(2).cbrt();
    for target in ALL_BODIES {
        let got = assist_alphabet(target);
        let mut want = vec![BodyId::Venus, BodyId::Earth];
        if width(target) > 1.3 * width(BodyId::Earth) {
            want.push(BodyId::Mars);
        }
        if width(target) > 1.3 * width(BodyId::Jupiter) {
            want.push(BodyId::Jupiter);
        }
        want.retain(|b| *b != target);
        assert_eq!(got, want, "{}", target.name());
    }
}

#[test]
fn route_names() {
    assert_eq!(route_name(&vec![]), "direct");
    assert_eq!(route_name(&vec![BodyId::Venus, BodyId::Earth, BodyId::Earth]), "V-E-E");
    let mut cfg = SolverConfig::default();
    assert_eq!(route_text(&cfg), "auto (discovering)");
    cfg.auto_route = false;
    assert_eq!(route_text(&cfg), "direct");
    cfg.route = vec![BodyId::Venus, BodyId::Earth];
    assert_eq!(route_text(&cfg), "Venus-Earth");
}

#[test]
fn labels_and_hardware() {
    assert_eq!(Objective::TotalDv.label(), "min total Δv");
    assert_eq!(MissionType::Land.label(), "land");
    assert_eq!(Engine::NextC.label(), "2× NEXT-C ion (DART-class)");
    assert_eq!(Launcher::Sls.label(), "SLS Block 1 (C3 ≤ 93)");
    assert_eq!(Launcher::FalconHeavy.c3_max(), 60);
    assert_eq!(Engine::Aeps.thrust_isp(), Some((589, 2900)));
    assert_eq!(Engine::Ballistic.thrust_isp(), None);
    assert_eq!(Objective::ALL.len() + MissionType::ALL.len() + Launcher::ALL.len(), 9);
    assert_eq!(Engine::ALL.len(), 4);
}

#[test]
fn arrivals_are_charged_by_profile() {
    assert!(is_gas_giant(BodyId::Saturn) && !is_gas_giant(BodyId::Pluto));
    assert!(has_usable_atmosphere(BodyId::Titan) && !has_usable_atmosphere(BodyId::Moon));
    assert_eq!(arrival_charge(BodyId::Jupiter, MissionType::Land), ArrivalCharge::NoSurface);
    assert_eq!(arrival_charge(BodyId::Mars, MissionType::Land), ArrivalCharge::Entry);
    assert_eq!(arrival_charge(BodyId::Moon, MissionType::Land), ArrivalCharge::SoftLanding);
    assert_eq!(arrival_charge(BodyId::Mars, MissionType::Orbit), ArrivalCharge::Capture);
    assert_eq!(arrival_charge(BodyId::Jupiter, MissionType::Flyby), ArrivalCharge::Free);
    assert_eq!(target_periapsis_percent(MissionType::Orbit), 150);
    assert_eq!(target_periapsis_percent(MissionType::Land), 102);
    assert_eq!(target_periapsis_percent(MissionType::Flyby), 300);
}

#[test]
fn default_request() {
    let cfg = SolverConfig::default();
    assert_eq!(cfg.target, BodyId::Mars);
    assert!(cfg.auto_route && cfg.route.is_empty());
    assert_eq!(cfg.window_days, scalar(900.0));
    assert_eq!(cfg.tof_min_days, scalar(60.0));
    assert_eq!(cfg.tof_max_days, scalar(600.0));
    assert_eq!((cfg.seed, cfg.beam_width, cfg.mutations), (7, 12, 6));
    assert_eq!(cfg.sequence(), vec![BodyId::Earth, BodyId::Mars]);
    assert_eq!(cfg.max_direct_tof_days(), Some(scalar(600.0)));
}

#[test]
fn legs_of_a_tour() {
    let mut cfg = SolverConfig::default();
    cfg.route = vec![BodyId::Venus, BodyId::Earth, BodyId::Earth];
    cfg.target = BodyId::Jupiter;
    assert_eq!(
        cfg.leg_bounds(),
        vec![
            LegBound::Hohmann { from: BodyId::Earth, to: BodyId::Venus },
            LegBound::Hohmann { from: BodyId::Venus, to: BodyId::Earth },
            LegBound::Fixed { min_days: 250, max_days: 1500 },
            LegBound::Hohmann { from: BodyId::Earth, to: BodyId::Jupiter },
        ]
    );
    assert_eq!(cfg.max_direct_tof_days(), None);
    assert_eq!(cfg.evaluator(12), Evaluator::Tour);
    cfg.route = vec![];
    assert_eq!(cfg.evaluator(12), Evaluator::Direct);
    cfg.engine = Engine::Nstar;
    assert_eq!(cfg.evaluator(12), Evaluator::LowThrust);
    assert_eq!(cfg.evaluator(0), Evaluator::Direct);
}

#[test]
fn genes_of_a_leg() {
    let z = scalar(0.0);
    let g = Genome {
        depart_days: z,
        legs: vec![scalar(100.0), scalar(200.0)],
        vinf_dep: [z, z, z],
        thrust: vec![],
        dsm: vec![
            [scalar(0.5), z, scalar(-0.0), z],
            [scalar(0.5), z, scalar(0.25), z],
        ],
        branch: vec![3],
    };
    assert_eq!(g.leg_dsm(0), None);
    assert_eq!(g.leg_dsm(1), Some([scalar(0.5), z, scalar(0.25), z]));
    assert_eq!(g.leg_dsm(2), None);
    assert_eq!((g.leg_branch(0), g.leg_branch(1)), (3, 0));
}

#[test]
fn scalars_order_like_doubles() {
    let xs = [
        f64::NEG_INFINITY,
        -2.5,
        -0.0,
        0.0,
        1e-300,
        2.5,
        f64::INFINITY,
        f64::NAN,
        -f64::NAN,
    ];
    for a in xs {
        for b in xs {
            let (p, q) = (scalar(a), scalar(b));
            assert_eq!(p.less_than(q), a < b);
            assert_eq!(p.at_most(q), a <= b);
            assert_eq!(p.ranks_before(q), a.total_cmp(&b).is_lt());
            assert_eq!(p.is_finite(), a.is_finite());
            assert_eq!(p.is_nan(), a.is_nan());
            assert_eq!(p.is_zero(), a == 0.0);
            if !a.is_nan() && !b.is_nan() && a != b {
                assert_eq!(p.max(q), scalar(a.max(b)));
            }
        }
    }
    assert_eq!(scalar(f64::NAN).max(scalar(1.0)), scalar(1.0));
    assert_eq!(scalar(1.0).max(scalar(f64::NAN)), scalar(1.0));
    assert_eq!(Scalar::infinity(), scalar(f64::INFINITY));
    assert_eq!(Scalar::zero(), scalar(0.0));
}

#[test]
fn text_is_cut_as_the_standard_library_cuts_it() {
    for s in ["", ",", "a", "a,b", ",a,,b,", "Δ,v∞"] {
        let got: Vec<String> = pieces(&chars_of(s), ',').iter().map(text).collect();
        let want: Vec<String> = s.split(',').map(|p| p.to_string()).collect();
        assert_eq!(got, want);
        assert_eq!(text(&joined(&pieces(&chars_of(s), ','), ',')), s);
    }
    for s in ["", "\n", "a", "a\n", "a\r\nb\n\nc\r", "\r\n", "a\rb\n"] {
        let got: Vec<String> = lines_of(&chars_of(s)).iter().map(text).collect();
        let want: Vec<String> = s.lines().map(|p| p.to_string()).collect();
        assert_eq!(got, want);
    }
    let (k, v) = split_once(&chars_of("key=a=b"), '=').unwrap();
    assert_eq!((text(&k), text(&v)), ("key".to_string(), "a=b".to_string()));
    assert!(split_once(&chars_of("key"), '=').is_none());
    assert_eq!(text(&strip_prefix(&chars_of("via=x"), "via=").unwrap()), "x");
    assert!(strip_prefix(&chars_of("vi"), "via=").is_none());
    assert!(same_ignoring_case(&chars_of("MARS"), &chars_of("mars")));
    assert!(!same_ignoring_case(&chars_of("É"), &chars_of("é")));
}

#[test]
fn numbers_are_read_as_the_standard_library_reads_them() {
    for s in ["0", "7", "+12", "-3", "007", "", "+", "-", "1x", "2147483647", "2147483648",
        "-2147483648", "-2147483649", "99999999999999999999", "18446744073709551615",
        "18446744073709551616", "-0", "+-1"]
    {
        assert_eq!(integer_of(&chars_of(s)), s.parse::<i32>().ok(), "{s:?}");
        assert_eq!(natural_of(&chars_of(s), u64::MAX), s.parse::<u64>().ok(), "{s:?}");
    }
    assert_eq!(natural_of(&chars_of("256"), 255), None);
    for n in [0u64, 5, 42, 100, 65535, u64::MAX] {
        assert_eq!(text(&decimal_of(n)), format!("{n}"));
        assert_eq!(text(&padded_of(n, 4)), format!("{n:04}"));
        assert_eq!(natural_of(&decimal_of(n), u64::MAX), Some(n));
    }
}
