use hifitime::{Duration, Epoch};
use orbital::bodies::BodyId;
use orbital::cli::{
    headless_request, launch_mode, parse_args, parse_search_args, ArgError, Launch, DEFAULT_STEPS,
};
use orbital::dates::{
    date_label, day_of, default_start, midnight_utc, parse_date, start_epoch, Date, DateError,
    Instant,
};
use orbital::problem::{Engine, MissionType};

fn args(s: &str) -> Vec<String> {
    s.split_whitespace().map(|a| a.to_string()).collect()
}

fn epoch(at: Instant) -> Epoch {
    Epoch::from_utc_duration(Duration::from_parts(at.centuries, at.nanoseconds))
}

#[test]
fn launch_words() {
    assert_eq!(launch_mode(&args("orbital")), Launch::Window);
    assert_eq!(launch_mode(&args("orbital search Mars")), Launch::Search);
    assert_eq!(launch_mode(&args("orbital tour")), Launch::Tour);
    assert_eq!(launch_mode(&args("orbital Search")), Launch::Window);
    assert_eq!(launch_mode(&vec![]), Launch::Window);
}

#[test]
fn documented_search_lines() {
    let h = headless_request(&args("Mars 2026-07-20")).unwrap();
    assert_eq!(h.request.cfg.target, BodyId::Mars);
    assert!(h.request.cfg.auto_route);
    assert_eq!(h.request.steps, DEFAULT_STEPS);
    assert_eq!(epoch(h.start), Epoch::from_gregorian_utc_at_midnight(2026, 7, 20));

    let h = headless_request(&args("Jupiter 2028-01-01 via=venus,earth,earth steps=1500")).unwrap();
    assert_eq!(h.request.cfg.target, BodyId::Jupiter);
    assert!(!h.request.cfg.auto_route);
    assert_eq!(h.request.cfg.route, vec![BodyId::Venus, BodyId::Earth, BodyId::Earth]);
    assert_eq!(h.request.steps, 1500);
    assert_eq!(epoch(h.start), Epoch::from_gregorian_utc_at_midnight(2028, 1, 1));

    let h = headless_request(&args("Mars 2026-11-01 via=direct save=mission.orbital")).unwrap();
    assert!(!h.request.cfg.auto_route && h.request.cfg.route.is_empty());
    assert_eq!(h.request.save, Some("mission.orbital".to_string()));
}

#[test]
fn options_are_read() {
    let q = parse_args(&args("mode=land engine=nextc beam=30 seed=99 steps=10 restarts=4")).unwrap();
    assert_eq!(q.cfg.mission, MissionType::Land);
    assert_eq!(q.cfg.engine, Engine::NextC);
    assert_eq!((q.cfg.beam_width, q.cfg.seed, q.steps, q.restarts), (30, 99, 10, 4));
    let q = parse_args(&args("engine=warp beam=x seed=-1 steps=x restarts=0")).unwrap();
    assert_eq!(q.cfg.engine, Engine::Ballistic);
    assert_eq!((q.cfg.beam_width, q.cfg.seed, q.steps, q.restarts), (12, 7, 400, 1));
    let q = parse_args(&args("steps=5 steps=x via=none via=mars via=Venus")).unwrap();
    assert_eq!(q.steps, 400);
    assert_eq!(q.cfg.route, vec![BodyId::Mars, BodyId::Venus]);
    assert!(!q.cfg.auto_route);
    assert_eq!(q.save, None);
}

#[test]
fn refusals_name_the_culprit() {
    let refused = |s: &str| match headless_request(&args(s)) {
        Err(e) => format!("{e:?}"),
        Ok(_) => "accepted".to_string(),
    };
    assert_eq!(refused("Mars via=venus,vulcan,krypton"), "UnknownFlyby(\"vulcan\")");
    assert_eq!(refused("Mars via=venus,"), "UnknownFlyby(\"\")");
    assert_eq!(refused("Mars mode=crash"), "UnknownMode(\"crash\")");
    assert_eq!(refused("Vulcan"), "UnknownBody(\"Vulcan\")");
    assert_eq!(refused("Mars 2026/07/20"), "BadDate(\"2026/07/20\")");
    assert_eq!(refused("Mars 2026-02-29"), "NoSuchDay(\"2026-02-29\")");
    // Arguments are refused before the target, and the target before the date.
    assert_eq!(refused("Vulcan mode=crash 1-2"), "UnknownMode(\"crash\")");
    assert_eq!(refused("Vulcan 2026/07/20"), "UnknownBody(\"Vulcan\")");
    assert_eq!(refused("Mars"), "accepted");
    assert_eq!(refused(""), "accepted");
}

#[test]
fn dates_start_with_a_digit_and_have_eight_bytes() {
    let start = |s: &str| headless_request(&args(s)).unwrap().start;
    assert_eq!(start("Mars 1-2-3"), default_start());
    assert_eq!(start("Mars x026-07-20"), default_start());
    assert_eq!(epoch(start("Mars 2030-1-2 2031-1-2")), Epoch::from_gregorian_utc_at_midnight(2030, 1, 2));
    // Lengths are in bytes: these have seven and nine.
    assert!(headless_request(&args("Mars 1ééé")).is_ok());
    assert!(matches!(headless_request(&args("Mars 1éééé")), Err(ArgError::BadDate(_))));
}

#[test]
fn tours_pass_over_what_they_do_not_know() {
    let (cfg, start) = parse_search_args(&args("Jupiter via=venus,earth,earth")).unwrap();
    assert_eq!(cfg.target, BodyId::Jupiter);
    assert_eq!(cfg.route.len(), 3);
    assert_eq!(start, None);
    let (cfg, start) = parse_search_args(&args("Vulcan 2026/07/20")).unwrap();
    assert_eq!(cfg.target, BodyId::Mars);
    assert_eq!(start, None);
    let (_, start) = parse_search_args(&args("Venus 2027-03-04")).unwrap();
    assert_eq!(epoch(start.unwrap()), Epoch::from_gregorian_utc_at_midnight(2027, 3, 4));
    assert!(matches!(parse_search_args(&args("x 2027-13-04")), Err(ArgError::NoSuchDay(_))));
    assert!(matches!(parse_search_args(&args("x via=y")), Err(ArgError::UnknownFlyby(_))));
}

#[test]
fn midnights_are_counted_from_1900() {
    assert_eq!(
        midnight_utc(&Date { year: 1900, month: 1, day: 1 }),
        Instant { centuries: 0, nanoseconds: 0 }
    );
    assert_eq!(
        default_start(),
        Instant { centuries: 1, nanoseconds: 837_734_400_000_000_000 }
    );
    assert_eq!(
        midnight_utc(&Date { year: 1899, month: 12, day: 31 }),
        Instant { centuries: -1, nanoseconds: 3_155_673_600_000_000_000 }
    );
}

#[test]
fn midnights_lie_in_their_days() {
    let mut at = default_start();
    for (y, m, d) in [(1, 1, 1), (0, 2, 29), (1600, 2, 29), (1899, 12, 31), (1900, 2, 28),
        (1972, 6, 30), (2000, 2, 29), (2016, 12, 31), (2100, 3, 1), (-44, 3, 15),
        (3_000_000, 12, 31), (-3_000_000, 1, 1)]
    {
        let date = Date { year: y, month: m, day: d };
        assert!(date.is_valid());
        at = midnight_utc(&date);
        assert_eq!(day_of(&at), date);
        let last = Instant { nanoseconds: at.nanoseconds + 86_399_999_999_999, ..at };
        if last.nanoseconds < 3_155_760_000_000_000_000 {
            assert_eq!(day_of(&last), date);
        }
        assert_eq!(epoch(at), Epoch::from_gregorian_utc_at_midnight(y, m, d));
    }
    assert_eq!(at.centuries, -30019);
}

#[test]
fn the_first_and_the_last_century_have_days() {
    const FULL: u64 = 3_155_760_000_000_000_000;
    let day = |centuries: i16, nanoseconds: u64| {
        let at = Instant { centuries, nanoseconds };
        assert!(at.is_normal());
        let d = day_of(&at);
        (d.year, d.month, d.day)
    };
    assert_eq!(day(i16::MIN, 0), (-3_274_968, 9, 18));
    assert_eq!(day(i16::MIN, FULL - 1), (-3_274_868, 9, 18));
    assert_eq!(day(i16::MAX, 0), (3_278_667, 4, 15));
    assert_eq!(day(i16::MAX, FULL - 1), (3_278_767, 4, 15));
    assert_eq!(day(i16::MAX, FULL), (3_278_767, 4, 16));
    assert!(!Instant { centuries: 0, nanoseconds: FULL }.is_normal());
}

#[test]
fn days_count_up_through_the_calendar() {
    let mut at = midnight_utc(&Date { year: 1999, month: 12, day: 31 });
    let mut seen = 0;
    for year in 2000..2005 {
        for month in 1..=12u8 {
            for day in 1..=31u8 {
                let date = Date { year, month, day };
                if date.is_valid() {
                    let next = midnight_utc(&date);
                    let step = (next.centuries as i128 - at.centuries as i128)
                        * 3_155_760_000_000_000_000
                        + next.nanoseconds as i128
                        - at.nanoseconds as i128;
                    assert_eq!(step, 86_400_000_000_000);
                    at = next;
                    seen += 1;
                }
            }
        }
    }
    assert_eq!(seen, 366 + 365 + 365 + 365 + 366);
}

#[test]
fn dates_are_three_whole_numbers() {
    assert_eq!(parse_date("2026-07-20"), Some(Date { year: 2026, month: 7, day: 20 }));
    assert_eq!(parse_date("2026-x-07-20"), Some(Date { year: 2026, month: 7, day: 20 }));
    assert_eq!(parse_date("2026-263--2-y"), Some(Date { year: 2026, month: 7, day: 2 }));
    assert_eq!(parse_date("2026-263-20"), Some(Date { year: 2026, month: 7, day: 20 }));
    assert_eq!(parse_date("2026-07"), None);
    assert_eq!(parse_date("1-2-3-4"), None);
    assert_eq!(start_epoch("2026-07"), Err(DateError::Shape));
    assert_eq!(start_epoch("2026-13-01"), Err(DateError::NoSuchDay));
    assert_eq!(start_epoch("2100-02-29"), Err(DateError::NoSuchDay));
    assert_eq!(start_epoch("2026-04-31"), Err(DateError::NoSuchDay));
    assert_eq!(start_epoch("9999999-01-01"), Err(DateError::NoSuchDay));
    assert_eq!(start_epoch("2026-07-20"), Ok(default_start()));
}

#[test]
fn labels_are_read_back() {
    for (y, m, d) in [(0, 1, 1), (7, 12, 31), (2026, 7, 20), (12345, 6, 7)] {
        let date = Date { year: y, month: m, day: d };
        assert_eq!(date_label(&date), format!("{y:04}-{m:02}-{d:02}"));
        assert_eq!(parse_date(&date_label(&date)), Some(date));
    }
    let old = Date { year: -44, month: 3, day: 15 };
    assert_eq!(date_label(&old), "-044-03-15");
    assert_ne!(parse_date(&date_label(&old)), Some(old));
}
