//! The command line: what is launched, and the request that the arguments of
//! `search` and `tour` make.

use crate::bodies::{
    body_found_by_name, body_named, find_body, is_letter, names_are_letters,
    no_body_is_a_route_word, BodyId,
};
use crate::dates::{
    date_in, default_start, midnight_parts, start_epoch, Date, DateError, Instant, CENTURY_NS,
    DAY_NS,
};
use crate::mission::engine_token;
use crate::problem::{
    default_setup, find_mission, mission_found_by_label, mission_labelled, Engine, MissionType,
    Setup, SolverConfig,
};
use crate::text::{
    after_prefix, chars_of, decimal, free_of, is_digit, join, natural, natural_of,
    natural_of_decimal, pieces, slice_of, spells, split, split_undoes_join, strip_prefix, text_of,
    views,
};
use vstd::prelude::*;

verus! {

// ---------------------------------------------------------------- launch

/// What is launched.
#[derive(Clone, Copy, Debug, PartialEq, Eq, Structural)]
pub enum Launch {
    /// A search without a window.
    Search,
    /// The window, with a search request filled in.
    Tour,
    Window,
}

/// The characters of each argument.
pub open spec fn texts(args: Seq<String>) -> Seq<Seq<char>> {
    args.map_values(|s: String| s@)
}

/// What the arguments, the program's own name among them, launch.
pub fn launch_mode(args: &Vec<String>) -> (r: Launch)
    ensures
        r == (if args@.len() > 1 && args@[1]@ == "tour"@ {
            Launch::Tour
        } else if args@.len() > 1 && args@[1]@ == "search"@ {
            Launch::Search
        } else {
            Launch::Window
        }),
{
    if args.len() > 1 {
        let word: Vec<char> = chars_of(args[1].as_str());
        if spells(&word, "tour") {
            Launch::Tour
        } else if spells(&word, "search") {
            Launch::Search
        } else {
            Launch::Window
        }
    } else {
        Launch::Window
    }
}

// ---------------------------------------------------------------- request

/// Generations of a headless search when nothing is said.
pub const DEFAULT_STEPS: usize = 400;

/// What the arguments ask for.
pub struct Request {
    pub cfg: SolverConfig,
    /// Generations per search.
    pub steps: usize,
    /// Searches from successive seeds.
    pub restarts: usize,
    /// Where to write the winner.
    pub save: Option<String>,
}

/// What the arguments ask for.
pub struct Asked {
    pub setup: Setup,
    pub steps: usize,
    pub restarts: usize,
    pub save: Option<Seq<char>>,
}

impl View for Request {
    type V = Asked;

    open spec fn view(&self) -> Asked {
        Asked {
            setup: self.cfg@,
            steps: self.steps,
            restarts: self.restarts,
            save: match self.save {
                Some(s) => Some(s@),
                None => None,
            },
        }
    }
}

/// Why the arguments are refused.
#[derive(Debug)]
pub enum ArgError {
    /// No body of that name to fly past.
    UnknownFlyby(String),
    /// No mission profile of that label.
    UnknownMode(String),
    /// No body of that name to fly to.
    UnknownBody(String),
    /// Not a date of the form YYYY-MM-DD.
    BadDate(String),
    /// A date that the calendar does not have.
    NoSuchDay(String),
}

/// Why the arguments are refused.
pub enum Refusal {
    UnknownFlyby(Seq<char>),
    UnknownMode(Seq<char>),
    UnknownBody(Seq<char>),
    BadDate(Seq<char>),
    NoSuchDay(Seq<char>),
}

impl View for ArgError {
    type V = Refusal;

    open spec fn view(&self) -> Refusal {
        match self {
            ArgError::UnknownFlyby(s) => Refusal::UnknownFlyby(s@),
            ArgError::UnknownMode(s) => Refusal::UnknownMode(s@),
            ArgError::UnknownBody(s) => Refusal::UnknownBody(s@),
            ArgError::BadDate(s) => Refusal::BadDate(s@),
            ArgError::NoSuchDay(s) => Refusal::NoSuchDay(s@),
        }
    }
}

/// The engine that `engine=` asks for; anything unknown flies without one.
pub open spec fn engine_asked(s: Seq<char>) -> Engine {
    if s == "nstar"@ {
        Engine::Nstar
    } else if s == "next"@ || s == "nextc"@ {
        Engine::NextC
    } else if s == "aeps"@ {
        Engine::Aeps
    } else {
        Engine::Ballistic
    }
}

fn read_engine(s: &Vec<char>) -> (r: Engine)
    ensures
        r == engine_asked(s@),
{
    if spells(s, "nstar") {
        Engine::Nstar
    } else if spells(s, "next") || spells(s, "nextc") {
        Engine::NextC
    } else if spells(s, "aeps") {
        Engine::Aeps
    } else {
        Engine::Ballistic
    }
}

/// The route extended by the bodies named, or the first name of none.
pub open spec fn route_asked(route: Seq<BodyId>, names: Seq<Seq<char>>) -> Result<
    Seq<BodyId>,
    Seq<char>,
>
    decreases names.len(),
{
    if names.len() == 0 {
        Ok(route)
    } else {
        match route_asked(route, names.drop_last()) {
            Ok(r) => match body_named(names.last()) {
                Some(b) => Ok(r.push(b)),
                None => Err(names.last()),
            },
            Err(name) => Err(name),
        }
    }
}

/// A number at most `max`, or else what stands instead.
pub open spec fn number_or(s: Seq<char>, max: int, instead: int) -> int {
    match natural(s, max) {
        Some(n) => n,
        None => instead,
    }
}

/// The request after one more argument.
pub open spec fn take_arg(a: Asked, arg: Seq<char>) -> Result<Asked, Refusal> {
    if let Some(list) = after_prefix(arg, "via="@) {
        if list == "direct"@ || list == "none"@ {
            Ok(Asked { setup: Setup { auto_route: false, ..a.setup }, ..a })
        } else {
            match route_asked(a.setup.route, split(list, ',')) {
                Ok(route) => Ok(Asked { setup: Setup { auto_route: false, route, ..a.setup }, ..a }),
                Err(name) => Err(Refusal::UnknownFlyby(name)),
            }
        }
    } else if let Some(m) = after_prefix(arg, "mode="@) {
        match mission_labelled(m) {
            Some(mission) => Ok(Asked { setup: Setup { mission, ..a.setup }, ..a }),
            None => Err(Refusal::UnknownMode(m)),
        }
    } else if let Some(e) = after_prefix(arg, "engine="@) {
        Ok(Asked { setup: Setup { engine: engine_asked(e), ..a.setup }, ..a })
    } else if let Some(v) = after_prefix(arg, "beam="@) {
        let beam_width = number_or(v, usize::MAX as int, a.setup.beam_width as int) as usize;
        Ok(Asked { setup: Setup { beam_width, ..a.setup }, ..a })
    } else if let Some(v) = after_prefix(arg, "seed="@) {
        let seed = number_or(v, u64::MAX as int, a.setup.seed as int) as u64;
        Ok(Asked { setup: Setup { seed, ..a.setup }, ..a })
    } else if let Some(v) = after_prefix(arg, "steps="@) {
        Ok(Asked { steps: number_or(v, usize::MAX as int, DEFAULT_STEPS as int) as usize, ..a })
    } else if let Some(v) = after_prefix(arg, "restarts="@) {
        let n = number_or(v, usize::MAX as int, 1);
        Ok(
            Asked {
                restarts: if n < 1 {
                    1
                } else {
                    n as usize
                },
                ..a
            },
        )
    } else if let Some(v) = after_prefix(arg, "save="@) {
        Ok(Asked { save: Some(v), ..a })
    } else {
        Ok(a)
    }
}

/// The request when nothing is asked.
pub open spec fn nothing_asked() -> Asked {
    Asked { setup: default_setup(), steps: DEFAULT_STEPS, restarts: 1, save: None }
}

/// The request that the arguments make, or the first refusal.
pub open spec fn take_args(args: Seq<Seq<char>>) -> Result<Asked, Refusal>
    decreases args.len(),
{
    if args.len() == 0 {
        Ok(nothing_asked())
    } else {
        match take_args(args.drop_last()) {
            Ok(a) => take_arg(a, args.last()),
            Err(e) => Err(e),
        }
    }
}

/// Whether `r` is the value or the refusal that `s` says.
pub open spec fn agrees(r: Result<Request, ArgError>, s: Result<Asked, Refusal>) -> bool {
    match r {
        Ok(x) => s matches Ok(y) && x@ == y,
        Err(e) => s matches Err(f) && e@ == f,
    }
}

fn route_of(route: Vec<BodyId>, names: &Vec<Vec<char>>) -> (r: Result<Vec<BodyId>, Vec<char>>)
    ensures
        match r {
            Ok(x) => route_asked(route@, views(names@)) == Ok::<Seq<BodyId>, Seq<char>>(x@),
            Err(n) => route_asked(route@, views(names@)) == Err::<Seq<BodyId>, Seq<char>>(n@),
        },
{
    let ghost start = route@;
    let ghost all = views(names@);
    let mut r: Vec<BodyId> = route;
    let mut i: usize = 0;
    assert(all.take(0) =~= Seq::empty());
    while i < names.len()
        invariant
            i <= names.len(),
            all == views(names@),
            start == route@,
            route_asked(start, all.take(i as int)) == Ok::<Seq<BodyId>, Seq<char>>(r@),
        decreases names.len() - i,
    {
        assert(all.take(i + 1).drop_last() =~= all.take(i as int));
        assert(all.take(i + 1).last() == names@[i as int]@);
        match find_body(&names[i]) {
            Some(b) => {
                r.push(b);
            },
            None => {
                proof {
                    first_stranger_decides(start, all, i + 1);
                }
                let name: Vec<char> = slice_of(&names[i], 0, names[i].len());
                assert(name@ =~= names@[i as int]@);
                return Err(name);
            },
        }
        i = i + 1;
    }
    assert(all.take(i as int) =~= all);
    Ok(r)
}

proof fn first_stranger_decides(route: Seq<BodyId>, names: Seq<Seq<char>>, n: int)
    requires
        0 <= n <= names.len(),
        route_asked(route, names.take(n)) is Err,
    ensures
        route_asked(route, names) == route_asked(route, names.take(n)),
    decreases names.len() - n,
{
    if n < names.len() {
        assert(names.take(n + 1).drop_last() =~= names.take(n));
        first_stranger_decides(route, names, n + 1);
    } else {
        assert(names.take(n) =~= names);
    }
}

impl Request {
    fn empty() -> (r: Self)
        ensures
            r@ == nothing_asked(),
    {
        Request { cfg: SolverConfig::default(), steps: DEFAULT_STEPS, restarts: 1, save: None }
    }

    fn take(self, arg: &Vec<char>) -> (r: Result<Request, ArgError>)
        ensures
            agrees(r, take_arg(self@, arg@)),
    {
        let mut q: Request = self;
        if let Some(list) = strip_prefix(arg, "via=") {
            if spells(&list, "direct") || spells(&list, "none") {
                q.cfg.auto_route = false;
                return Ok(q);
            }
            let mut route: Vec<BodyId> = Vec::new();
            std::mem::swap(&mut route, &mut q.cfg.route);
            match route_of(route, &pieces(&list, ',')) {
                Ok(longer) => {
                    q.cfg.route = longer;
                    q.cfg.auto_route = false;
                    Ok(q)
                },
                Err(name) => Err(ArgError::UnknownFlyby(text_of(&name))),
            }
        } else if let Some(m) = strip_prefix(arg, "mode=") {
            match find_mission(&m) {
                Some(t) => {
                    q.cfg.mission = t;
                    Ok(q)
                },
                None => Err(ArgError::UnknownMode(text_of(&m))),
            }
        } else if let Some(e) = strip_prefix(arg, "engine=") {
            q.cfg.engine = read_engine(&e);
            Ok(q)
        } else if let Some(v) = strip_prefix(arg, "beam=") {
            if let Some(n) = natural_of(&v, usize::MAX as u64) {
                q.cfg.beam_width = n as usize;
            }
            Ok(q)
        } else if let Some(v) = strip_prefix(arg, "seed=") {
            if let Some(n) = natural_of(&v, u64::MAX) {
                q.cfg.seed = n;
            }
            Ok(q)
        } else if let Some(v) = strip_prefix(arg, "steps=") {
            q.steps = match natural_of(&v, usize::MAX as u64) {
                Some(n) => n as usize,
                None => DEFAULT_STEPS,
            };
            Ok(q)
        } else if let Some(v) = strip_prefix(arg, "restarts=") {
            q.restarts = match natural_of(&v, usize::MAX as u64) {
                Some(n) => if n < 1 {
                    1
                } else {
                    n as usize
                },
                None => 1,
            };
            Ok(q)
        } else if let Some(v) = strip_prefix(arg, "save=") {
            q.save = Some(text_of(&v));
            Ok(q)
        } else {
            Ok(q)
        }
    }
}

proof fn first_refusal_decides(args: Seq<Seq<char>>, n: int)
    requires
        0 <= n <= args.len(),
        take_args(args.take(n)) is Err,
    ensures
        take_args(args) == take_args(args.take(n)),
    decreases args.len() - n,
{
    if n < args.len() {
        assert(args.take(n + 1).drop_last() =~= args.take(n));
        first_refusal_decides(args, n + 1);
    } else {
        assert(args.take(n) =~= args);
    }
}

/// The request that the arguments after the launch word make.
pub fn parse_args(args: &Vec<String>) -> (r: Result<Request, ArgError>)
    ensures
        agrees(r, take_args(texts(args@))),
{
    let ghost all = texts(args@);
    let mut q: Request = Request::empty();
    let mut i: usize = 0;
    assert(all.take(0) =~= Seq::empty());
    while i < args.len()
        invariant
            i <= args.len(),
            all == texts(args@),
            take_args(all.take(i as int)) == Ok::<Asked, Refusal>(q@),
        decreases args.len() - i,
    {
        assert(all.take(i + 1).drop_last() =~= all.take(i as int));
        assert(all.take(i + 1).last() == args@[i as int]@);
        let arg: Vec<char> = chars_of(args[i].as_str());
        match q.take(&arg) {
            Ok(next) => {
                q = next;
            },
            Err(e) => {
                proof {
                    first_refusal_decides(all, i + 1);
                }
                return Err(e);
            },
        }
        i = i + 1;
    }
    assert(all.take(i as int) =~= all);
    Ok(q)
}

// ---------------------------------------------------------------- date

/// Bytes that a character takes in UTF-8.
pub open spec fn char_width(c: char) -> int {
    if (c as u32) < 0x80 {
        1
    } else if (c as u32) < 0x800 {
        2
    } else if (c as u32) < 0x1_0000 {
        3
    } else {
        4
    }
}

/// Bytes that a text takes in UTF-8.
pub open spec fn byte_len(s: Seq<char>) -> int
    decreases s.len(),
{
    if s.len() == 0 {
        0
    } else {
        byte_len(s.drop_last()) + char_width(s.last())
    }
}

/// An argument meant as a date: eight bytes or more, a digit in front.
pub open spec fn looks_like_date(s: Seq<char>) -> bool {
    byte_len(s) >= 8 && s.len() > 0 && is_digit(s[0])
}

proof fn longer_takes_more(s: Seq<char>, n: int)
    requires
        0 <= n <= s.len(),
    ensures
        byte_len(s.take(n)) <= byte_len(s),
    decreases s.len() - n,
{
    if n < s.len() {
        assert(s.take(n + 1).drop_last() =~= s.take(n));
        longer_takes_more(s, n + 1);
    } else {
        assert(s.take(n) =~= s);
    }
}

fn is_date_like(s: &Vec<char>) -> (r: bool)
    ensures
        r == looks_like_date(s@),
{
    if s.len() == 0 || !('0' <= s[0] && s[0] <= '9') {
        return false;
    }
    let mut bytes: u32 = 0;
    let mut i: usize = 0;
    assert(s@.take(0) =~= Seq::empty());
    while i < s.len()
        invariant
            i <= s.len(),
            bytes < 8,
            bytes == byte_len(s@.take(i as int)),
            s@.len() > 0,
            is_digit(s@[0]),
        decreases s.len() - i,
    {
        let c: u32 = s[i] as u32;
        let w: u32 = if c < 0x80 {
            1
        } else if c < 0x800 {
            2
        } else if c < 0x1_0000 {
            3
        } else {
            4
        };
        assert(s@.take(i + 1).drop_last() =~= s@.take(i as int));
        bytes = bytes + w;
        if bytes >= 8 {
            proof {
                longer_takes_more(s@, i + 1);
            }
            return true;
        }
        i = i + 1;
    }
    assert(s@.take(i as int) =~= s@);
    false
}

/// The first argument meant as a date.
pub open spec fn date_arg(args: Seq<Seq<char>>) -> Option<Seq<char>>
    decreases args.len(),
{
    if args.len() == 0 {
        None
    } else {
        match date_arg(args.drop_last()) {
            Some(s) => Some(s),
            None => if looks_like_date(args.last()) {
                Some(args.last())
            } else {
                None
            },
        }
    }
}

proof fn first_date_decides(args: Seq<Seq<char>>, n: int)
    requires
        0 <= n <= args.len(),
        date_arg(args.take(n)) is Some,
    ensures
        date_arg(args) == date_arg(args.take(n)),
    decreases args.len() - n,
{
    if n < args.len() {
        assert(args.take(n + 1).drop_last() =~= args.take(n));
        first_date_decides(args, n + 1);
    } else {
        assert(args.take(n) =~= args);
    }
}

fn find_date(args: &Vec<String>) -> (r: Option<usize>)
    ensures
        match r {
            Some(i) => i < args.len() && date_arg(texts(args@)) == Some(args@[i as int]@),
            None => date_arg(texts(args@)) is None,
        },
{
    let ghost all = texts(args@);
    let mut i: usize = 0;
    assert(all.take(0) =~= Seq::empty());
    while i < args.len()
        invariant
            i <= args.len(),
            all == texts(args@),
            date_arg(all.take(i as int)) is None,
        decreases args.len() - i,
    {
        assert(all.take(i + 1).drop_last() =~= all.take(i as int));
        assert(all.take(i + 1).last() == args@[i as int]@);
        if is_date_like(&chars_of(args[i].as_str())) {
            proof {
                first_date_decides(all, i + 1);
            }
            return Some(i);
        }
        i = i + 1;
    }
    assert(all.take(i as int) =~= all);
    None
}

// ---------------------------------------------------------------- modes

/// `at` is the midnight at the start of `d`.
pub open spec fn starts(at: Instant, d: Date) -> bool {
    &&& (at.centuries, at.nanoseconds) == midnight_parts(d.year, d.month, d.day)
    &&& -3_000_000 <= d.year <= 3_000_000 ==> at.nanoseconds < CENTURY_NS && at.total_ns()
        == d.day_number() * DAY_NS
}

/// What a headless search asks for.
pub struct Headless {
    pub request: Request,
    pub start: Instant,
}

/// The request of a headless search with its target: the first argument, where
/// there is one.
pub open spec fn with_target(args: Seq<Seq<char>>) -> Result<Asked, Refusal> {
    match take_args(args) {
        Err(e) => Err(e),
        Ok(a) => if args.len() == 0 {
            Ok(a)
        } else {
            match body_named(args[0]) {
                Some(target) => Ok(Asked { setup: Setup { target, ..a.setup }, ..a }),
                None => Err(Refusal::UnknownBody(args[0])),
            }
        },
    }
}

/// Why a start date is refused.
pub open spec fn date_refusal(args: Seq<Seq<char>>) -> Option<Refusal> {
    match date_arg(args) {
        None => None,
        Some(s) => match date_in(s) {
            None => Some(Refusal::BadDate(s)),
            Some(d) => if d.in_calendar() && d.countable() {
                None
            } else {
                Some(Refusal::NoSuchDay(s))
            },
        },
    }
}

/// Reads the arguments of a headless search. What is refused first is told: an
/// argument, then the target, then the date.
pub fn headless_request(args: &Vec<String>) -> (r: Result<Headless, ArgError>)
    ensures
        ({
            let all = texts(args@);
            match with_target(all) {
                Err(e) => r matches Err(f) && f@ == e,
                Ok(a) => match date_refusal(all) {
                    Some(e) => r matches Err(f) && f@ == e,
                    None => {
                        &&& r matches Ok(h)
                        &&& h.request@ == a
                        &&& match date_arg(all) {
                            Some(s) => starts(h.start, date_in(s)->0),
                            None => h.start.nanoseconds < CENTURY_NS && h.start.total_ns() == (
                            Date { year: 2026, month: 7, day: 20 }).day_number() * DAY_NS,
                        }
                    },
                },
            }
        }),
{
    let ghost all = texts(args@);
    let mut request: Request = match parse_args(args) {
        Ok(q) => q,
        Err(e) => {
            return Err(e);
        },
    };
    if args.len() > 0 {
        let word: Vec<char> = chars_of(args[0].as_str());
        assert(all[0] == word@);
        match find_body(&word) {
            Some(b) => {
                request.cfg.target = b;
            },
            None => {
                return Err(ArgError::UnknownBody(text_of(&word)));
            },
        }
    }
    match find_date(args) {
        None => Ok(Headless { request, start: default_start() }),
        Some(i) => {
            match start_epoch(args[i].as_str()) {
                Ok(start) => Ok(Headless { request, start }),
                Err(DateError::Shape) => {
                    Err(ArgError::BadDate(text_of(&chars_of(args[i].as_str()))))
                },
                Err(DateError::NoSuchDay) => {
                    Err(ArgError::NoSuchDay(text_of(&chars_of(args[i].as_str()))))
                },
            }
        },
    }
}

/// Reads the arguments of a tour. A first argument that names no body leaves the
/// target as it is; a date of another form is passed over.
pub fn parse_search_args(args: &Vec<String>) -> (r: Result<
    (SolverConfig, Option<Instant>),
    ArgError,
>)
    ensures
        ({
            let all = texts(args@);
            match take_args(all) {
                Err(e) => r matches Err(f) && f@ == e,
                Ok(a) => {
                    let setup = match (if all.len() > 0 {
                        body_named(all[0])
                    } else {
                        None
                    }) {
                        Some(target) => Setup { target, ..a.setup },
                        None => a.setup,
                    };
                    match date_refusal(all) {
                        Some(Refusal::NoSuchDay(s)) => r matches Err(f) && f@
                            == Refusal::NoSuchDay(s),
                        Some(_) => r matches Ok(p) && p.0@ == setup && p.1 is None,
                        None => r matches Ok(p) && p.0@ == setup && match date_arg(all) {
                            Some(s) => p.1 matches Some(at) && starts(at, date_in(s)->0),
                            None => p.1 is None,
                        },
                    }
                },
            }
        }),
{
    let ghost all = texts(args@);
    let mut request: Request = match parse_args(args) {
        Ok(q) => q,
        Err(e) => {
            return Err(e);
        },
    };
    if args.len() > 0 {
        let word: Vec<char> = chars_of(args[0].as_str());
        assert(all[0] == word@);
        if let Some(b) = find_body(&word) {
            request.cfg.target = b;
        }
    }
    match find_date(args) {
        None => Ok((request.cfg, None)),
        Some(i) => {
            match start_epoch(args[i].as_str()) {
                Ok(start) => Ok((request.cfg, Some(start))),
                Err(DateError::Shape) => Ok((request.cfg, None)),
                Err(DateError::NoSuchDay) => {
                    Err(ArgError::NoSuchDay(text_of(&chars_of(args[i].as_str()))))
                },
            }
        },
    }
}

// ---------------------------------------------------------------- laws

/// A route named on the command line is searched as given: discovery is off
/// once any `via=` was read, whatever follows.
pub proof fn via_turns_discovery_off(args: Seq<Seq<char>>, i: int)
    requires
        0 <= i < args.len(),
        after_prefix(args[i], "via="@) is Some,
        take_args(args) is Ok,
    ensures
        !take_args(args)->Ok_0.setup.auto_route,
    decreases args.len(),
{
    let head = args.drop_last();
    if i < head.len() {
        assert(head[i] == args[i]);
        via_turns_discovery_off(head, i);
    }
}

/// At least one search is always run.
pub proof fn some_search_is_run(args: Seq<Seq<char>>)
    requires
        take_args(args) is Ok,
    ensures
        take_args(args)->Ok_0.restarts >= 1,
    decreases args.len(),
{
    if args.len() > 0 {
        some_search_is_run(args.drop_last());
    }
}

/// Which option an argument sets; arguments of no option share one number.
pub open spec fn option_of(arg: Seq<char>) -> int {
    if after_prefix(arg, "via="@) is Some {
        1
    } else if after_prefix(arg, "mode="@) is Some {
        2
    } else if after_prefix(arg, "engine="@) is Some {
        3
    } else if after_prefix(arg, "beam="@) is Some {
        4
    } else if after_prefix(arg, "seed="@) is Some {
        5
    } else if after_prefix(arg, "steps="@) is Some {
        6
    } else if after_prefix(arg, "restarts="@) is Some {
        7
    } else if after_prefix(arg, "save="@) is Some {
        8
    } else {
        0
    }
}

/// Options may come in any order: two arguments of different options ask for the
/// same whichever comes first.
pub proof fn options_come_in_any_order(a: Asked, x: Seq<char>, y: Seq<char>)
    requires
        option_of(x) != option_of(y),
        take_arg(a, x) is Ok,
        take_arg(a, y) is Ok,
    ensures
        take_arg(take_arg(a, x)->Ok_0, y) == take_arg(take_arg(a, y)->Ok_0, x),
        take_arg(take_arg(a, x)->Ok_0, y) is Ok,
{
}

/// Whether an argument is refused, and why, does not depend on those before it.
pub proof fn refusals_stand_alone(a: Asked, b: Asked, x: Seq<char>)
    requires
        take_arg(a, x) is Err,
    ensures
        take_arg(b, x) == take_arg(a, x),
{
    if let Some(list) = after_prefix(x, "via="@) {
        strangers_stand_alone(a.setup.route, b.setup.route, split(list, ','));
    }
}

proof fn strangers_stand_alone(r: Seq<BodyId>, s: Seq<BodyId>, names: Seq<Seq<char>>)
    ensures
        route_asked(r, names) is Err <==> route_asked(s, names) is Err,
        route_asked(r, names) is Err ==> route_asked(r, names)->Err_0 == route_asked(
            s,
            names,
        )->Err_0,
    decreases names.len(),
{
    if names.len() > 0 {
        strangers_stand_alone(r, s, names.drop_last());
    }
}

// ---------------------------------------------------------------- options

proof fn keys_spelled()
    ensures
        "via="@.len() > 1 && "via="@[0] == 'v',
        "mode="@.len() > 1 && "mode="@[0] == 'm',
        "engine="@.len() > 1 && "engine="@[0] == 'e',
        "beam="@.len() > 1 && "beam="@[0] == 'b',
        "seed="@.len() > 1 && "seed="@[0] == 's' && "seed="@[1] == 'e',
        "steps="@.len() > 1 && "steps="@[0] == 's' && "steps="@[1] == 't',
        "restarts="@.len() > 1 && "restarts="@[0] == 'r',
        "save="@.len() > 1 && "save="@[0] == 's' && "save="@[1] == 'a',
{
    reveal_strlit("via=");
    reveal_strlit("mode=");
    reveal_strlit("engine=");
    reveal_strlit("beam=");
    reveal_strlit("seed=");
    reveal_strlit("steps=");
    reveal_strlit("restarts=");
    reveal_strlit("save=");
}

proof fn key_then_value(key: Seq<char>, v: Seq<char>)
    ensures
        after_prefix(key + v, key) == Some(v),
{
    assert(key.is_prefix_of(key + v));
    assert((key + v).skip(key.len() as int) =~= v);
}

proof fn another_key(key: Seq<char>, v: Seq<char>, other: Seq<char>, i: int)
    requires
        0 <= i < key.len(),
        i < other.len(),
        key[i] != other[i],
    ensures
        after_prefix(key + v, other) is None,
{
    if other.is_prefix_of(key + v) {
        assert(other[i] == (key + v)[i]);
    }
}

proof fn one_more(args: Seq<Seq<char>>, arg: Seq<char>)
    requires
        take_args(args) is Ok,
    ensures
        take_args(args.push(arg)) == take_arg(take_args(args)->Ok_0, arg),
{
    assert(args.push(arg).drop_last() =~= args);
}

/// Each engine is asked for by the token that a mission file has for it; every
/// other text but `nextc` asks for none. The last such argument counts, and
/// nothing else is asked by it.
#[verifier::rlimit(40)]
pub proof fn engine_is_asked_by_its_token(args: Seq<Seq<char>>, e: Engine, v: Seq<char>)
    requires
        take_args(args) is Ok,
    ensures
        ({
            let a = take_args(args)->Ok_0;
            &&& take_args(args.push("engine="@ + engine_token(e)@)) == Ok::<Asked, Refusal>(
                Asked { setup: Setup { engine: e, ..a.setup }, ..a },
            )
            &&& take_args(args.push("engine="@ + "nextc"@)) == Ok::<Asked, Refusal>(
                Asked { setup: Setup { engine: Engine::NextC, ..a.setup }, ..a },
            )
            &&& (forall|o: Engine| v != #[trigger] engine_token(o)@) && v != "nextc"@ ==> take_args(
                args.push("engine="@ + v),
            ) == Ok::<Asked, Refusal>(
                Asked { setup: Setup { engine: Engine::Ballistic, ..a.setup }, ..a },
            )
        }),
{
    let a = take_args(args)->Ok_0;
    tokens_spelled(e);
    one_more(args, "engine="@ + engine_token(e)@);
    one_more(args, "engine="@ + "nextc"@);
    one_more(args, "engine="@ + v);
    engine_heard(a, engine_token(e)@);
    engine_heard(a, "nextc"@);
    engine_heard(a, v);
    if (forall|o: Engine| v != #[trigger] engine_token(o)@) && v != "nextc"@ {
        assert(v != engine_token(Engine::Nstar)@);
        assert(v != engine_token(Engine::NextC)@);
        assert(v != engine_token(Engine::Aeps)@);
    }
}

#[verifier::rlimit(40)]
proof fn engine_heard(a: Asked, v: Seq<char>)
    ensures
        take_arg(a, "engine="@ + v) == Ok::<Asked, Refusal>(
            Asked { setup: Setup { engine: engine_asked(v), ..a.setup }, ..a },
        ),
{
    keys_spelled();
    key_then_value("engine="@, v);
    another_key("engine="@, v, "via="@, 0);
    another_key("engine="@, v, "mode="@, 0);
}

#[verifier::rlimit(40)]
proof fn tokens_spelled(e: Engine)
    ensures
        engine_asked(engine_token(e)@) == e,
        engine_asked("nextc"@) == Engine::NextC,
{
    reveal_strlit("ballistic");
    reveal_strlit("nstar");
    reveal_strlit("next");
    reveal_strlit("nextc");
    reveal_strlit("aeps");
    assert("nstar"@[1] == 's' && "next"@[1] == 'e' && "aeps"@[1] == 'e' && "aeps"@[0] == 'a');
    assert("next"@.len() == 4 && "nextc"@.len() == 5 && "next"@[0] == 'n' && "nextc"@[1] == 'e');
    assert("ballistic"@.len() == 9 && "nstar"@.len() == 5 && "aeps"@.len() == 4);
}

/// The request of the one argument that names an engine has that engine.
pub proof fn engine_argument_is_heard(e: Engine)
    ensures
        take_args(seq!["engine="@ + engine_token(e)@]) matches Ok(a) && a.setup.engine == e,
{
    let none = Seq::<Seq<char>>::empty();
    engine_is_asked_by_its_token(none, e, Seq::empty());
    assert(none.push("engine="@ + engine_token(e)@) =~= seq!["engine="@ + engine_token(e)@]);
}

#[verifier::rlimit(40)]
proof fn mode_heard(a: Asked, m: MissionType)
    ensures
        take_arg(a, "mode="@ + m.label()@) == Ok::<Asked, Refusal>(
            Asked { setup: Setup { mission: m, ..a.setup }, ..a },
        ),
{
    let label = m.label()@;
    keys_spelled();
    key_then_value("mode="@, label);
    another_key("mode="@, label, "via="@, 0);
    mission_found_by_label(m);
}

/// Each mission profile is asked for by its label, and nothing else is asked by
/// it.
#[verifier::rlimit(40)]
pub proof fn mission_is_asked_by_its_label(args: Seq<Seq<char>>, m: MissionType)
    requires
        take_args(args) is Ok,
    ensures
        ({
            let a = take_args(args)->Ok_0;
            take_args(args.push("mode="@ + m.label()@)) == Ok::<Asked, Refusal>(
                Asked { setup: Setup { mission: m, ..a.setup }, ..a },
            )
        }),
{
    one_more(args, "mode="@ + m.label()@);
    mode_heard(take_args(args)->Ok_0, m);
}

#[verifier::rlimit(40)]
proof fn seed_heard(a: Asked, v: Seq<char>)
    ensures
        take_arg(a, "seed="@ + v) == Ok::<Asked, Refusal>(
            Asked {
                setup: Setup {
                    seed: number_or(v, u64::MAX as int, a.setup.seed as int) as u64,
                    ..a.setup
                },
                ..a
            },
        ),
{
    keys_spelled();
    key_then_value("seed="@, v);
    another_key("seed="@, v, "via="@, 0);
    another_key("seed="@, v, "mode="@, 0);
    another_key("seed="@, v, "engine="@, 0);
    another_key("seed="@, v, "beam="@, 0);
}

#[verifier::rlimit(40)]
proof fn beam_heard(a: Asked, v: Seq<char>)
    ensures
        take_arg(a, "beam="@ + v) == Ok::<Asked, Refusal>(
            Asked {
                setup: Setup {
                    beam_width: number_or(
                        v,
                        usize::MAX as int,
                        a.setup.beam_width as int,
                    ) as usize,
                    ..a.setup
                },
                ..a
            },
        ),
{
    keys_spelled();
    key_then_value("beam="@, v);
    another_key("beam="@, v, "via="@, 0);
    another_key("beam="@, v, "mode="@, 0);
    another_key("beam="@, v, "engine="@, 0);
}

#[verifier::rlimit(40)]
proof fn steps_heard(a: Asked, v: Seq<char>)
    ensures
        take_arg(a, "steps="@ + v) == Ok::<Asked, Refusal>(
            Asked { steps: number_or(v, usize::MAX as int, DEFAULT_STEPS as int) as usize, ..a },
        ),
{
    keys_spelled();
    key_then_value("steps="@, v);
    another_key("steps="@, v, "via="@, 0);
    another_key("steps="@, v, "mode="@, 0);
    another_key("steps="@, v, "engine="@, 0);
    another_key("steps="@, v, "beam="@, 0);
    another_key("steps="@, v, "seed="@, 1);
}

#[verifier::rlimit(40)]
proof fn restarts_heard(a: Asked, v: Seq<char>)
    ensures
        take_arg(a, "restarts="@ + v) matches Ok(b) && b == (Asked { restarts: b.restarts, ..a })
            && b.restarts == (if number_or(v, usize::MAX as int, 1) < 1 {
            1
        } else {
            number_or(v, usize::MAX as int, 1)
        }),
{
    keys_spelled();
    key_then_value("restarts="@, v);
    another_key("restarts="@, v, "via="@, 0);
    another_key("restarts="@, v, "mode="@, 0);
    another_key("restarts="@, v, "engine="@, 0);
    another_key("restarts="@, v, "beam="@, 0);
    another_key("restarts="@, v, "seed="@, 0);
    another_key("restarts="@, v, "steps="@, 0);
}

/// The numbers that can be asked for are those written after their keys: the
/// width of the beam, the seed, the generations, and the searches, of which there
/// is at least one.
#[verifier::rlimit(40)]
pub proof fn numbers_are_asked_in_decimal(args: Seq<Seq<char>>, n: u64, k: usize)
    requires
        take_args(args) is Ok,
    ensures
        ({
            let a = take_args(args)->Ok_0;
            &&& take_args(args.push("seed="@ + decimal(n as nat))) == Ok::<Asked, Refusal>(
                Asked { setup: Setup { seed: n, ..a.setup }, ..a },
            )
            &&& take_args(args.push("beam="@ + decimal(k as nat))) == Ok::<Asked, Refusal>(
                Asked { setup: Setup { beam_width: k, ..a.setup }, ..a },
            )
            &&& take_args(args.push("steps="@ + decimal(k as nat))) == Ok::<Asked, Refusal>(
                Asked { steps: k, ..a },
            )
            &&& take_args(args.push("restarts="@ + decimal(k as nat))) matches Ok(b) && b
                == (Asked { restarts: b.restarts, ..a }) && b.restarts >= 1 && (k >= 1
                ==> b.restarts == k)
        }),
{
    let a = take_args(args)->Ok_0;
    let (s, v) = (decimal(n as nat), decimal(k as nat));
    natural_of_decimal(n as nat, u64::MAX as int);
    natural_of_decimal(k as nat, usize::MAX as int);
    one_more(args, "seed="@ + s);
    one_more(args, "beam="@ + v);
    one_more(args, "steps="@ + v);
    one_more(args, "restarts="@ + v);
    seed_heard(a, s);
    beam_heard(a, v);
    steps_heard(a, v);
    restarts_heard(a, v);
}

/// A number that cannot be read changes neither the beam nor the seed; the
/// generations and the searches go back to what they are when nothing is said.
#[verifier::rlimit(40)]
pub proof fn what_is_no_number_is_passed_over(args: Seq<Seq<char>>, v: Seq<char>)
    requires
        take_args(args) is Ok,
        natural(v, u64::MAX as int) is None,
    ensures
        ({
            let a = take_args(args)->Ok_0;
            let nothing = take_args(Seq::empty())->Ok_0;
            &&& take_args(args.push("seed="@ + v)) == Ok::<Asked, Refusal>(a)
            &&& take_args(args.push("beam="@ + v)) == Ok::<Asked, Refusal>(a)
            &&& take_args(args.push("steps="@ + v)) == Ok::<Asked, Refusal>(
                Asked { steps: nothing.steps, ..a },
            )
            &&& take_args(args.push("restarts="@ + v)) == Ok::<Asked, Refusal>(
                Asked { restarts: nothing.restarts, ..a },
            )
            &&& nothing.steps == 400 && nothing.restarts == 1 && nothing.save is None
        }),
{
    let a = take_args(args)->Ok_0;
    assert(natural(v, usize::MAX as int) is None);
    one_more(args, "seed="@ + v);
    one_more(args, "beam="@ + v);
    one_more(args, "steps="@ + v);
    one_more(args, "restarts="@ + v);
    seed_heard(a, v);
    beam_heard(a, v);
    steps_heard(a, v);
    restarts_heard(a, v);
}

/// The winner is written where `save=` says, whatever the text is.
#[verifier::rlimit(40)]
pub proof fn save_is_taken_as_written(args: Seq<Seq<char>>, v: Seq<char>)
    requires
        take_args(args) is Ok,
    ensures
        take_args(args.push("save="@ + v)) == Ok::<Asked, Refusal>(
            Asked { save: Some(v), ..take_args(args)->Ok_0 },
        ),
{
    one_more(args, "save="@ + v);
    keys_spelled();
    key_then_value("save="@, v);
    another_key("save="@, v, "via="@, 0);
    another_key("save="@, v, "mode="@, 0);
    another_key("save="@, v, "engine="@, 0);
    another_key("save="@, v, "beam="@, 0);
    another_key("save="@, v, "seed="@, 1);
    another_key("save="@, v, "steps="@, 1);
    another_key("save="@, v, "restarts="@, 0);
}

/// The names of the bodies of a route.
pub open spec fn names_of(route: Seq<BodyId>) -> Seq<Seq<char>> {
    route.map_values(|b: BodyId| b.name()@)
}

proof fn named_bodies_are_flown(start: Seq<BodyId>, route: Seq<BodyId>)
    ensures
        route_asked(start, names_of(route)) == Ok::<Seq<BodyId>, Seq<char>>(start + route),
    decreases route.len(),
{
    if route.len() == 0 {
        assert(start + route =~= start);
    } else {
        named_bodies_are_flown(start, route.drop_last());
        assert(names_of(route).drop_last() =~= names_of(route.drop_last()));
        body_found_by_name(route.last());
        assert((start + route.drop_last()).push(route.last()) =~= start + route);
    }
}

/// The bodies named after `via=`, commas between them, are flown past in that
/// order, after those named before; discovery is off, and nothing else is asked.
#[verifier::rlimit(40)]
pub proof fn via_adds_the_bodies_named(args: Seq<Seq<char>>, route: Seq<BodyId>)
    requires
        take_args(args) is Ok,
        route.len() > 0,
    ensures
        ({
            let a = take_args(args)->Ok_0;
            take_args(args.push("via="@ + join(names_of(route), ','))) == Ok::<Asked, Refusal>(
                Asked {
                    setup: Setup { auto_route: false, route: a.setup.route + route, ..a.setup },
                    ..a
                },
            )
        }),
{
    let a = take_args(args)->Ok_0;
    let names = names_of(route);
    let list = join(names, ',');
    assert forall|i: int| 0 <= i < names.len() implies free_of(#[trigger] names[i], ',') by {
        names_are_letters(route[i]);
        assert forall|j: int| 0 <= j < names[i].len() implies names[i][j] != ',' by {
            assert(is_letter(route[i].name()@[j]));
        }
    }
    split_undoes_join(names, ',');
    named_bodies_are_flown(a.setup.route, route);
    one_more(args, "via="@ + list);
    key_then_value("via="@, list);
    if list == "direct"@ || list == "none"@ {
        one_piece(list);
        no_body_is_a_route_word(route[0]);
        assert(names[0] == list);
    }
}

proof fn one_piece(list: Seq<char>)
    requires
        list == "direct"@ || list == "none"@,
    ensures
        split(list, ',') == seq![list],
{
    reveal_strlit("direct");
    reveal_strlit("none");
    assert(free_of(list, ','));
    assert(join(seq![list], ',') == list);
    split_undoes_join(seq![list], ',');
}

/// `via=direct` and `via=none` turn discovery off and leave the route as it is.
#[verifier::rlimit(40)]
pub proof fn via_can_name_no_body(args: Seq<Seq<char>>, word: Seq<char>)
    requires
        take_args(args) is Ok,
        word == "direct"@ || word == "none"@,
    ensures
        ({
            let a = take_args(args)->Ok_0;
            take_args(args.push("via="@ + word)) == Ok::<Asked, Refusal>(
                Asked { setup: Setup { auto_route: false, ..a.setup }, ..a },
            )
        }),
{
    one_more(args, "via="@ + word);
    key_then_value("via="@, word);
}

/// The first argument of a headless search is its target, and the rest of the
/// request is that of the arguments.
pub proof fn target_comes_first(args: Seq<Seq<char>>, b: BodyId)
    requires
        take_args(args) is Ok,
        args.len() > 0,
        args[0] == b.name()@,
    ensures
        ({
            let a = take_args(args)->Ok_0;
            with_target(args) == Ok::<Asked, Refusal>(
                Asked { setup: Setup { target: b, ..a.setup }, ..a },
            )
        }),
{
    body_found_by_name(b);
}

/// The date is the first argument of eight bytes or more that opens with a
/// digit, and no other.
pub proof fn first_date_is_taken(args: Seq<Seq<char>>, i: int)
    requires
        0 <= i < args.len(),
        forall|j: int| 0 <= j < i ==> !looks_like_date(#[trigger] args[j]),
        looks_like_date(args[i]),
    ensures
        date_arg(args) == Some(args[i]),
    decreases args.len(),
{
    let head = args.drop_last();
    if i < head.len() {
        assert forall|j: int| 0 <= j < i implies !looks_like_date(#[trigger] head[j]) by {
            assert(head[j] == args[j]);
        }
        first_date_is_taken(head, i);
    } else {
        assert forall|j: int| 0 <= j < head.len() implies !looks_like_date(#[trigger] head[j]) by {
            assert(head[j] == args[j]);
        }
        no_date_no_start(head);
    }
}

/// Without such an argument there is no date.
pub proof fn no_date_no_start(args: Seq<Seq<char>>)
    requires
        forall|j: int| 0 <= j < args.len() ==> !looks_like_date(#[trigger] args[j]),
    ensures
        date_arg(args) is None,
    decreases args.len(),
{
    if args.len() > 0 {
        let head = args.drop_last();
        assert forall|j: int| 0 <= j < head.len() implies !looks_like_date(#[trigger] head[j]) by {
            assert(head[j] == args[j]);
        }
        no_date_no_start(head);
    }
}

proof fn plain_text_is_a_byte_each(s: Seq<char>)
    requires
        forall|j: int| 0 <= j < s.len() ==> (#[trigger] s[j] as u32) < 0x80,
    ensures
        byte_len(s) == s.len(),
    decreases s.len(),
{
    if s.len() > 0 {
        assert forall|j: int| 0 <= j < s.drop_last().len() implies (#[trigger] s.drop_last()[j] as u32)
            < 0x80 by {
            assert(s.drop_last()[j] == s[j]);
        }
        plain_text_is_a_byte_each(s.drop_last());
        assert(s.last() == s[s.len() - 1]);
    }
}

/// In plain ASCII a date is told by its eight characters and the digit in front.
pub proof fn plain_dates(s: Seq<char>)
    requires
        forall|j: int| 0 <= j < s.len() ==> (#[trigger] s[j] as u32) < 0x80,
    ensures
        looks_like_date(s) <==> s.len() >= 8 && is_digit(s[0]),
{
    plain_text_is_a_byte_each(s);
}

} // verus!
