//! The mission file: a plain list of `key=value` lines. The trajectory is not
//! stored; it is flown again on load.
//!
//! The file opens with its format version. Every choice is written as a token
//! of its own, so that a label shown to users can change without making saved
//! missions unreadable. Files without a version line used the labels of the
//! mission profiles; they still load.
//!
//! The Lambert branch of each leg is a line of its own; a leg that the line does
//! not reach, as in files without it, flies the first branch.
//!
//! Doubles stand here as text: this module lays the file out and takes it
//! apart, and its caller writes and reads the numbers.

use crate::bodies::{
    body_found_by_name, body_named, find_body, names_are_letters, BodyId,
};
use crate::problem::{
    copy_all, copy_route, default_setup, find_mission, mission_labelled, Engine, Genes, Genome,
    Launcher, MissionType, Setup, SolverConfig,
};
use crate::routes::{names, names_of};
use crate::scalar::Scalar;
use crate::text::{
    chars_of, decimal, decimal_of, ended, extend, find_is_unique, free_of, halves, halves_of_pair, is_digit, join,
    joined, lines, lines_of, lines_of_written_lines, lower, natural, natural_of, natural_of_decimal,
    pieces, same_letters, slice_of, spells, split, split_once, split_undoes_join, text_of, value_of_decimal,
    views,
};
use vstd::prelude::*;

verus! {

/// Name of the mission file.
pub const MISSION_FILE: &'static str = "mission.orbital";

/// Format version written.
pub const FORMAT_VERSION: u32 = 2;

// ---------------------------------------------------------------- tokens

/// Token of a mission profile.
#[verifier::allow_in_spec]
pub fn mission_token(m: MissionType) -> &'static str
    returns
        (match m {
            MissionType::Flyby => "flyby",
            MissionType::Orbit => "orbit",
            MissionType::Land => "land",
        }),
{
    match m {
        MissionType::Flyby => "flyby",
        MissionType::Orbit => "orbit",
        MissionType::Land => "land",
    }
}

/// The mission profile of a token, or else of a label.
pub open spec fn token_mission(s: Seq<char>) -> Option<MissionType> {
    if s == mission_token(MissionType::Flyby)@ {
        Some(MissionType::Flyby)
    } else if s == mission_token(MissionType::Orbit)@ {
        Some(MissionType::Orbit)
    } else if s == mission_token(MissionType::Land)@ {
        Some(MissionType::Land)
    } else {
        mission_labelled(s)
    }
}

fn read_mission(s: &Vec<char>) -> (r: Option<MissionType>)
    ensures
        r == token_mission(s@),
{
    if spells(s, mission_token(MissionType::Flyby)) {
        Some(MissionType::Flyby)
    } else if spells(s, mission_token(MissionType::Orbit)) {
        Some(MissionType::Orbit)
    } else if spells(s, mission_token(MissionType::Land)) {
        Some(MissionType::Land)
    } else {
        find_mission(s)
    }
}

/// The mission profile of a token, or else of a label.
pub fn mission_from_token(tok: &str) -> (r: Option<MissionType>)
    ensures
        r == token_mission(tok@),
{
    read_mission(&chars_of(tok))
}

/// Token of an engine.
#[verifier::allow_in_spec]
pub fn engine_token(e: Engine) -> &'static str
    returns
        (match e {
            Engine::Ballistic => "ballistic",
            Engine::Nstar => "nstar",
            Engine::NextC => "next",
            Engine::Aeps => "aeps",
        }),
{
    match e {
        Engine::Ballistic => "ballistic",
        Engine::Nstar => "nstar",
        Engine::NextC => "next",
        Engine::Aeps => "aeps",
    }
}

/// The engine of a token; anything unknown flies without one.
pub open spec fn token_engine(s: Seq<char>) -> Engine {
    if s == "nstar"@ {
        Engine::Nstar
    } else if s == "next"@ {
        Engine::NextC
    } else if s == "aeps"@ {
        Engine::Aeps
    } else {
        Engine::Ballistic
    }
}

fn read_engine(s: &Vec<char>) -> (r: Engine)
    ensures
        r == token_engine(s@),
{
    if spells(s, "nstar") {
        Engine::Nstar
    } else if spells(s, "next") {
        Engine::NextC
    } else if spells(s, "aeps") {
        Engine::Aeps
    } else {
        Engine::Ballistic
    }
}

/// The engine of a token; anything unknown flies without one.
pub fn engine_from_token(tok: &str) -> (r: Engine)
    ensures
        r == token_engine(tok@),
{
    read_engine(&chars_of(tok))
}

/// Token of a launcher.
#[verifier::allow_in_spec]
pub fn launcher_token(l: Launcher) -> &'static str
    returns
        (match l {
            Launcher::FalconHeavy => "fh",
            Launcher::Sls => "sls",
            Launcher::KickStage => "kick",
        }),
{
    match l {
        Launcher::FalconHeavy => "fh",
        Launcher::Sls => "sls",
        Launcher::KickStage => "kick",
    }
}

/// The launcher of a token; anything unknown is the smallest one.
pub open spec fn token_launcher(s: Seq<char>) -> Launcher {
    if s == "sls"@ {
        Launcher::Sls
    } else if s == "kick"@ {
        Launcher::KickStage
    } else {
        Launcher::FalconHeavy
    }
}

fn read_launcher(s: &Vec<char>) -> (r: Launcher)
    ensures
        r == token_launcher(s@),
{
    if spells(s, "sls") {
        Launcher::Sls
    } else if spells(s, "kick") {
        Launcher::KickStage
    } else {
        Launcher::FalconHeavy
    }
}

/// The launcher of a token; anything unknown is the smallest one.
pub fn launcher_from_token(tok: &str) -> (r: Launcher)
    ensures
        r == token_launcher(tok@),
{
    read_launcher(&chars_of(tok))
}

/// Every choice is read back from its token.
pub proof fn tokens_are_read_back(m: MissionType, e: Engine, l: Launcher)
    ensures
        token_mission(mission_token(m)@) == Some(m),
        token_mission(m.label()@) == Some(m),
        token_engine(engine_token(e)@) == e,
        token_launcher(launcher_token(l)@) == l,
{
    reveal_strlit("flyby");
    reveal_strlit("orbit");
    reveal_strlit("land");
    reveal_strlit("ballistic");
    reveal_strlit("nstar");
    reveal_strlit("next");
    reveal_strlit("aeps");
    reveal_strlit("fh");
    reveal_strlit("sls");
    reveal_strlit("kick");
    assert("flyby"@[0] != "orbit"@[0] && "flyby"@[0] != "land"@[0] && "orbit"@[0] != "land"@[0]);
    assert("ballistic"@[0] != "nstar"@[0] && "ballistic"@[0] != "next"@[0] && "ballistic"@[0]
        != "aeps"@[0]);
    assert("nstar"@[1] != "next"@[1] && "nstar"@[0] != "aeps"@[0] && "next"@[0] != "aeps"@[0]);
    assert("fh"@[0] != "sls"@[0] && "fh"@[0] != "kick"@[0] && "sls"@[0] != "kick"@[0]);
}

/// Every token is taken from the label of its choice: a mission profile has its
/// label itself; an engine has the word that its label opens with, or that stands
/// after the number of engines; a launcher has the word that its label holds, or
/// its initials. Case apart.
#[verifier::rlimit(40)]
pub proof fn tokens_come_from_labels(m: MissionType, e: Engine, l: Launcher)
    ensures
        mission_token(m)@ == m.label()@,
        ({
            let t = engine_token(e)@;
            let at: int = if e.thrust_isp() is None {
                0
            } else {
                3
            };
            &&& at + t.len() <= e.label()@.len()
            &&& same_letters(e.label()@.subrange(at, at + t.len()), t)
        }),
        ({
            let t = launcher_token(l)@;
            let words = l.label()@;
            ||| t.len() <= words.len() && same_letters(words.take(t.len() as int), t)
            ||| 8 + t.len() <= words.len() && words.subrange(8, 8int + t.len()) == t
            ||| t.len() == 2 && words[6] == ' ' && lower(words[0]) == t[0] && lower(words[7])
                == t[1]
        }),
{
    reveal_strlit("flyby");
    reveal_strlit("orbit");
    reveal_strlit("land");
    reveal_strlit("ballistic");
    reveal_strlit("nstar");
    reveal_strlit("next");
    reveal_strlit("aeps");
    reveal_strlit("ballistic (chemical)");
    reveal_strlit("2× NSTAR ion (Dawn-class)");
    reveal_strlit("2× NEXT-C ion (DART-class)");
    reveal_strlit("2× AEPS Hall (Gateway-class)");
    reveal_strlit("fh");
    reveal_strlit("sls");
    reveal_strlit("kick");
    reveal_strlit("Falcon Heavy (C3 ≤ 60)");
    reveal_strlit("SLS Block 1 (C3 ≤ 93)");
    reveal_strlit("heavy + kick stage (C3 ≤ 130)");
    match l {
        Launcher::FalconHeavy => {},
        Launcher::Sls => {
            assert(same_letters(l.label()@.take(3), launcher_token(l)@));
        },
        Launcher::KickStage => {
            assert(l.label()@.subrange(8, 12) =~= launcher_token(l)@);
        },
    }
}

// ---------------------------------------------------------------- record

/// What a mission file says, numbers as text.
pub struct MissionText {
    pub target: BodyId,
    pub mission: MissionType,
    pub engine: Engine,
    pub launcher: Launcher,
    pub route: Vec<BodyId>,
    /// Departure, TDB seconds.
    pub depart: Vec<char>,
    pub legs: Vec<Vec<char>>,
    pub vinf: Vec<Vec<char>>,
    pub thrust: Vec<Vec<Vec<char>>>,
    pub dsm: Vec<Vec<Vec<char>>>,
    /// Lambert branch of each leg.
    pub branch: Vec<u32>,
}

/// What a mission file says, numbers as text.
pub struct Record {
    pub target: BodyId,
    pub mission: MissionType,
    pub engine: Engine,
    pub launcher: Launcher,
    pub route: Seq<BodyId>,
    pub depart: Seq<char>,
    pub legs: Seq<Seq<char>>,
    pub vinf: Seq<Seq<char>>,
    pub thrust: Seq<Seq<Seq<char>>>,
    pub dsm: Seq<Seq<Seq<char>>>,
    pub branch: Seq<u32>,
}

/// The rows of a table of texts.
pub open spec fn rows(t: Seq<Vec<Vec<char>>>) -> Seq<Seq<Seq<char>>> {
    t.map_values(|row: Vec<Vec<char>>| views(row@))
}

impl View for MissionText {
    type V = Record;

    open spec fn view(&self) -> Record {
        Record {
            target: self.target,
            mission: self.mission,
            engine: self.engine,
            launcher: self.launcher,
            route: self.route@,
            depart: self.depart@,
            legs: views(self.legs@),
            vinf: views(self.vinf@),
            thrust: rows(self.thrust@),
            dsm: rows(self.dsm@),
            branch: self.branch@,
        }
    }
}

/// The entries of each row joined by colons.
pub open spec fn row_texts(t: Seq<Seq<Seq<char>>>) -> Seq<Seq<char>> {
    t.map_values(|row: Seq<Seq<char>>| join(row, ':'))
}

/// Branches in decimal.
pub open spec fn branch_texts(branch: Seq<u32>) -> Seq<Seq<char>> {
    branch.map_values(|b: u32| decimal(b as nat))
}

/// One line of the file.
pub open spec fn entry(key: Seq<char>, value: Seq<char>) -> Seq<char> {
    key.push('=') + value
}

/// The lines of the file.
pub open spec fn file_lines(r: Record) -> Seq<Seq<char>> {
    seq![
        entry("version"@, decimal(FORMAT_VERSION as nat)),
        entry("target"@, r.target.name()@),
        entry("mission"@, mission_token(r.mission)@),
        entry("engine"@, engine_token(r.engine)@),
        entry("launcher"@, launcher_token(r.launcher)@),
        entry("route"@, join(names(r.route), ',')),
        entry("depart_tdb_s"@, r.depart),
        entry("legs"@, join(r.legs, ',')),
        entry("vinf"@, join(r.vinf, ',')),
        entry("thrust"@, join(row_texts(r.thrust), ',')),
        entry("dsm"@, join(row_texts(r.dsm), ',')),
        entry("branch"@, join(branch_texts(r.branch), ',')),
    ]
}

fn line(key: &str, value: &Vec<char>) -> (r: Vec<char>)
    ensures
        r@ == entry(key@, value@),
{
    let mut s: Vec<char> = chars_of(key);
    s.push('=');
    extend(&mut s, value);
    s
}

fn row_texts_of(t: &Vec<Vec<Vec<char>>>) -> (r: Vec<Vec<char>>)
    ensures
        views(r@) == row_texts(rows(t@)),
{
    let mut r: Vec<Vec<char>> = Vec::new();
    let mut i: usize = 0;
    while i < t.len()
        invariant
            i <= t.len(),
            r.len() == i,
            forall|j: int| 0 <= j < i ==> (#[trigger] r@[j])@ == join(views(t@[j]@), ':'),
        decreases t.len() - i,
    {
        r.push(joined(&t[i], ':'));
        i = i + 1;
    }
    assert(views(r@) =~= row_texts(rows(t@)));
    r
}

fn branch_texts_of(branch: &Vec<u32>) -> (r: Vec<Vec<char>>)
    ensures
        views(r@) == branch_texts(branch@),
{
    let mut r: Vec<Vec<char>> = Vec::new();
    let mut i: usize = 0;
    while i < branch.len()
        invariant
            i <= branch.len(),
            r.len() == i,
            forall|j: int| 0 <= j < i ==> (#[trigger] r@[j])@ == decimal(branch@[j] as nat),
        decreases branch.len() - i,
    {
        r.push(decimal_of(branch[i] as u64));
        i = i + 1;
    }
    assert(views(r@) =~= branch_texts(branch@));
    r
}

fn ended_text(parts: &Vec<Vec<char>>) -> (r: Vec<char>)
    ensures
        r@ == ended(views(parts@), '\n'),
{
    let mut r: Vec<char> = Vec::new();
    let mut i: usize = 0;
    while i < parts.len()
        invariant
            i <= parts.len(),
            r@ == ended(views(parts@).take(i as int), '\n'),
        decreases parts.len() - i,
    {
        let ghost next = views(parts@).take(i + 1);
        assert(next.drop_last() =~= views(parts@).take(i as int));
        extend(&mut r, &parts[i]);
        r.push('\n');
        assert(r@ =~= ended(next, '\n'));
        i = i + 1;
    }
    assert(views(parts@).take(parts@.len() as int) =~= views(parts@));
    r
}

/// The text of a mission file.
pub fn serialize(m: &MissionText) -> (r: String)
    ensures
        r@ == ended(file_lines(m@), '\n'),
{
    let mut out: Vec<Vec<char>> = Vec::new();
    out.push(line("version", &decimal_of(FORMAT_VERSION as u64)));
    out.push(line("target", &chars_of(m.target.name())));
    out.push(line("mission", &chars_of(mission_token(m.mission))));
    out.push(line("engine", &chars_of(engine_token(m.engine))));
    out.push(line("launcher", &chars_of(launcher_token(m.launcher))));
    out.push(line("route", &joined(&names_of(&m.route), ',')));
    out.push(line("depart_tdb_s", &m.depart));
    out.push(line("legs", &joined(&m.legs, ',')));
    out.push(line("vinf", &joined(&m.vinf, ',')));
    out.push(line("thrust", &joined(&row_texts_of(&m.thrust), ',')));
    out.push(line("dsm", &joined(&row_texts_of(&m.dsm), ',')));
    out.push(line("branch", &joined(&branch_texts_of(&m.branch), ',')));
    assert(views(out@) =~= file_lines(m@));
    text_of(&ended_text(&out))
}

// ---------------------------------------------------------------- reading

/// What has been read of a mission file.
pub struct Reading {
    pub target: BodyId,
    pub mission: MissionType,
    pub engine: Engine,
    pub launcher: Launcher,
    pub route: Seq<BodyId>,
    /// The last departure.
    pub depart: Option<Seq<char>>,
    /// Pieces of the last line of flight times.
    pub legs: Seq<Seq<char>>,
    /// Pieces of each departure velocity.
    pub vinf: Seq<Seq<Seq<char>>>,
    /// Pieces of each throttle segment.
    pub thrust: Seq<Seq<Seq<char>>>,
    /// Pieces of each deep-space burn.
    pub dsm: Seq<Seq<Seq<char>>>,
    /// The last line of Lambert branches.
    pub branch: Seq<u32>,
}

/// Nothing read yet: the choices stand at their defaults.
pub open spec fn blank() -> Reading {
    let s = default_setup();
    Reading {
        target: s.target,
        mission: s.mission,
        engine: s.engine,
        launcher: s.launcher,
        route: s.route,
        depart: None,
        legs: Seq::empty(),
        vinf: Seq::empty(),
        thrust: Seq::empty(),
        dsm: Seq::empty(),
        branch: Seq::empty(),
    }
}

/// The parts that are not empty.
pub open spec fn nonempty(parts: Seq<Seq<char>>) -> Seq<Seq<char>>
    decreases parts.len(),
{
    if parts.len() == 0 {
        Seq::empty()
    } else if parts.last().len() == 0 {
        nonempty(parts.drop_last())
    } else {
        nonempty(parts.drop_last()).push(parts.last())
    }
}

/// The bodies named, if each part names one.
pub open spec fn all_named(parts: Seq<Seq<char>>) -> Option<Seq<BodyId>>
    decreases parts.len(),
{
    if parts.len() == 0 {
        Some(Seq::empty())
    } else {
        match (all_named(parts.drop_last()), body_named(parts.last())) {
            (Some(bodies), Some(b)) => Some(bodies.push(b)),
            _ => None,
        }
    }
}

/// Each part cut at its colons.
pub open spec fn cut(parts: Seq<Seq<char>>) -> Seq<Seq<Seq<char>>> {
    parts.map_values(|p: Seq<char>| split(p, ':'))
}

/// The Lambert branch that a piece names: the first where it is no number.
pub open spec fn branch_in(piece: Seq<char>) -> u32 {
    match natural(piece, u32::MAX as int) {
        Some(n) => n as u32,
        None => 0,
    }
}

/// The Lambert branches of a list, in order; an empty list has none.
pub open spec fn branches_in(v: Seq<char>) -> Seq<u32> {
    if v.len() == 0 {
        Seq::empty()
    } else {
        split(v, ',').map_values(|piece: Seq<char>| branch_in(piece))
    }
}

/// The reading after one value; `None` where it names what does not exist.
pub open spec fn take_value(r: Reading, key: Seq<char>, v: Seq<char>) -> Option<Reading> {
    if key == "target"@ {
        match body_named(v) {
            Some(target) => Some(Reading { target, ..r }),
            None => None,
        }
    } else if key == "mission"@ {
        match token_mission(v) {
            Some(mission) => Some(Reading { mission, ..r }),
            None => None,
        }
    } else if key == "engine"@ {
        Some(Reading { engine: token_engine(v), ..r })
    } else if key == "launcher"@ {
        Some(Reading { launcher: token_launcher(v), ..r })
    } else if key == "route"@ {
        match all_named(nonempty(split(v, ','))) {
            Some(more) => Some(Reading { route: r.route + more, ..r }),
            None => None,
        }
    } else if key == "depart_tdb_s"@ {
        Some(Reading { depart: Some(v), ..r })
    } else if key == "legs"@ {
        Some(Reading { legs: split(v, ','), ..r })
    } else if key == "vinf"@ {
        Some(Reading { vinf: r.vinf.push(split(v, ',')), ..r })
    } else if key == "thrust"@ {
        Some(Reading { thrust: r.thrust + cut(nonempty(split(v, ','))), ..r })
    } else if key == "dsm"@ {
        Some(Reading { dsm: r.dsm + cut(nonempty(split(v, ','))), ..r })
    } else if key == "branch"@ {
        Some(Reading { branch: branches_in(v), ..r })
    } else {
        Some(r)
    }
}

/// The reading after one line. A line without `=` says nothing.
pub open spec fn take_line(r: Reading, line: Seq<char>) -> Option<Reading> {
    match halves(line, '=') {
        Some((key, v)) => take_value(r, key, v),
        None => Some(r),
    }
}

/// The reading after some lines.
pub open spec fn take_lines(ls: Seq<Seq<char>>) -> Option<Reading>
    decreases ls.len(),
{
    if ls.len() == 0 {
        Some(blank())
    } else {
        match take_lines(ls.drop_last()) {
            Some(r) => take_line(r, ls.last()),
            None => None,
        }
    }
}

/// What a mission file text says.
pub open spec fn read_text(text: Seq<char>) -> Option<Reading> {
    take_lines(lines(text))
}

/// What has been read of a mission file.
pub struct MissionReading {
    pub target: BodyId,
    pub mission: MissionType,
    pub engine: Engine,
    pub launcher: Launcher,
    pub route: Vec<BodyId>,
    pub depart: Option<Vec<char>>,
    pub legs: Vec<Vec<char>>,
    pub vinf: Vec<Vec<Vec<char>>>,
    pub thrust: Vec<Vec<Vec<char>>>,
    pub dsm: Vec<Vec<Vec<char>>>,
    pub branch: Vec<u32>,
}

impl View for MissionReading {
    type V = Reading;

    open spec fn view(&self) -> Reading {
        Reading {
            target: self.target,
            mission: self.mission,
            engine: self.engine,
            launcher: self.launcher,
            route: self.route@,
            depart: match self.depart {
                Some(d) => Some(d@),
                None => None,
            },
            legs: views(self.legs@),
            vinf: rows(self.vinf@),
            thrust: rows(self.thrust@),
            dsm: rows(self.dsm@),
            branch: self.branch@,
        }
    }
}

fn nonempty_of(parts: &Vec<Vec<char>>) -> (r: Vec<Vec<char>>)
    ensures
        views(r@) == nonempty(views(parts@)),
{
    let mut r: Vec<Vec<char>> = Vec::new();
    let mut i: usize = 0;
    while i < parts.len()
        invariant
            i <= parts.len(),
            views(r@) == nonempty(views(parts@).take(i as int)),
        decreases parts.len() - i,
    {
        let ghost next = views(parts@).take(i + 1);
        assert(next.drop_last() =~= views(parts@).take(i as int));
        assert(next.last() == parts@[i as int]@);
        if parts[i].len() > 0 {
            let ghost before = views(r@);
            let part: Vec<char> = slice_of(&parts[i], 0, parts[i].len());
            assert(part@ =~= parts@[i as int]@);
            r.push(part);
            assert(views(r@) =~= before.push(part@));
        }
        i = i + 1;
    }
    assert(views(parts@).take(parts@.len() as int) =~= views(parts@));
    r
}

fn all_named_of(parts: &Vec<Vec<char>>) -> (r: Option<Vec<BodyId>>)
    ensures
        match r {
            Some(bodies) => all_named(views(parts@)) == Some(bodies@),
            None => all_named(views(parts@)) is None,
        },
{
    let mut r: Vec<BodyId> = Vec::new();
    let mut i: usize = 0;
    while i < parts.len()
        invariant
            i <= parts.len(),
            all_named(views(parts@).take(i as int)) == Some(r@),
        decreases parts.len() - i,
    {
        let ghost next = views(parts@).take(i + 1);
        assert(next.drop_last() =~= views(parts@).take(i as int));
        assert(next.last() == parts@[i as int]@);
        match find_body(&parts[i]) {
            Some(b) => {
                r.push(b);
            },
            None => {
                proof {
                    unnamed_part_spoils_all(views(parts@), i + 1);
                }
                return None;
            },
        }
        i = i + 1;
    }
    assert(views(parts@).take(parts@.len() as int) =~= views(parts@));
    Some(r)
}

proof fn unnamed_part_spoils_all(parts: Seq<Seq<char>>, n: int)
    requires
        0 <= n <= parts.len(),
        all_named(parts.take(n)) is None,
    ensures
        all_named(parts) is None,
    decreases parts.len() - n,
{
    if n < parts.len() {
        assert(parts.take(n + 1).drop_last() =~= parts.take(n));
        unnamed_part_spoils_all(parts, n + 1);
    } else {
        assert(parts.take(n) =~= parts);
    }
}

fn cut_of(parts: &Vec<Vec<char>>) -> (r: Vec<Vec<Vec<char>>>)
    ensures
        rows(r@) == cut(views(parts@)),
{
    let mut r: Vec<Vec<Vec<char>>> = Vec::new();
    let mut i: usize = 0;
    while i < parts.len()
        invariant
            i <= parts.len(),
            r.len() == i,
            forall|j: int| 0 <= j < i ==> views((#[trigger] r@[j])@) == split(parts@[j]@, ':'),
        decreases parts.len() - i,
    {
        r.push(pieces(&parts[i], ':'));
        i = i + 1;
    }
    assert(rows(r@) =~= cut(views(parts@)));
    r
}

fn branches_of(v: &Vec<char>) -> (r: Vec<u32>)
    ensures
        r@ == branches_in(v@),
{
    let mut r: Vec<u32> = Vec::new();
    if v.len() == 0 {
        return r;
    }
    let parts: Vec<Vec<char>> = pieces(v, ',');
    let mut i: usize = 0;
    while i < parts.len()
        invariant
            i <= parts.len(),
            r.len() == i,
            forall|j: int| 0 <= j < i ==> #[trigger] r@[j] == branch_in(parts@[j]@),
        decreases parts.len() - i,
    {
        let b: u32 = match natural_of(&parts[i], u32::MAX as u64) {
            Some(n) => n as u32,
            None => 0,
        };
        r.push(b);
        i = i + 1;
    }
    proof {
        let ps = views(parts@);
        assert(ps == split(v@, ','));
        assert forall|j: int| 0 <= j < r@.len() implies r@[j] == branches_in(v@)[j] by {
            assert(ps[j] == parts@[j]@);
        }
        assert(r@ =~= branches_in(v@));
    }
    r
}

impl MissionReading {
    fn blank() -> (r: Self)
        ensures
            r@ == blank(),
    {
        let d: SolverConfig = SolverConfig::default();
        let r: MissionReading = MissionReading {
            target: d.target,
            mission: d.mission,
            engine: d.engine,
            launcher: d.launcher,
            route: d.route,
            depart: None,
            legs: Vec::new(),
            vinf: Vec::new(),
            thrust: Vec::new(),
            dsm: Vec::new(),
            branch: Vec::new(),
        };
        assert(r@.legs =~= Seq::empty());
        assert(r@.vinf =~= Seq::empty());
        assert(r@.thrust =~= Seq::empty());
        assert(r@.dsm =~= Seq::empty());
        r
    }

    fn take(&mut self, line: &Vec<char>) -> (ok: bool)
        ensures
            match take_line(old(self)@, line@) {
                Some(r) => ok && final(self)@ == r,
                None => !ok,
            },
    {
        let (key, v): (Vec<char>, Vec<char>) = match split_once(line, '=') {
            Some(h) => h,
            None => {
                return true;
            },
        };
        if spells(&key, "target") {
            match find_body(&v) {
                Some(b) => {
                    self.target = b;
                },
                None => {
                    return false;
                },
            }
        } else if spells(&key, "mission") {
            match read_mission(&v) {
                Some(m) => {
                    self.mission = m;
                },
                None => {
                    return false;
                },
            }
        } else if spells(&key, "engine") {
            self.engine = read_engine(&v);
        } else if spells(&key, "launcher") {
            self.launcher = read_launcher(&v);
        } else if spells(&key, "route") {
            let parts: Vec<Vec<char>> = nonempty_of(&pieces(&v, ','));
            let ghost before = self.route@;
            match all_named_of(&parts) {
                Some(mut more) => {
                    let ghost added = more@;
                    self.route.append(&mut more);
                    assert(self.route@ =~= before + added);
                },
                None => {
                    return false;
                },
            }
        } else if spells(&key, "depart_tdb_s") {
            self.depart = Some(v);
        } else if spells(&key, "legs") {
            self.legs = pieces(&v, ',');
        } else if spells(&key, "vinf") {
            let ghost before = self.vinf@;
            let row: Vec<Vec<char>> = pieces(&v, ',');
            self.vinf.push(row);
            assert(rows(self.vinf@) =~= rows(before).push(views(row@)));
        } else if spells(&key, "thrust") {
            let ghost before = self.thrust@;
            let mut more: Vec<Vec<Vec<char>>> = cut_of(&nonempty_of(&pieces(&v, ',')));
            let ghost added = more@;
            self.thrust.append(&mut more);
            assert(rows(self.thrust@) =~= rows(before) + rows(added));
        } else if spells(&key, "dsm") {
            let ghost before = self.dsm@;
            let mut more: Vec<Vec<Vec<char>>> = cut_of(&nonempty_of(&pieces(&v, ',')));
            let ghost added = more@;
            self.dsm.append(&mut more);
            assert(rows(self.dsm@) =~= rows(before) + rows(added));
        } else if spells(&key, "branch") {
            self.branch = branches_of(&v);
        }
        true
    }
}

proof fn spoiled_line_spoils_all(ls: Seq<Seq<char>>, n: int)
    requires
        0 <= n <= ls.len(),
        take_lines(ls.take(n)) is None,
    ensures
        take_lines(ls) is None,
    decreases ls.len() - n,
{
    if n < ls.len() {
        assert(ls.take(n + 1).drop_last() =~= ls.take(n));
        spoiled_line_spoils_all(ls, n + 1);
    } else {
        assert(ls.take(n) =~= ls);
    }
}

/// What a mission file text says; `None` where it names a body or a mission
/// profile that does not exist.
pub fn deserialize(text: &str) -> (r: Option<MissionReading>)
    ensures
        match r {
            Some(m) => read_text(text@) == Some(m@),
            None => read_text(text@) is None,
        },
{
    let ls: Vec<Vec<char>> = lines_of(&chars_of(text));
    let mut m: MissionReading = MissionReading::blank();
    let mut i: usize = 0;
    let ghost all = lines(text@);
    while i < ls.len()
        invariant
            i <= ls.len(),
            views(ls@) == all,
            all == lines(text@),
            take_lines(all.take(i as int)) == Some(m@),
        decreases ls.len() - i,
    {
        assert(all.take(i + 1).drop_last() =~= all.take(i as int));
        assert(all.take(i + 1).last() == ls@[i as int]@);
        assert(ls@.len() == all.len());
        if !m.take(&ls[i]) {
            proof {
                spoiled_line_spoils_all(all, i + 1);
            }
            return None;
        }
        i = i + 1;
    }
    assert(all.take(i as int) =~= all);
    Some(m)
}

// ---------------------------------------------------------------- numbers

/// The numbers of a mission file, read from their texts; `None` for a text that
/// is no number.
pub struct MissionNumbers {
    pub depart: Option<Scalar>,
    pub legs: Vec<Option<Scalar>>,
    pub vinf: Vec<Vec<Option<Scalar>>>,
    pub thrust: Vec<Vec<Option<Scalar>>>,
    pub dsm: Vec<Vec<Option<Scalar>>>,
}

/// A mission that was saved.
pub struct SavedMission {
    pub cfg: SolverConfig,
    pub genome: Genome,
    /// Departure, TDB seconds.
    pub depart_tdb_s: Scalar,
}

/// The numbers among texts that may be none.
pub open spec fn present(v: Seq<Option<Scalar>>) -> Seq<Scalar>
    decreases v.len(),
{
    if v.len() == 0 {
        Seq::empty()
    } else {
        match v.last() {
            Some(x) => present(v.drop_last()).push(x),
            None => present(v.drop_last()),
        }
    }
}

/// The rows that hold exactly `width` numbers.
pub open spec fn full_rows(t: Seq<Seq<Option<Scalar>>>, width: nat) -> Seq<Seq<Scalar>>
    decreases t.len(),
{
    if t.len() == 0 {
        Seq::empty()
    } else {
        let rest = full_rows(t.drop_last(), width);
        let row = present(t.last());
        if row.len() == width {
            rest.push(row)
        } else {
            rest
        }
    }
}

/// The last departure velocity of three numbers; zero where there is none.
pub open spec fn last_vector(t: Seq<Seq<Option<Scalar>>>) -> Seq<Scalar> {
    let all = full_rows(t, 3);
    if all.len() == 0 {
        seq![Scalar { bits: 0 }, Scalar { bits: 0 }, Scalar { bits: 0 }]
    } else {
        all.last()
    }
}

/// Rows of numbers.
pub open spec fn number_rows(t: Seq<Vec<Option<Scalar>>>) -> Seq<Seq<Option<Scalar>>> {
    t.map_values(|row: Vec<Option<Scalar>>| row@)
}

/// The request that a mission file makes.
pub open spec fn saved_setup(r: Reading) -> Setup {
    Setup {
        target: r.target,
        mission: r.mission,
        engine: r.engine,
        launcher: r.launcher,
        route: r.route,
        auto_route: false,
        ..default_setup()
    }
}

fn present_of(v: &Vec<Option<Scalar>>) -> (r: Vec<Scalar>)
    ensures
        r@ == present(v@),
{
    let mut r: Vec<Scalar> = Vec::new();
    let mut i: usize = 0;
    while i < v.len()
        invariant
            i <= v.len(),
            r@ == present(v@.take(i as int)),
        decreases v.len() - i,
    {
        assert(v@.take(i + 1).drop_last() =~= v@.take(i as int));
        if let Some(x) = v[i] {
            r.push(x);
        }
        i = i + 1;
    }
    assert(v@.take(v@.len() as int) =~= v@);
    r
}

fn triples_of(t: &Vec<Vec<Option<Scalar>>>) -> (r: Vec<[Scalar; 3]>)
    ensures
        r@.map_values(|u: [Scalar; 3]| u@) == full_rows(number_rows(t@), 3),
{
    let mut r: Vec<[Scalar; 3]> = Vec::new();
    let ghost f = |u: [Scalar; 3]| u@;
    let ghost all = number_rows(t@);
    assert(r@.map_values(f) =~= full_rows(all.take(0), 3));
    let mut i: usize = 0;
    while i < t.len()
        invariant
            i <= t.len(),
            all == number_rows(t@),
            f == (|u: [Scalar; 3]| u@),
            r@.map_values(f) == full_rows(all.take(i as int), 3),
        decreases t.len() - i,
    {
        assert(all.take(i + 1).drop_last() =~= all.take(i as int));
        assert(all.take(i + 1).last() == t@[i as int]@);
        let row: Vec<Scalar> = present_of(&t[i]);
        if row.len() == 3 {
            let u: [Scalar; 3] = [row[0], row[1], row[2]];
            assert(u@ =~= row@);
            let ghost before = r@.map_values(f);
            r.push(u);
            assert(r@.map_values(f) =~= before.push(row@));
        }
        i = i + 1;
    }
    assert(all.take(t@.len() as int) =~= all);
    r
}

fn quadruples_of(t: &Vec<Vec<Option<Scalar>>>) -> (r: Vec<[Scalar; 4]>)
    ensures
        r@.map_values(|u: [Scalar; 4]| u@) == full_rows(number_rows(t@), 4),
{
    let mut r: Vec<[Scalar; 4]> = Vec::new();
    let ghost f = |u: [Scalar; 4]| u@;
    let ghost all = number_rows(t@);
    assert(r@.map_values(f) =~= full_rows(all.take(0), 4));
    let mut i: usize = 0;
    while i < t.len()
        invariant
            i <= t.len(),
            all == number_rows(t@),
            f == (|u: [Scalar; 4]| u@),
            r@.map_values(f) == full_rows(all.take(i as int), 4),
        decreases t.len() - i,
    {
        assert(all.take(i + 1).drop_last() =~= all.take(i as int));
        assert(all.take(i + 1).last() == t@[i as int]@);
        let row: Vec<Scalar> = present_of(&t[i]);
        if row.len() == 4 {
            let u: [Scalar; 4] = [row[0], row[1], row[2], row[3]];
            assert(u@ =~= row@);
            let ghost before = r@.map_values(f);
            r.push(u);
            assert(r@.map_values(f) =~= before.push(row@));
        }
        i = i + 1;
    }
    assert(all.take(t@.len() as int) =~= all);
    r
}

/// The mission that a file describes, once its numbers have been read. There
/// is none without a flight time or without a departure.
pub fn assemble(m: &MissionReading, n: &MissionNumbers) -> (r: Option<SavedMission>)
    ensures
        r is Some <==> present(n.legs@).len() > 0 && n.depart is Some,
        r matches Some(s) ==> {
            &&& Some(s.depart_tdb_s) == n.depart
            &&& s.cfg@ == saved_setup(m@)
            &&& s.genome@.depart_days == Scalar { bits: 0 }
            &&& s.genome@.legs == present(n.legs@)
            &&& s.genome@.vinf_dep == last_vector(number_rows(n.vinf@))
            &&& s.genome@.thrust == full_rows(number_rows(n.thrust@), 3)
            &&& s.genome@.dsm == full_rows(number_rows(n.dsm@), 4)
            &&& s.genome@.branch == m@.branch
        },
{
    let legs: Vec<Scalar> = present_of(&n.legs);
    if legs.len() == 0 {
        return None;
    }
    let depart_tdb_s: Scalar = match n.depart {
        Some(d) => d,
        None => {
            return None;
        },
    };
    let d: SolverConfig = SolverConfig::default();
    let cfg: SolverConfig = SolverConfig {
        target: m.target,
        objective: d.objective,
        mission: m.mission,
        engine: m.engine,
        launcher: m.launcher,
        auto_route: false,
        route: copy_route(&m.route),
        window_days: d.window_days,
        tof_min_days: d.tof_min_days,
        tof_max_days: d.tof_max_days,
        seed: d.seed,
        beam_width: d.beam_width,
        mutations: d.mutations,
    };
    let vectors: Vec<[Scalar; 3]> = triples_of(&n.vinf);
    let ghost vs = vectors@.map_values(|u: [Scalar; 3]| u@);
    assert(vs.len() == vectors@.len());
    let vinf_dep: [Scalar; 3] = if vectors.len() == 0 {
        let zero: [Scalar; 3] = [Scalar::zero(), Scalar::zero(), Scalar::zero()];
        assert(zero@ =~= last_vector(number_rows(n.vinf@)));
        zero
    } else {
        assert(vs.last() == vectors@[vectors@.len() - 1]@);
        vectors[vectors.len() - 1]
    };
    let genome: Genome = Genome {
        depart_days: Scalar::zero(),
        legs,
        vinf_dep,
        thrust: triples_of(&n.thrust),
        dsm: quadruples_of(&n.dsm),
        branch: copy_all(&m.branch),
    };
    Some(SavedMission { cfg, genome, depart_tdb_s })
}

// ---------------------------------------------------------------- round trip

/// A number text that none of the file's separators occurs in.
pub open spec fn clean(t: Seq<char>) -> bool {
    t.len() > 0 && free_of(t, ',') && free_of(t, ':') && free_of(t, '\n') && free_of(t, '\r')
}

pub open spec fn all_clean(ts: Seq<Seq<char>>) -> bool {
    forall|i: int| 0 <= i < ts.len() ==> clean(#[trigger] ts[i])
}

/// Rows of `width` clean number texts.
pub open spec fn clean_rows(t: Seq<Seq<Seq<char>>>, width: int) -> bool {
    forall|i: int| 0 <= i < t.len() ==> (#[trigger] t[i]).len() == width && all_clean(t[i])
}

impl Record {
    /// Number texts that the file can hold, in the numbers that a candidate
    /// has.
    pub open spec fn wf(self) -> bool {
        &&& clean(self.depart)
        &&& self.legs.len() > 0 && all_clean(self.legs)
        &&& self.vinf.len() == 3 && all_clean(self.vinf)
        &&& clean_rows(self.thrust, 3)
        &&& clean_rows(self.dsm, 4)
    }

    /// What reading the file of this record gives.
    pub open spec fn as_read(self) -> Reading {
        Reading {
            target: self.target,
            mission: self.mission,
            engine: self.engine,
            launcher: self.launcher,
            route: self.route,
            depart: Some(self.depart),
            legs: self.legs,
            vinf: seq![self.vinf],
            thrust: self.thrust,
            dsm: self.dsm,
            branch: self.branch,
        }
    }
}

proof fn join_is_free(parts: Seq<Seq<char>>, sep: char, c: char)
    requires
        c != sep,
        forall|i: int| 0 <= i < parts.len() ==> free_of(#[trigger] parts[i], c),
    ensures
        free_of(join(parts, sep), c),
    decreases parts.len(),
{
    if parts.len() > 1 {
        let front = parts.drop_last();
        assert forall|i: int| 0 <= i < front.len() implies free_of(#[trigger] front[i], c) by {
            assert(front[i] == parts[i]);
        }
        join_is_free(front, sep, c);
        assert(free_of(parts[parts.len() - 1], c));
    } else if parts.len() == 1 {
        assert(free_of(parts[0], c));
    }
}

proof fn join_is_not_empty(parts: Seq<Seq<char>>, sep: char)
    requires
        parts.len() > 0,
        parts[0].len() > 0,
    ensures
        join(parts, sep).len() > 0,
{
}

proof fn nothing_is_empty(parts: Seq<Seq<char>>)
    requires
        forall|i: int| 0 <= i < parts.len() ==> (#[trigger] parts[i]).len() > 0,
    ensures
        nonempty(parts) == parts,
    decreases parts.len(),
{
    if parts.len() > 0 {
        let front = parts.drop_last();
        assert forall|i: int| 0 <= i < front.len() implies (#[trigger] front[i]).len() > 0 by {
            assert(front[i] == parts[i]);
        }
        nothing_is_empty(front);
        assert(parts[parts.len() - 1].len() > 0);
        assert(front.push(parts.last()) =~= parts);
    } else {
        assert(nonempty(parts) =~= parts);
    }
}

proof fn pieces_back(parts: Seq<Seq<char>>, sep: char)
    requires
        forall|i: int|
            0 <= i < parts.len() ==> (#[trigger] parts[i]).len() > 0 && free_of(parts[i], sep),
    ensures
        nonempty(split(join(parts, sep), sep)) == parts,
{
    if parts.len() == 0 {
        let one = seq![Seq::<char>::empty()];
        assert(join(parts, sep) =~= Seq::empty());
        assert(split(Seq::<char>::empty(), sep) =~= one);
        assert(one.drop_last() =~= parts);
        assert(nonempty(parts) =~= parts);
    } else {
        split_undoes_join(parts, sep);
        nothing_is_empty(parts);
    }
}

proof fn named_back(route: Seq<BodyId>)
    ensures
        all_named(names(route)) == Some(route),
    decreases route.len(),
{
    if route.len() > 0 {
        let front = route.drop_last();
        named_back(front);
        body_found_by_name(route.last());
        assert(names(route).drop_last() =~= names(front));
        assert(names(route).last() == route.last().name()@);
        assert(front.push(route.last()) =~= route);
    } else {
        assert(names(route) =~= Seq::empty());
        assert(route =~= Seq::empty());
    }
}

proof fn name_is_free(b: BodyId, c: char)
    requires
        !crate::bodies::is_letter(c),
    ensures
        free_of(b.name()@, c),
        b.name()@.len() > 0,
{
    names_are_letters(b);
}

proof fn rows_back(t: Seq<Seq<Seq<char>>>, width: int)
    requires
        clean_rows(t, width),
        width > 0,
    ensures
        cut(nonempty(split(join(row_texts(t), ','), ','))) == t,
        free_of(join(row_texts(t), ','), '\n'),
        free_of(join(row_texts(t), ','), '\r'),
{
    let parts = row_texts(t);
    assert forall|i: int| 0 <= i < parts.len() implies (#[trigger] parts[i]).len() > 0 && free_of(
        parts[i],
        ',',
    ) && free_of(parts[i], '\n') && free_of(parts[i], '\r') && split(parts[i], ':') == t[i] by {
        let row = t[i];
        assert(clean(row[0]));
        join_is_not_empty(row, ':');
        assert forall|j: int| 0 <= j < row.len() implies free_of(#[trigger] row[j], ',')
            && free_of(row[j], ':') && free_of(row[j], '\n') && free_of(row[j], '\r') by {
            assert(clean(row[j]));
        }
        join_is_free(row, ':', ',');
        join_is_free(row, ':', '\n');
        join_is_free(row, ':', '\r');
        split_undoes_join(row, ':');
    }
    pieces_back(parts, ',');
    join_is_free(parts, ',', '\n');
    join_is_free(parts, ',', '\r');
    assert(cut(parts) =~= t);
}

proof fn numbers_back(ts: Seq<Seq<char>>)
    requires
        ts.len() > 0,
        all_clean(ts),
    ensures
        split(join(ts, ','), ',') == ts,
        free_of(join(ts, ','), '\n'),
        free_of(join(ts, ','), '\r'),
{
    assert forall|i: int| 0 <= i < ts.len() implies free_of(#[trigger] ts[i], ',') && free_of(
        ts[i],
        '\n',
    ) && free_of(ts[i], '\r') by {
        assert(clean(ts[i]));
    }
    split_undoes_join(ts, ',');
    join_is_free(ts, ',', '\n');
    join_is_free(ts, ',', '\r');
}

proof fn branches_back(branch: Seq<u32>)
    ensures
        branches_in(join(branch_texts(branch), ',')) == branch,
        free_of(join(branch_texts(branch), ','), '\n'),
        free_of(join(branch_texts(branch), ','), '\r'),
{
    let ts = branch_texts(branch);
    assert forall|i: int| 0 <= i < ts.len() implies (#[trigger] ts[i]).len() > 0 && free_of(
        ts[i],
        ',',
    ) && free_of(ts[i], '\n') && free_of(ts[i], '\r') && branch_in(ts[i]) == branch[i] by {
        value_of_decimal(branch[i] as nat);
        natural_of_decimal(branch[i] as nat, u32::MAX as int);
        assert forall|k: int| 0 <= k < ts[i].len() implies #[trigger] ts[i][k] != ',' && ts[i][k]
            != '\n' && ts[i][k] != '\r' by {
            assert(is_digit(ts[i][k]));
        }
    }
    join_is_free(ts, ',', '\n');
    join_is_free(ts, ',', '\r');
    if branch.len() > 0 {
        join_is_not_empty(ts, ',');
        split_undoes_join(ts, ',');
    }
    assert(branches_in(join(ts, ',')) =~= branch);
}

/// A key of the file: free of what ends a key or a line.
spec fn key_ok(key: Seq<char>) -> bool {
    free_of(key, '=') && free_of(key, '\n') && free_of(key, '\r')
}

proof fn keys_are_ok()
    ensures
        key_ok("version"@) && key_ok("target"@) && key_ok("mission"@) && key_ok("engine"@),
        key_ok("launcher"@) && key_ok("route"@) && key_ok("depart_tdb_s"@) && key_ok("legs"@),
        key_ok("vinf"@) && key_ok("thrust"@) && key_ok("dsm"@) && key_ok("branch"@),
{
    reveal_strlit("version");
    reveal_strlit("target");
    reveal_strlit("mission");
    reveal_strlit("engine");
    reveal_strlit("launcher");
    reveal_strlit("route");
    reveal_strlit("depart_tdb_s");
    reveal_strlit("legs");
    reveal_strlit("vinf");
    reveal_strlit("thrust");
    reveal_strlit("dsm");
    reveal_strlit("branch");
}

/// Length and first two letters of a key.
spec fn stamp(key: Seq<char>) -> (int, char, char) {
    (key.len() as int, key[0], key[1])
}

proof fn keys_differ()
    ensures
        stamp("version"@) == (7int, 'v', 'e'),
        stamp("target"@) == (6int, 't', 'a'),
        stamp("mission"@) == (7int, 'm', 'i'),
        stamp("engine"@) == (6int, 'e', 'n'),
        stamp("launcher"@) == (8int, 'l', 'a'),
        stamp("route"@) == (5int, 'r', 'o'),
        stamp("depart_tdb_s"@) == (12int, 'd', 'e'),
        stamp("legs"@) == (4int, 'l', 'e'),
        stamp("vinf"@) == (4int, 'v', 'i'),
        stamp("thrust"@) == (6int, 't', 'h'),
        stamp("dsm"@) == (3int, 'd', 's'),
        stamp("branch"@) == (6int, 'b', 'r'),
{
    reveal_strlit("version");
    reveal_strlit("target");
    reveal_strlit("mission");
    reveal_strlit("engine");
    reveal_strlit("launcher");
    reveal_strlit("route");
    reveal_strlit("depart_tdb_s");
    reveal_strlit("legs");
    reveal_strlit("vinf");
    reveal_strlit("thrust");
    reveal_strlit("dsm");
    reveal_strlit("branch");
}

proof fn tokens_are_plain(m: MissionType, e: Engine, l: Launcher)
    ensures
        free_of(mission_token(m)@, '\n') && free_of(mission_token(m)@, '\r'),
        free_of(engine_token(e)@, '\n') && free_of(engine_token(e)@, '\r'),
        free_of(launcher_token(l)@, '\n') && free_of(launcher_token(l)@, '\r'),
        free_of(decimal(FORMAT_VERSION as nat), '\n'),
        free_of(decimal(FORMAT_VERSION as nat), '\r'),
{
    reveal_strlit("flyby");
    reveal_strlit("orbit");
    reveal_strlit("land");
    reveal_strlit("ballistic");
    reveal_strlit("nstar");
    reveal_strlit("next");
    reveal_strlit("aeps");
    reveal_strlit("fh");
    reveal_strlit("sls");
    reveal_strlit("kick");
}

proof fn line_taken(ls: Seq<Seq<char>>, k: int, r: Reading, key: Seq<char>, v: Seq<char>)
    requires
        0 <= k < ls.len(),
        take_lines(ls.take(k)) == Some(r),
        ls[k] == entry(key, v),
        key_ok(key),
    ensures
        take_lines(ls.take(k + 1)) == take_value(r, key, v),
{
    assert(ls.take(k + 1).drop_last() =~= ls.take(k));
    halves_of_pair(key, '=', v);
}

proof fn line_is_one_line(key: Seq<char>, v: Seq<char>)
    requires
        key_ok(key),
        free_of(v, '\n'),
        free_of(v, '\r'),
    ensures
        free_of(entry(key, v), '\n'),
        free_of(entry(key, v), '\r'),
{
}

proof fn lines_are_single(r: Record)
    requires
        r.wf(),
    ensures
        forall|i: int|
            0 <= i < file_lines(r).len() ==> free_of(#[trigger] file_lines(r)[i], '\n') && free_of(
                file_lines(r)[i],
                '\r',
            ),
        nonempty(split(join(names(r.route), ','), ',')) == names(r.route),
{
    keys_are_ok();
    tokens_are_plain(r.mission, r.engine, r.launcher);
    let n = names(r.route);
    assert forall|i: int| 0 <= i < n.len() implies (#[trigger] n[i]).len() > 0 && free_of(n[i], ',')
        && free_of(n[i], '\n') && free_of(n[i], '\r') by {
        name_is_free(r.route[i], ',');
        name_is_free(r.route[i], '\n');
        name_is_free(r.route[i], '\r');
    }
    pieces_back(n, ',');
    join_is_free(n, ',', '\n');
    join_is_free(n, ',', '\r');
    name_is_free(r.target, '\n');
    name_is_free(r.target, '\r');
    numbers_back(r.legs);
    numbers_back(r.vinf);
    rows_back(r.thrust, 3);
    rows_back(r.dsm, 4);
    line_is_one_line("version"@, decimal(FORMAT_VERSION as nat));
    line_is_one_line("target"@, r.target.name()@);
    line_is_one_line("mission"@, mission_token(r.mission)@);
    line_is_one_line("engine"@, engine_token(r.engine)@);
    line_is_one_line("launcher"@, launcher_token(r.launcher)@);
    line_is_one_line("route"@, join(n, ','));
    line_is_one_line("depart_tdb_s"@, r.depart);
    line_is_one_line("legs"@, join(r.legs, ','));
    line_is_one_line("vinf"@, join(r.vinf, ','));
    line_is_one_line("thrust"@, join(row_texts(r.thrust), ','));
    line_is_one_line("dsm"@, join(row_texts(r.dsm), ','));
    branches_back(r.branch);
    line_is_one_line("branch"@, join(branch_texts(r.branch), ','));
    let ls = file_lines(r);
    assert forall|i: int| 0 <= i < ls.len() implies free_of(#[trigger] ls[i], '\n') && free_of(
        ls[i],
        '\r',
    ) by {
        assert(i == 0 || i == 1 || i == 2 || i == 3 || i == 4 || i == 5 || i == 6 || i == 7 || i
            == 8 || i == 9 || i == 10 || i == 11);
    }
}

/// Reading the file that was written for a mission gives back everything that
/// was written.
pub proof fn file_is_read_back(r: Record)
    requires
        r.wf(),
    ensures
        read_text(ended(file_lines(r), '\n')) == Some(r.as_read()),
{
    let ls = file_lines(r);
    lines_are_single(r);
    lines_of_written_lines(ls);
    keys_are_ok();
    keys_differ();
    tokens_are_read_back(r.mission, r.engine, r.launcher);
    body_found_by_name(r.target);
    named_back(r.route);
    numbers_back(r.legs);
    numbers_back(r.vinf);
    rows_back(r.thrust, 3);
    rows_back(r.dsm, 4);
    let none = Seq::<Seq<Seq<char>>>::empty();
    let r0 = blank();
    assert(ls.take(0) =~= Seq::empty());
    line_taken(ls, 0, r0, "version"@, decimal(FORMAT_VERSION as nat));
    line_taken(ls, 1, r0, "target"@, r.target.name()@);
    let r2 = Reading { target: r.target, ..r0 };
    line_taken(ls, 2, r2, "mission"@, mission_token(r.mission)@);
    let r3 = Reading { mission: r.mission, ..r2 };
    line_taken(ls, 3, r3, "engine"@, engine_token(r.engine)@);
    let r4 = Reading { engine: r.engine, ..r3 };
    line_taken(ls, 4, r4, "launcher"@, launcher_token(r.launcher)@);
    let r5 = Reading { launcher: r.launcher, ..r4 };
    line_taken(ls, 5, r5, "route"@, join(names(r.route), ','));
    assert(r5.route + r.route =~= r.route);
    let r6 = Reading { route: r.route, ..r5 };
    line_taken(ls, 6, r6, "depart_tdb_s"@, r.depart);
    let r7 = Reading { depart: Some(r.depart), ..r6 };
    line_taken(ls, 7, r7, "legs"@, join(r.legs, ','));
    let r8 = Reading { legs: r.legs, ..r7 };
    line_taken(ls, 8, r8, "vinf"@, join(r.vinf, ','));
    assert(none.push(r.vinf) =~= seq![r.vinf]);
    let r9 = Reading { vinf: seq![r.vinf], ..r8 };
    line_taken(ls, 9, r9, "thrust"@, join(row_texts(r.thrust), ','));
    assert(none + r.thrust =~= r.thrust);
    let r10 = Reading { thrust: r.thrust, ..r9 };
    line_taken(ls, 10, r10, "dsm"@, join(row_texts(r.dsm), ','));
    assert(none + r.dsm =~= r.dsm);
    let r11 = Reading { dsm: r.dsm, ..r10 };
    branches_back(r.branch);
    line_taken(ls, 11, r11, "branch"@, join(branch_texts(r.branch), ','));
    assert(ls.take(12) =~= ls);
}

/// The version says nothing more: files with another version, or without one,
/// are read by the same rules.
pub proof fn version_is_passed_over(r: Reading, v: Seq<char>)
    ensures
        take_line(r, entry("version"@, v)) == Some(r),
{
    keys_are_ok();
    keys_differ();
    halves_of_pair("version"@, '=', v);
}

/// The file of a candidate, its numbers written by `show`.
pub open spec fn record_of(
    s: Setup,
    g: Genes,
    depart: Scalar,
    show: spec_fn(Scalar) -> Seq<char>,
) -> Record {
    let all = |v: Seq<Scalar>| v.map_values(show);
    Record {
        target: s.target,
        mission: s.mission,
        engine: s.engine,
        launcher: s.launcher,
        route: s.route,
        depart: show(depart),
        legs: all(g.legs),
        vinf: all(g.vinf_dep),
        thrust: g.thrust.map_values(all),
        dsm: g.dsm.map_values(all),
        branch: g.branch,
    }
}

/// Reading each text of a list.
pub open spec fn parsed(
    v: Seq<Seq<char>>,
    parse: spec_fn(Seq<char>) -> Option<Scalar>,
) -> Seq<Option<Scalar>> {
    v.map_values(parse)
}

/// Reading each text of a table.
pub open spec fn parsed_rows(
    t: Seq<Seq<Seq<char>>>,
    parse: spec_fn(Seq<char>) -> Option<Scalar>,
) -> Seq<Seq<Option<Scalar>>> {
    t.map_values(|row: Seq<Seq<char>>| parsed(row, parse))
}

/// None of them is a NaN.
pub open spec fn numeric(v: Seq<Scalar>) -> bool {
    forall|i: int| 0 <= i < v.len() ==> !(#[trigger] v[i]).nan()
}

/// Rows of `width` numbers, none of them a NaN.
pub open spec fn numeric_rows(t: Seq<Seq<Scalar>>, width: nat) -> bool {
    forall|i: int| 0 <= i < t.len() ==> (#[trigger] t[i]).len() == width && numeric(t[i])
}

proof fn all_present(
    v: Seq<Scalar>,
    show: spec_fn(Scalar) -> Seq<char>,
    parse: spec_fn(Seq<char>) -> Option<Scalar>,
)
    requires
        forall|x: Scalar| !x.nan() ==> parse(#[trigger] show(x)) == Some(x),
        numeric(v),
    ensures
        present(parsed(v.map_values(show), parse)) == v,
    decreases v.len(),
{
    let p = parsed(v.map_values(show), parse);
    if v.len() > 0 {
        assert(numeric(v.drop_last())) by {
            assert forall|i: int| 0 <= i < v.len() - 1 implies !(
            #[trigger] v.drop_last()[i]).nan() by {
                assert(!v[i].nan());
            }
        }
        assert(!v[v.len() - 1].nan());
        all_present(v.drop_last(), show, parse);
        assert(p.drop_last() =~= parsed(v.drop_last().map_values(show), parse));
        assert(p.last() == parse(show(v.last())));
        assert(v.drop_last().push(v.last()) =~= v);
    } else {
        assert(present(p) =~= v);
    }
}

proof fn all_full(
    t: Seq<Seq<Scalar>>,
    width: nat,
    show: spec_fn(Scalar) -> Seq<char>,
    parse: spec_fn(Seq<char>) -> Option<Scalar>,
)
    requires
        forall|x: Scalar| !x.nan() ==> parse(#[trigger] show(x)) == Some(x),
        numeric_rows(t, width),
    ensures
        full_rows(parsed_rows(t.map_values(|v: Seq<Scalar>| v.map_values(show)), parse), width) == t,
    decreases t.len(),
{
    let all = |v: Seq<Scalar>| v.map_values(show);
    let p = parsed_rows(t.map_values(all), parse);
    if t.len() > 0 {
        let front = t.drop_last();
        assert forall|i: int| 0 <= i < front.len() implies (#[trigger] front[i]).len() == width
            && numeric(front[i]) by {
            assert(front[i] == t[i]);
        }
        assert(numeric(t[t.len() - 1]));
        all_full(front, width, show, parse);
        assert(p.drop_last() =~= parsed_rows(front.map_values(all), parse));
        assert(p.last() == parsed(t.last().map_values(show), parse));
        all_present(t.last(), show, parse);
        assert(t[t.len() - 1].len() == width);
        assert(front.push(t.last()) =~= t);
    } else {
        assert(full_rows(p, width) =~= t);
    }
}

/// A saved mission comes back as it was: where every number but a NaN is written
/// clean and read back as itself, the file of a candidate gives back its request, its
/// departure, its flight times, its departure velocity, its throttle profile,
/// its burns and its branches.
pub proof fn mission_survives_the_file(
    s: Setup,
    g: Genes,
    depart: Scalar,
    show: spec_fn(Scalar) -> Seq<char>,
    parse: spec_fn(Seq<char>) -> Option<Scalar>,
)
    requires
        forall|x: Scalar|
            !x.nan() ==> clean(#[trigger] show(x)) && parse(show(x)) == Some(x),
        !depart.nan(),
        g.legs.len() > 0 && numeric(g.legs),
        g.vinf_dep.len() == 3 && numeric(g.vinf_dep),
        numeric_rows(g.thrust, 3),
        numeric_rows(g.dsm, 4),
    ensures
        ({
            let file = ended(file_lines(record_of(s, g, depart, show)), '\n');
            &&& read_text(file) matches Some(r)
            &&& saved_setup(r) == (Setup {
                target: s.target,
                mission: s.mission,
                engine: s.engine,
                launcher: s.launcher,
                route: s.route,
                auto_route: false,
                ..default_setup()
            })
            &&& r.depart matches Some(d) && parse(d) == Some(depart)
            &&& present(parsed(r.legs, parse)) == g.legs
            &&& last_vector(parsed_rows(r.vinf, parse)) == g.vinf_dep
            &&& full_rows(parsed_rows(r.thrust, parse), 3) == g.thrust
            &&& full_rows(parsed_rows(r.dsm, parse), 4) == g.dsm
            &&& r.branch == g.branch
        }),
{
    let r = record_of(s, g, depart, show);
    let all = |v: Seq<Scalar>| v.map_values(show);
    assert(r.wf()) by {
        assert forall|i: int| 0 <= i < r.legs.len() implies clean(#[trigger] r.legs[i]) by {
            assert(r.legs[i] == show(g.legs[i]));
        }
        assert forall|i: int| 0 <= i < r.vinf.len() implies clean(#[trigger] r.vinf[i]) by {
            assert(r.vinf[i] == show(g.vinf_dep[i]));
        }
        assert forall|i: int| 0 <= i < r.thrust.len() implies (#[trigger] r.thrust[i]).len() == 3
            && all_clean(r.thrust[i]) by {
            assert(g.thrust[i].len() == 3 && numeric(g.thrust[i]));
            assert(r.thrust[i] == g.thrust[i].map_values(show));
            assert forall|j: int| 0 <= j < r.thrust[i].len() implies clean(
                #[trigger] r.thrust[i][j],
            ) by {
                assert(r.thrust[i][j] == show(g.thrust[i][j]));
            }
        }
        assert forall|i: int| 0 <= i < r.dsm.len() implies (#[trigger] r.dsm[i]).len() == 4
            && all_clean(r.dsm[i]) by {
            assert(g.dsm[i].len() == 4 && numeric(g.dsm[i]));
            assert(r.dsm[i] == g.dsm[i].map_values(show));
            assert forall|j: int| 0 <= j < r.dsm[i].len() implies clean(#[trigger] r.dsm[i][j]) by {
                assert(r.dsm[i][j] == show(g.dsm[i][j]));
            }
        }
    }
    file_is_read_back(r);
    all_present(g.legs, show, parse);
    all_full(g.thrust, 3, show, parse);
    all_full(g.dsm, 4, show, parse);
    let one = seq![g.vinf_dep];
    all_full(one, 3, show, parse);
    assert(one.map_values(all) =~= seq![r.vinf]);
}

/// A candidate that came back from its file flies every leg as the saved one
/// did: the same flight time, the same burn, the same Lambert branch.
pub proof fn saved_legs_fly_alike(saved: Genome, loaded: Genome, i: int)
    requires
        loaded@.legs == saved@.legs,
        loaded@.dsm == saved@.dsm,
        loaded@.branch == saved@.branch,
    ensures
        loaded.flown_by(i) == saved.flown_by(i),
{
    assert(loaded.dsm@.len() == saved@.dsm.len() == saved.dsm@.len());
    if 0 <= i < saved.dsm@.len() {
        assert(loaded@.dsm[i] == loaded.dsm@[i]@);
        assert(saved@.dsm[i] == saved.dsm@[i]@);
        assert(loaded.dsm@[i] =~= saved.dsm@[i]);
    }
}

/// What each line says, whatever was read before it: the choices, the departure, the
/// flight times and the branches are those of the last line, the bodies of a route and
/// the rest go on from what there was, and nothing else changes.
pub proof fn lines_say_their_own(
    r: Reading,
    b: BodyId,
    m: MissionType,
    e: Engine,
    l: Launcher,
    v: Seq<char>,
)
    ensures
        take_line(r, entry("target"@, b.name()@)) == Some(Reading { target: b, ..r }),
        take_line(r, entry("mission"@, m.label()@)) == Some(Reading { mission: m, ..r }),
        take_line(r, entry("engine"@, engine_token(e)@)) == Some(Reading { engine: e, ..r }),
        take_line(r, entry("launcher"@, launcher_token(l)@)) == Some(Reading { launcher: l, ..r }),
        take_line(r, entry("route"@, b.name()@)) == Some(
            Reading { route: r.route.push(b), ..r },
        ),
        take_line(r, entry("depart_tdb_s"@, v)) == Some(Reading { depart: Some(v), ..r }),
        take_line(r, entry("legs"@, v)) == Some(Reading { legs: split(v, ','), ..r }),
        take_line(r, entry("vinf"@, v)) == Some(Reading { vinf: r.vinf.push(split(v, ',')), ..r }),
{
    keys_are_ok();
    keys_differ();
    tokens_are_read_back(m, e, l);
    body_found_by_name(b);
    halves_of_pair("target"@, '=', b.name()@);
    halves_of_pair("mission"@, '=', m.label()@);
    halves_of_pair("engine"@, '=', engine_token(e)@);
    halves_of_pair("launcher"@, '=', launcher_token(l)@);
    halves_of_pair("route"@, '=', b.name()@);
    halves_of_pair("depart_tdb_s"@, '=', v);
    halves_of_pair("legs"@, '=', v);
    halves_of_pair("vinf"@, '=', v);
    one_name_is_a_route(b);
    assert(r.route + seq![b] =~= r.route.push(b));
}

proof fn one_name_is_a_route(b: BodyId)
    ensures
        all_named(nonempty(split(b.name()@, ','))) == Some(seq![b]),
{
    let one = seq![b];
    named_back(one);
    name_is_free(b, ',');
    assert(names(one) =~= seq![b.name()@]);
    assert(join(names(one), ',') == b.name()@);
    pieces_back(names(one), ',');
}

/// A line with another key, and a line without an equals sign, says nothing.
pub proof fn other_lines_say_nothing(r: Reading, key: Seq<char>, v: Seq<char>)
    requires
        free_of(key, '='),
        key != "target"@ && key != "mission"@ && key != "engine"@ && key != "launcher"@,
        key != "route"@ && key != "depart_tdb_s"@ && key != "legs"@ && key != "vinf"@,
        key != "thrust"@ && key != "dsm"@ && key != "branch"@,
    ensures
        take_line(r, entry(key, v)) == Some(r),
        take_line(r, key) == Some(r),
{
    halves_of_pair(key, '=', v);
    find_is_unique(key, '=', key.len() as int);
}

/// The numbers of a list are those that are numbers, in order; rows of another width
/// are left out.
pub proof fn numbers_are_gathered(v: Seq<Option<Scalar>>, x: Scalar)
    ensures
        present(v.push(Some(x))) == present(v).push(x),
        present(v.push(None)) == present(v),
        present(Seq::empty()).len() == 0,
{
    assert(v.push(Some(x)).drop_last() =~= v);
    assert(v.push(None::<Scalar>).drop_last() =~= v);
}

/// A row counts where it holds as many numbers as there are components, and is passed
/// over where it does not; of the departure velocities the last full one counts.
pub proof fn full_rows_are_gathered(
    t: Seq<Seq<Option<Scalar>>>,
    row: Seq<Option<Scalar>>,
    width: nat,
)
    ensures
        present(row).len() == width ==> full_rows(t.push(row), width) == full_rows(t, width).push(
            present(row),
        ),
        present(row).len() != width ==> full_rows(t.push(row), width) == full_rows(t, width),
        present(row).len() == 3 ==> last_vector(t.push(row)) == present(row),
        present(row).len() != 3 ==> last_vector(t.push(row)) == last_vector(t),
{
    assert(t.push(row).drop_last() =~= t);
}

} // verus!
