//! What a search is asked for: objective, mission profile, engine, launcher,
//! route, and the candidate transfers it proposes.

use crate::bodies::BodyId;
use crate::physical::scale;
use crate::scalar::Scalar;
use crate::text::{decimal, spelling, spelling_adds_up, spelling_to, spells};
use vstd::prelude::*;

verus! {

/// What "best transfer" means.
#[derive(Clone, Copy, Debug, PartialEq, Eq, Structural)]
pub enum Objective {
    /// Cheapest ride: departure v-infinity plus arrival cost.
    TotalDv,
    /// Get there fast, with the velocity change weighted lightly.
    TimeOfFlight,
    /// Gentlest arrival.
    ArrivalVinf,
}

impl Objective {
    pub const ALL: [Objective; 3] = [
        Objective::TotalDv,
        Objective::TimeOfFlight,
        Objective::ArrivalVinf,
    ];

    #[verifier::allow_in_spec]
    pub fn label(self) -> &'static str
        returns
            (match self {
                Objective::TotalDv => "min total Δv",
                Objective::TimeOfFlight => "min time of flight",
                Objective::ArrivalVinf => "min arrival v∞",
            }),
    {
        match self {
            Objective::TotalDv => "min total Δv",
            Objective::TimeOfFlight => "min time of flight",
            Objective::ArrivalVinf => "min arrival v∞",
        }
    }
}

/// What happens at the target.
#[derive(Clone, Copy, Debug, PartialEq, Eq, Structural)]
pub enum MissionType {
    /// Fly past: the arrival speed is reported, not charged.
    Flyby,
    /// Capture burn at 1.5 body radii into a high ellipse.
    Orbit,
    /// Come to rest on the surface.
    Land,
}

impl MissionType {
    pub const ALL: [MissionType; 3] = [MissionType::Flyby, MissionType::Orbit, MissionType::Land];

    #[verifier::allow_in_spec]
    pub fn label(self) -> &'static str
        returns
            (match self {
                MissionType::Flyby => "flyby",
                MissionType::Orbit => "orbit",
                MissionType::Land => "land",
            }),
    {
        match self {
            MissionType::Flyby => "flyby",
            MissionType::Orbit => "orbit",
            MissionType::Land => "land",
        }
    }
}

/// The mission profile labelled `s`.
pub open spec fn mission_labelled(s: Seq<char>) -> Option<MissionType> {
    if s == "flyby"@ {
        Some(MissionType::Flyby)
    } else if s == "orbit"@ {
        Some(MissionType::Orbit)
    } else if s == "land"@ {
        Some(MissionType::Land)
    } else {
        None
    }
}

/// The mission profile labelled `s`.
pub fn find_mission(s: &Vec<char>) -> (r: Option<MissionType>)
    ensures
        r == mission_labelled(s@),
{
    if spells(s, "flyby") {
        Some(MissionType::Flyby)
    } else if spells(s, "orbit") {
        Some(MissionType::Orbit)
    } else if spells(s, "land") {
        Some(MissionType::Land)
    } else {
        None
    }
}

/// A mission profile is found under its own label.
pub proof fn mission_found_by_label(m: MissionType)
    ensures
        mission_labelled(m.label()@) == Some(m),
{
    reveal_strlit("flyby");
    reveal_strlit("orbit");
    reveal_strlit("land");
    assert("flyby"@[0] != "orbit"@[0]);
    assert("flyby"@.len() != "land"@.len());
    assert("orbit"@.len() != "land"@.len());
}

/// Electric-propulsion hardware, flown as a pair on a 1500 kg probe.
#[derive(Clone, Copy, Debug, PartialEq, Eq, Structural)]
pub enum Engine {
    /// Chemical: impulses only, no cruise thrust.
    Ballistic,
    /// NSTAR ion.
    Nstar,
    /// NEXT-C ion.
    NextC,
    /// AEPS Hall.
    Aeps,
}

impl Engine {
    pub const ALL: [Engine; 4] = [Engine::Ballistic, Engine::Nstar, Engine::NextC, Engine::Aeps];

    #[verifier::allow_in_spec]
    pub fn label(self) -> &'static str
        returns
            (match self {
                Engine::Ballistic => "ballistic (chemical)",
                Engine::Nstar => "2× NSTAR ion (Dawn-class)",
                Engine::NextC => "2× NEXT-C ion (DART-class)",
                Engine::Aeps => "2× AEPS Hall (Gateway-class)",
            }),
    {
        match self {
            Engine::Ballistic => "ballistic (chemical)",
            Engine::Nstar => "2× NSTAR ion (Dawn-class)",
            Engine::NextC => "2× NEXT-C ion (DART-class)",
            Engine::Aeps => "2× AEPS Hall (Gateway-class)",
        }
    }

    /// Thrust of one engine in millinewtons and specific impulse in seconds;
    /// `None` without cruise thrust.
    #[verifier::allow_in_spec]
    pub fn thrust_isp(self) -> Option<(u32, u32)>
        returns
            (match self {
                Engine::Ballistic => None,
                Engine::Nstar => Some((92u32, 3100u32)),
                Engine::NextC => Some((236u32, 4190u32)),
                Engine::Aeps => Some((589u32, 2900u32)),
            }),
    {
        match self {
            Engine::Ballistic => None,
            Engine::Nstar => Some((92, 3100)),
            Engine::NextC => Some((236, 4190)),
            Engine::Aeps => Some((589, 2900)),
        }
    }
}

/// Launch capability, which caps the departure energy.
#[derive(Clone, Copy, Debug, PartialEq, Eq, Structural)]
pub enum Launcher {
    /// Falcon Heavy expendable.
    FalconHeavy,
    /// SLS Block 1 with ICPS.
    Sls,
    /// Small probe on a heavy launcher with a kick stage.
    KickStage,
}

impl Launcher {
    pub const ALL: [Launcher; 3] = [Launcher::FalconHeavy, Launcher::Sls, Launcher::KickStage];

    #[verifier::allow_in_spec]
    pub fn label(self) -> &'static str
        returns
            (match self {
                Launcher::FalconHeavy => "Falcon Heavy (C3 ≤ 60)",
                Launcher::Sls => "SLS Block 1 (C3 ≤ 93)",
                Launcher::KickStage => "heavy + kick stage (C3 ≤ 130)",
            }),
    {
        match self {
            Launcher::FalconHeavy => "Falcon Heavy (C3 ≤ 60)",
            Launcher::Sls => "SLS Block 1 (C3 ≤ 93)",
            Launcher::KickStage => "heavy + kick stage (C3 ≤ 130)",
        }
    }

    /// Largest launch energy, km^2/s^2.
    #[verifier::allow_in_spec]
    pub fn c3_max(self) -> u32
        returns
            (match self {
                Launcher::FalconHeavy => 60u32,
                Launcher::Sls => 93u32,
                Launcher::KickStage => 130u32,
            }),
    {
        match self {
            Launcher::FalconHeavy => 60,
            Launcher::Sls => 93,
            Launcher::KickStage => 130,
        }
    }
}

/// Thrust-profile segments per low-thrust candidate.
pub const N_SEG: usize = 12;

/// Bodies without a surface to land on.
#[verifier::allow_in_spec]
pub fn is_gas_giant(b: BodyId) -> bool
    returns
        b == BodyId::Sun || b == BodyId::Jupiter || b == BodyId::Saturn || b == BodyId::Uranus || b
            == BodyId::Neptune,
{
    matches!(
        b,
        BodyId::Sun | BodyId::Jupiter | BodyId::Saturn | BodyId::Uranus | BodyId::Neptune
    )
}

/// Bodies whose atmosphere does the braking of a lander.
#[verifier::allow_in_spec]
pub fn has_usable_atmosphere(b: BodyId) -> bool
    returns
        b == BodyId::Venus || b == BodyId::Earth || b == BodyId::Mars || b == BodyId::Titan,
{
    matches!(b, BodyId::Venus | BodyId::Earth | BodyId::Mars | BodyId::Titan)
}

/// How the velocity change at the target is charged.
#[derive(Clone, Copy, Debug, PartialEq, Eq, Structural)]
pub enum ArrivalCharge {
    /// Nothing.
    Free,
    /// The burn from the arrival hyperbola into the parking ellipse.
    Capture,
    /// A prohibitive cost: there is no surface to land on.
    NoSurface,
    /// A token cost: entry, descent and landing are aerodynamic.
    Entry,
    /// The whole speed at the surface, stopped by propulsion.
    SoftLanding,
}

/// How a mission profile is charged at a body.
#[verifier::allow_in_spec]
pub fn arrival_charge(body: BodyId, mission: MissionType) -> ArrivalCharge
    returns
        (match mission {
            MissionType::Flyby => ArrivalCharge::Free,
            MissionType::Orbit => ArrivalCharge::Capture,
            MissionType::Land => if is_gas_giant(body) {
                ArrivalCharge::NoSurface
            } else if has_usable_atmosphere(body) {
                ArrivalCharge::Entry
            } else {
                ArrivalCharge::SoftLanding
            },
        }),
{
    match mission {
        MissionType::Flyby => ArrivalCharge::Free,
        MissionType::Orbit => ArrivalCharge::Capture,
        MissionType::Land => {
            if is_gas_giant(body) {
                ArrivalCharge::NoSurface
            } else if has_usable_atmosphere(body) {
                ArrivalCharge::Entry
            } else {
                ArrivalCharge::SoftLanding
            }
        },
    }
}

impl ArrivalCharge {
    /// The amount charged, km/s, where it does not depend on the arrival:
    /// nothing for a flyby, 1000 where there is no surface, 0.05 for an entry.
    #[verifier::allow_in_spec]
    pub fn fixed(self) -> Option<Scalar>
        returns
            (match self {
                ArrivalCharge::Free => Some(Scalar { bits: 0 }),
                ArrivalCharge::NoSurface => Some(Scalar { bits: 0x408f_4000_0000_0000 }),
                ArrivalCharge::Entry => Some(Scalar { bits: 0x3fa9_9999_9999_999a }),
                ArrivalCharge::Capture => None,
                ArrivalCharge::SoftLanding => None,
            }),
    {
        match self {
            ArrivalCharge::Free => Some(Scalar { bits: 0 }),
            ArrivalCharge::NoSurface => Some(Scalar { bits: 0x408f_4000_0000_0000 }),
            ArrivalCharge::Entry => Some(Scalar { bits: 0x3fa9_9999_9999_999a }),
            ArrivalCharge::Capture => None,
            ArrivalCharge::SoftLanding => None,
        }
    }
}

/// Periapsis radius a correction aims for, in hundredths of the body radius.
#[verifier::allow_in_spec]
pub fn target_periapsis_percent(mission: MissionType) -> u32
    returns
        (match mission {
            MissionType::Orbit => 150u32,
            MissionType::Land => 102u32,
            MissionType::Flyby => 300u32,
        }),
{
    match mission {
        MissionType::Orbit => 150,
        MissionType::Land => 102,
        MissionType::Flyby => 300,
    }
}

/// A search request.
pub struct SolverConfig {
    pub target: BodyId,
    pub objective: Objective,
    pub mission: MissionType,
    pub engine: Engine,
    pub launcher: Launcher,
    /// Discover the flyby route: screen candidate routes, refine the best
    /// few, polish the winner.
    pub auto_route: bool,
    /// Bodies flown past between Earth and the target; empty for a direct
    /// transfer.
    pub route: Vec<BodyId>,
    /// Length of the departure window, days.
    pub window_days: Scalar,
    pub tof_min_days: Scalar,
    pub tof_max_days: Scalar,
    pub seed: u64,
    pub beam_width: usize,
    pub mutations: usize,
}

/// A search request with its route as a sequence.
pub struct Setup {
    pub target: BodyId,
    pub objective: Objective,
    pub mission: MissionType,
    pub engine: Engine,
    pub launcher: Launcher,
    pub auto_route: bool,
    pub route: Seq<BodyId>,
    pub window_days: Scalar,
    pub tof_min_days: Scalar,
    pub tof_max_days: Scalar,
    pub seed: u64,
    pub beam_width: usize,
    pub mutations: usize,
}

impl View for SolverConfig {
    type V = Setup;

    open spec fn view(&self) -> Setup {
        Setup {
            target: self.target,
            objective: self.objective,
            mission: self.mission,
            engine: self.engine,
            launcher: self.launcher,
            auto_route: self.auto_route,
            route: self.route@,
            window_days: self.window_days,
            tof_min_days: self.tof_min_days,
            tof_max_days: self.tof_max_days,
            seed: self.seed,
            beam_width: self.beam_width,
            mutations: self.mutations,
        }
    }
}

/// The request made when nothing is said: an orbiter to Mars, route open,
/// leaving within 900 days and flying 60 to 600 days.
pub open spec fn default_setup() -> Setup {
    Setup {
        target: BodyId::Mars,
        objective: Objective::TotalDv,
        mission: MissionType::Orbit,
        engine: Engine::Ballistic,
        launcher: Launcher::FalconHeavy,
        auto_route: true,
        route: Seq::empty(),
        window_days: Scalar { bits: 0x408c_2000_0000_0000 },
        tof_min_days: Scalar { bits: 0x404e_0000_0000_0000 },
        tof_max_days: Scalar { bits: 0x4082_c000_0000_0000 },
        seed: 7,
        beam_width: 12,
        mutations: 6,
    }
}

impl Default for SolverConfig {
    fn default() -> (r: Self)
        ensures
            r@ == default_setup(),
    {
        SolverConfig {
            target: BodyId::Mars,
            objective: Objective::TotalDv,
            mission: MissionType::Orbit,
            engine: Engine::Ballistic,
            launcher: Launcher::FalconHeavy,
            auto_route: true,
            route: Vec::new(),
            window_days: Scalar { bits: 0x408c_2000_0000_0000 },
            tof_min_days: Scalar { bits: 0x404e_0000_0000_0000 },
            tof_max_days: Scalar { bits: 0x4082_c000_0000_0000 },
            seed: 7,
            beam_width: 12,
            mutations: 6,
        }
    }
}

impl Clone for SolverConfig {
    fn clone(&self) -> (r: Self)
        ensures
            r@ == self@,
    {
        let route: Vec<BodyId> = copy_route(&self.route);
        SolverConfig {
            target: self.target,
            objective: self.objective,
            mission: self.mission,
            engine: self.engine,
            launcher: self.launcher,
            auto_route: self.auto_route,
            route,
            window_days: self.window_days,
            tof_min_days: self.tof_min_days,
            tof_max_days: self.tof_max_days,
            seed: self.seed,
            beam_width: self.beam_width,
            mutations: self.mutations,
        }
    }
}

/// Plain values, copied.
pub(crate) fn copy_all<T: Copy>(v: &Vec<T>) -> (r: Vec<T>)
    ensures
        r@ == v@,
{
    let mut r: Vec<T> = Vec::new();
    let mut i: usize = 0;
    while i < v.len()
        invariant
            i <= v.len(),
            r@ == v@.take(i as int),
        decreases v.len() - i,
    {
        r.push(v[i]);
        assert(v@.take(i + 1) =~= v@.take(i as int).push(v@[i as int]));
        i = i + 1;
    }
    assert(v@.take(v@.len() as int) =~= v@);
    r
}

/// The bodies of a route, copied.
pub fn copy_route(route: &Vec<BodyId>) -> (r: Vec<BodyId>)
    ensures
        r@ == route@,
{
    copy_all(route)
}

/// Bounds on the flight time of one leg.
#[derive(Clone, Copy, Debug, PartialEq, Eq, Structural)]
pub enum LegBound {
    /// A return to the same body: a fixed range of days.
    Fixed { min_days: u32, max_days: u32 },
    /// Two different bodies: a range scaled from their Hohmann time.
    Hohmann { from: BodyId, to: BodyId },
}

/// The bound on a leg between two bodies.
pub open spec fn leg_bound(from: BodyId, to: BodyId) -> LegBound {
    if from == to {
        LegBound::Fixed { min_days: 250, max_days: 1500 }
    } else {
        LegBound::Hohmann { from, to }
    }
}

/// Which model scores a candidate.
#[derive(Clone, Copy, Debug, PartialEq, Eq, Structural)]
pub enum Evaluator {
    /// Patched conics over a route.
    Tour,
    /// Full dynamics with a thrust profile.
    LowThrust,
    /// Full dynamics, coasting.
    Direct,
}

impl Setup {
    /// Full body sequence: Earth, the flybys, the target.
    pub open spec fn bodies(self) -> Seq<BodyId> {
        seq![BodyId::Earth] + self.route.push(self.target)
    }
}

/// Which model scores a candidate of a request, by its segments of thrust.
pub open spec fn evaluator_of(s: Setup, segments: int) -> Evaluator {
    if s.route.len() > 0 {
        Evaluator::Tour
    } else if s.engine != Engine::Ballistic && segments > 0 {
        Evaluator::LowThrust
    } else {
        Evaluator::Direct
    }
}

impl SolverConfig {
    /// Full body sequence: Earth, the flybys, the target.
    pub fn sequence(&self) -> (r: Vec<BodyId>)
        ensures
            r@ == self@.bodies(),
            r.len() >= 2,
            r.len() == self.route.len() + 2,
    {
        let mut r: Vec<BodyId> = Vec::new();
        r.push(BodyId::Earth);
        let mut i: usize = 0;
        while i < self.route.len()
            invariant
                i <= self.route.len(),
                r@ == seq![BodyId::Earth] + self.route@.take(i as int),
            decreases self.route.len() - i,
        {
            r.push(self.route[i]);
            assert(self.route@.take(i + 1) =~= self.route@.take(i as int).push(
                self.route@[i as int],
            ));
            i = i + 1;
        }
        assert(self.route@.take(self.route@.len() as int) =~= self.route@);
        r.push(self.target);
        r
    }

    /// The flight-time bound of every leg, in flying order.
    pub fn leg_bounds(&self) -> (r: Vec<LegBound>)
        ensures
            r.len() == self.route.len() + 1,
            forall|i: int|
                0 <= i < r.len() ==> #[trigger] r@[i] == leg_bound(
                    self@.bodies()[i],
                    self@.bodies()[i + 1],
                ),
    {
        let seq: Vec<BodyId> = self.sequence();
        let mut r: Vec<LegBound> = Vec::new();
        let mut i: usize = 0;
        while i + 1 < seq.len()
            invariant
                i + 1 <= seq.len(),
                seq@ == self@.bodies(),
                r.len() == i,
                forall|j: int|
                    0 <= j < i ==> #[trigger] r@[j] == leg_bound(
                        self@.bodies()[j],
                        self@.bodies()[j + 1],
                    ),
            decreases seq.len() - i,
        {
            if seq[i] == seq[i + 1] {
                r.push(LegBound::Fixed { min_days: 250, max_days: 1500 });
            } else {
                r.push(LegBound::Hohmann { from: seq[i], to: seq[i + 1] });
            }
            i = i + 1;
        }
        r
    }

    /// The longest flight time a search may need: its own upper bound for a
    /// direct transfer, and `None` for a tour, where the upper bounds of the
    /// legs add up.
    pub fn max_direct_tof_days(&self) -> (r: Option<Scalar>)
        ensures
            r == (if self.route@.len() == 0 {
                Some(self.tof_max_days)
            } else {
                None
            }),
    {
        if self.route.len() == 0 {
            Some(self.tof_max_days)
        } else {
            None
        }
    }

    /// Which model scores a candidate that carries `thrust_segments` segments
    /// of thrust: tours stay on conics, engines apply to direct transfers.
    pub fn evaluator(&self, thrust_segments: usize) -> (r: Evaluator)
        ensures
            r == (if self.route@.len() > 0 {
                Evaluator::Tour
            } else if self.engine != Engine::Ballistic && thrust_segments > 0 {
                Evaluator::LowThrust
            } else {
                Evaluator::Direct
            }),
            r == evaluator_of(self@, thrust_segments as int),
            r == Evaluator::Tour <==> self@.bodies().len() > 2,
            r == Evaluator::LowThrust <==> self@.bodies().len() == 2 && self.engine.thrust_isp()
                is Some && thrust_segments != 0,
    {
        if self.route.len() > 0 {
            Evaluator::Tour
        } else if self.engine != Engine::Ballistic && thrust_segments > 0 {
            Evaluator::LowThrust
        } else {
            Evaluator::Direct
        }
    }
}

/// A candidate transfer: when to leave and how long each leg flies.
pub struct Genome {
    pub depart_days: Scalar,
    /// Flight time of each leg, days.
    pub legs: Vec<Scalar>,
    /// Departure v-infinity, km/s.
    pub vinf_dep: [Scalar; 3],
    /// Throttle per segment; empty when coasting.
    pub thrust: Vec<[Scalar; 3]>,
    /// Per leg: fraction of the leg at which a burn happens, and the burn in
    /// km/s; empty for a ballistic tour.
    pub dsm: Vec<[Scalar; 4]>,
    /// Per leg: which of the Lambert arcs that fit is flown; a leg past the
    /// end flies the first.
    pub branch: Vec<u32>,
}

/// A candidate with its parts as sequences.
pub struct Genes {
    pub depart_days: Scalar,
    pub legs: Seq<Scalar>,
    pub vinf_dep: Seq<Scalar>,
    pub thrust: Seq<Seq<Scalar>>,
    pub dsm: Seq<Seq<Scalar>>,
    pub branch: Seq<u32>,
}

impl View for Genome {
    type V = Genes;

    open spec fn view(&self) -> Genes {
        Genes {
            depart_days: self.depart_days,
            legs: self.legs@,
            vinf_dep: self.vinf_dep@,
            thrust: self.thrust@.map_values(|u: [Scalar; 3]| u@),
            dsm: self.dsm@.map_values(|d: [Scalar; 4]| d@),
            branch: self.branch@,
        }
    }
}

impl Clone for Genome {
    fn clone(&self) -> (r: Self)
        ensures
            r@ == self@,
            r.thrust@ == self.thrust@,
            r.dsm@ == self.dsm@,
    {
        Genome {
            depart_days: self.depart_days,
            legs: copy_all(&self.legs),
            vinf_dep: self.vinf_dep,
            thrust: copy_all(&self.thrust),
            dsm: copy_all(&self.dsm),
            branch: copy_all(&self.branch),
        }
    }
}

/// What one leg is flown by.
#[derive(Clone, Copy, Debug, PartialEq, Eq)]
pub struct LegPlan {
    /// Flight time, days.
    pub tof_days: Scalar,
    /// The burn, where there is one: where along the leg, and its components.
    pub burn: Option<[Scalar; 4]>,
    /// Which of the Lambert arcs that fit.
    pub branch: u32,
}

impl Genome {
    /// The burn of leg `i`, where there is one and it is not zero.
    pub open spec fn burn(&self, i: int) -> Option<[Scalar; 4]> {
        if 0 <= i < self.dsm@.len() && !(self.dsm@[i]@[1].magnitude() == 0
            && self.dsm@[i]@[2].magnitude() == 0 && self.dsm@[i]@[3].magnitude() == 0) {
            Some(self.dsm@[i])
        } else {
            None
        }
    }

    /// The burn of leg `i`, where there is one and it is not zero.
    pub fn leg_dsm(&self, i: usize) -> (r: Option<[Scalar; 4]>)
        ensures
            r == self.burn(i as int),
    {
        if i < self.dsm.len() {
            let d: [Scalar; 4] = self.dsm[i];
            if d[1].is_zero() && d[2].is_zero() && d[3].is_zero() {
                None
            } else {
                Some(d)
            }
        } else {
            None
        }
    }

    /// The Lambert branch of leg `i`, zero when unset.
    pub fn leg_branch(&self, i: usize) -> (r: u32)
        ensures
            r == self.arc(i as int),
    {
        if i < self.branch.len() {
            self.branch[i]
        } else {
            0
        }
    }

    /// The Lambert branch of leg `i`, zero when unset.
    pub open spec fn arc(&self, i: int) -> u32 {
        if 0 <= i < self.branch@.len() {
            self.branch@[i]
        } else {
            0
        }
    }

    /// What leg `i` is flown by.
    pub open spec fn flown_by(&self, i: int) -> LegPlan {
        LegPlan { tof_days: self.legs@[i], burn: self.burn(i), branch: self.arc(i) }
    }

    /// What leg `i` is flown by.
    pub fn leg_plan(&self, i: usize) -> (r: LegPlan)
        requires
            i < self.legs@.len(),
        ensures
            r == self.flown_by(i as int),
    {
        LegPlan { tof_days: self.legs[i], burn: self.leg_dsm(i), branch: self.leg_branch(i) }
    }
}

/// A candidate whose burns are all zero is flown, leg by leg, exactly as the
/// same candidate without any burn.
pub proof fn inert_burns_change_nothing(inert: Genome, bare: Genome, i: int)
    requires
        bare.dsm@.len() == 0,
        forall|j: int|
            0 <= j < inert.dsm@.len() ==> (#[trigger] inert.dsm@[j])@[1].magnitude() == 0
                && inert.dsm@[j]@[2].magnitude() == 0 && inert.dsm@[j]@[3].magnitude() == 0,
        inert.legs@ == bare.legs@,
        inert.branch@ == bare.branch@,
    ensures
        inert.flown_by(i) == bare.flown_by(i),
        inert.flown_by(i).burn is None,
{
}

/// The label of a launcher ends with the launch energy that it caps.
#[verifier::rlimit(40)]
pub proof fn launcher_labels_tell_the_energy(l: Launcher)
    ensures
        exists|head: Seq<char>| #[trigger]
            (head + "(C3 ≤ "@ + decimal(l.c3_max() as nat) + ")"@) == l.label()@,
{
    reveal_strlit("Falcon Heavy (C3 ≤ 60)");
    reveal_strlit("SLS Block 1 (C3 ≤ 93)");
    reveal_strlit("heavy + kick stage (C3 ≤ 130)");
    reveal_strlit("(C3 ≤ ");
    reveal_strlit(")");
    reveal_with_fuel(decimal, 4);
    let n = decimal(l.c3_max() as nat);
    let head = l.label()@.take(l.label()@.len() - n.len() - 7);
    match l {
        Launcher::FalconHeavy => {
            assert(n =~= seq!['6', '0']);
            assert(head + "(C3 ≤ "@ + n + ")"@ =~= l.label()@);
        },
        Launcher::Sls => {
            assert(n =~= seq!['9', '3']);
            assert(head + "(C3 ≤ "@ + n + ")"@ =~= l.label()@);
        },
        Launcher::KickStage => {
            assert(n =~= seq!['1', '3', '0']);
            assert(head + "(C3 ≤ "@ + n + ")"@ =~= l.label()@);
        },
    }
}

/// No two choices of a kind share a label.
#[verifier::rlimit(40)]
pub proof fn labels_tell_choices_apart(
    a: Objective,
    b: Objective,
    c: Engine,
    d: Engine,
    e: Launcher,
    f: Launcher,
)
    ensures
        a.label()@ == b.label()@ ==> a == b,
        c.label()@ == d.label()@ ==> c == d,
        e.label()@ == f.label()@ ==> e == f,
{
    reveal_strlit("min total Δv");
    reveal_strlit("min time of flight");
    reveal_strlit("min arrival v∞");
    assert("min total Δv"@[5] == 'o' && "min time of flight"@[5] == 'i' && "min arrival v∞"@[5]
        == 'r');
    reveal_strlit("ballistic (chemical)");
    reveal_strlit("2× NSTAR ion (Dawn-class)");
    reveal_strlit("2× NEXT-C ion (DART-class)");
    reveal_strlit("2× AEPS Hall (Gateway-class)");
    assert("ballistic (chemical)"@[4] == 'i' && "2× NSTAR ion (Dawn-class)"@[4] == 'S'
        && "2× NEXT-C ion (DART-class)"@[4] == 'E' && "2× AEPS Hall (Gateway-class)"@[4] == 'E');
    assert("2× NEXT-C ion (DART-class)"@[3] == 'N' && "2× AEPS Hall (Gateway-class)"@[3] == 'A');
    reveal_strlit("Falcon Heavy (C3 ≤ 60)");
    reveal_strlit("SLS Block 1 (C3 ≤ 93)");
    reveal_strlit("heavy + kick stage (C3 ≤ 130)");
    assert("Falcon Heavy (C3 ≤ 60)"@[0] == 'F' && "SLS Block 1 (C3 ≤ 93)"@[0] == 'S'
        && "heavy + kick stage (C3 ≤ 130)"@[0] == 'h');
}

/// The power of the jet, in milliwatts, at a thrust in millinewtons and a
/// specific impulse in seconds.
pub open spec fn jet_power(thrust: int, isp: int) -> int {
    thrust * isp * 980_665 / 200_000
}

/// The engines stand in the order of their power: the jet of an NSTAR has between
/// 1.3 and 1.5 kW, that of a NEXT-C between 4.8 and 5 kW, that of an AEPS between
/// 8.3 and 8.5 kW; the gridded engines have the faster jets.
pub proof fn engines_have_their_power()
    ensures
        match (
            Engine::Nstar.thrust_isp(),
            Engine::NextC.thrust_isp(),
            Engine::Aeps.thrust_isp(),
        ) {
            (Some((a, x)), Some((b, y)), Some((c, z))) => {
                &&& 1_300_000 < jet_power(a as int, x as int) < 1_500_000
                &&& 4_800_000 < jet_power(b as int, y as int) < 5_000_000
                &&& 8_300_000 < jet_power(c as int, z as int) < 8_500_000
                &&& z < x < y
                &&& 3 * x + 5 * y + 7 * z == 50_550 && 3 * a + 5 * b + 7 * c == 5_579
            },
            _ => false,
        },
        forall|e: Engine| #[trigger] e.thrust_isp() is None <==> e == Engine::Ballistic,
{
    assert(jet_power(92, 3_100) == 1_398_428) by (nonlinear_arith);
    assert(jet_power(236, 4_190) == 4_848_603) by (nonlinear_arith);
    assert(jet_power(589, 2_900) == 8_375_369) by (nonlinear_arith);
}

/// The bodies without a surface are those wider than 20,000 km; the atmospheres
/// that brake a lander are those of three planets and of one moon.
pub proof fn surfaces_follow_the_bodies(b: BodyId)
    ensures
        is_gas_giant(b) <==> b.radius_km().mantissa > 20_000 * scale(b.radius_km().places),
        has_usable_atmosphere(b) <==> b.naif_id() == 299 || b.naif_id() == 399 || b.naif_id() == 4
            || b.naif_id() == 606,
        has_usable_atmosphere(b) ==> b.radius_km().mantissa > 2_500 * scale(b.radius_km().places),
{
}

/// What an arrival costs: a flyby nothing and an orbit its capture, at every body;
/// a landing is out of reach where the body is wider than 20,000 km, almost free
/// where there is air, and flown on the engine everywhere else.
pub proof fn arrivals_are_charged(b: BodyId)
    ensures
        arrival_charge(b, MissionType::Flyby).fixed() == Some(Scalar { bits: 0 }),
        arrival_charge(b, MissionType::Orbit) == ArrivalCharge::Capture,
        ({
            let c = arrival_charge(b, MissionType::Land);
            let wide = b.radius_km().mantissa > 20_000 * scale(b.radius_km().places);
            &&& c == ArrivalCharge::NoSurface <==> wide
            &&& c == ArrivalCharge::Entry <==> has_usable_atmosphere(b)
            &&& c == ArrivalCharge::SoftLanding <==> !wide && !has_usable_atmosphere(b)
        }),
        forall|m: MissionType|
            (#[trigger] arrival_charge(b, m)).fixed() is None <==> m == MissionType::Orbit || (m
                == MissionType::Land && b.radius_km().mantissa <= 20_000 * scale(
                b.radius_km().places,
            ) && !has_usable_atmosphere(b)),
{
    surfaces_follow_the_bodies(b);
}

/// When nothing is said the profile is an orbit, the engine does not thrust, the
/// launcher is the one of least energy, and the aim is the first of the list.
pub proof fn defaults_are_the_plainest()
    ensures
        default_setup().mission.label()@ == "orbit"@,
        default_setup().engine.thrust_isp() is None,
        forall|l: Launcher| default_setup().launcher.c3_max() <= #[trigger] l.c3_max(),
        default_setup().objective == Objective::ALL@[0],
        default_setup().bodies() == seq![BodyId::Earth, BodyId::Mars],
{
    reveal_strlit("flyby");
    reveal_strlit("orbit");
    reveal_strlit("land");
    assert(default_setup().bodies() =~= seq![BodyId::Earth, BodyId::Mars]);
}

/// A flight visits its bodies in order: it leaves Earth, passes the bodies of its
/// route one by one, and ends at the target.
pub proof fn flights_leave_earth(s: Setup, i: int)
    ensures
        s.bodies().len() == s.route.len() + 2,
        s.bodies()[0] == BodyId::Earth,
        s.bodies().last() == s.target,
        0 <= i < s.route.len() ==> s.bodies()[i + 1] == s.route[i],
{
}

/// Only a return to the same body has a range of days of its own, 250 to 1500;
/// every other leg is bounded by the two bodies it joins, in flying order.
pub proof fn only_returns_have_fixed_bounds(from: BodyId, to: BodyId)
    ensures
        match leg_bound(from, to) {
            LegBound::Fixed { min_days, max_days } => from == to && min_days == 250 && max_days
                == 6 * min_days,
            LegBound::Hohmann { from: a, to: b } => a != b && a == from && b == to,
        },
{
}

/// A leg has the burn of its own row and no other, unless every component of it is
/// zero; a leg past the end of a list has no burn and flies the first arc.
pub proof fn legs_are_flown_by_their_own_genes(g: Genome, i: int)
    requires
        0 <= i < g.legs@.len(),
    ensures
        g.flown_by(i).tof_days == g.legs@[i],
        i >= g.dsm@.len() ==> g.flown_by(i).burn is None,
        i < g.dsm@.len() ==> (g.flown_by(i).burn is None <==> forall|k: int|
            1 <= k < 4 ==> (#[trigger] g.dsm@[i]@[k]).magnitude() == 0),
        g.flown_by(i).burn matches Some(d) ==> d == g.dsm@[i],
        i >= g.branch@.len() ==> g.flown_by(i).branch == 0,
        i < g.branch@.len() ==> g.flown_by(i).branch == g.branch@[i],
{
    if i < g.dsm@.len() && g.burn(i) is Some {
        let d = g.dsm@[i]@;
        assert(d[1].magnitude() != 0 || d[2].magnitude() != 0 || d[3].magnitude() != 0);
    }
}

proof fn labels_spelled()
    ensures
        spelling("min total Δv"@) == 16_395,
        spelling("min time of flight"@) == 16_379,
        spelling("min arrival v∞"@) == 130_998,
        spelling("flyby"@) == 1_678,
        spelling("orbit"@) == 1_633,
        spelling("land"@) == 1_032,
{
    reveal_with_fuel(spelling_to, 19);
    assert(spelling("min total Δv"@) == 16_395) by {
        reveal_strlit("min total Δv");
        spelling_adds_up("min total Δv"@);
    }
    assert(spelling("min time of flight"@) == 16_379) by {
        reveal_strlit("min time of flight");
        spelling_adds_up("min time of flight"@);
    }
    assert(spelling("min arrival v∞"@) == 130_998) by {
        reveal_strlit("min arrival v∞");
        spelling_adds_up("min arrival v∞"@);
    }
    assert(spelling("flyby"@) == 1_678) by {
        reveal_strlit("flyby");
        spelling_adds_up("flyby"@);
    }
    assert(spelling("orbit"@) == 1_633) by {
        reveal_strlit("orbit");
        spelling_adds_up("orbit"@);
    }
    assert(spelling("land"@) == 1_032) by {
        reveal_strlit("land");
        spelling_adds_up("land"@);
    }
}

proof fn hardware_spelled()
    ensures
        spelling("ballistic (chemical)"@) == 19_136,
        spelling("2× NSTAR ion (Dawn-class)"@) == 28_015,
        spelling("2× NEXT-C ion (DART-class)"@) == 28_149,
        spelling("2× AEPS Hall (Gateway-class)"@) == 36_252,
        spelling("Falcon Heavy (C3 ≤ 60)"@) == 173_039,
        spelling("SLS Block 1 (C3 ≤ 93)"@) == 161_308,
        spelling("heavy + kick stage (C3 ≤ 130)"@) == 237_649,
{
    reveal_with_fuel(spelling_to, 30);
    assert(spelling("ballistic (chemical)"@) == 19_136) by {
        reveal_strlit("ballistic (chemical)");
        spelling_adds_up("ballistic (chemical)"@);
    }
    assert(spelling("2× NSTAR ion (Dawn-class)"@) == 28_015) by {
        reveal_strlit("2× NSTAR ion (Dawn-class)");
        spelling_adds_up("2× NSTAR ion (Dawn-class)"@);
    }
    assert(spelling("2× NEXT-C ion (DART-class)"@) == 28_149) by {
        reveal_strlit("2× NEXT-C ion (DART-class)");
        spelling_adds_up("2× NEXT-C ion (DART-class)"@);
    }
    assert(spelling("2× AEPS Hall (Gateway-class)"@) == 36_252) by {
        reveal_strlit("2× AEPS Hall (Gateway-class)");
        spelling_adds_up("2× AEPS Hall (Gateway-class)"@);
    }
    assert(spelling("Falcon Heavy (C3 ≤ 60)"@) == 173_039) by {
        reveal_strlit("Falcon Heavy (C3 ≤ 60)");
        spelling_adds_up("Falcon Heavy (C3 ≤ 60)"@);
    }
    assert(spelling("SLS Block 1 (C3 ≤ 93)"@) == 161_308) by {
        reveal_strlit("SLS Block 1 (C3 ≤ 93)");
        spelling_adds_up("SLS Block 1 (C3 ≤ 93)"@);
    }
    assert(spelling("heavy + kick stage (C3 ≤ 130)"@) == 237_649) by {
        reveal_strlit("heavy + kick stage (C3 ≤ 130)");
        spelling_adds_up("heavy + kick stage (C3 ≤ 130)"@);
    }
}

/// The labels as they are spelled: the characters of each, by their places, add up
/// to this.
pub proof fn labels_are_spelled(o: Objective, m: MissionType, e: Engine, l: Launcher)
    ensures
        spelling(o.label()@) == (match o {
            Objective::TotalDv => 16_395int,
            Objective::TimeOfFlight => 16_379int,
            Objective::ArrivalVinf => 130_998int,
        }),
        spelling(m.label()@) == (match m {
            MissionType::Flyby => 1_678int,
            MissionType::Orbit => 1_633int,
            MissionType::Land => 1_032int,
        }),
        spelling(e.label()@) == (match e {
            Engine::Ballistic => 19_136int,
            Engine::Nstar => 28_015int,
            Engine::NextC => 28_149int,
            Engine::Aeps => 36_252int,
        }),
        spelling(l.label()@) == (match l {
            Launcher::FalconHeavy => 173_039int,
            Launcher::Sls => 161_308int,
            Launcher::KickStage => 237_649int,
        }),
{
    labels_spelled();
    hardware_spelled();
}

/// What a label says is what the choice is: only the aim of a gentle arrival speaks
/// of one, and only that of a quick flight of its time.
pub proof fn objectives_say_what_they_aim_at(o: Objective)
    ensures
        o.label()@.len() > 6,
        o.label()@[4] == 'a' <==> o == Objective::ArrivalVinf,
        o.label()@[4] == 't' && o.label()@[5] == 'i' <==> o == Objective::TimeOfFlight,
{
    reveal_strlit("min total Δv");
    reveal_strlit("min time of flight");
    reveal_strlit("min arrival v∞");
}

/// Every choice is listed, in the order in which they are declared.
pub proof fn choices_are_listed(o: Objective, m: MissionType, e: Engine, l: Launcher)
    ensures
        Objective::ALL@.contains(o),
        MissionType::ALL@.contains(m),
        Engine::ALL@.contains(e),
        Launcher::ALL@.contains(l),
        forall|i: int, j: int|
            0 <= i < j < 3 ==> Launcher::ALL@[i].c3_max() < #[trigger] Launcher::ALL@[j].c3_max()
                && #[trigger] Launcher::ALL@[i] != Launcher::ALL@[j],
        Engine::ALL@[0].thrust_isp() is None,
{
    assert(Objective::ALL@[0] == Objective::TotalDv && Objective::ALL@[1]
        == Objective::TimeOfFlight && Objective::ALL@[2] == Objective::ArrivalVinf);
    assert(MissionType::ALL@[0] == MissionType::Flyby && MissionType::ALL@[1]
        == MissionType::Orbit && MissionType::ALL@[2] == MissionType::Land);
    assert(Engine::ALL@[0] == Engine::Ballistic && Engine::ALL@[1] == Engine::Nstar
        && Engine::ALL@[2] == Engine::NextC && Engine::ALL@[3] == Engine::Aeps);
    assert(Launcher::ALL@[0] == Launcher::FalconHeavy && Launcher::ALL@[1] == Launcher::Sls
        && Launcher::ALL@[2] == Launcher::KickStage);
}

/// Which model scores a candidate: a tour stays on conics whatever it carries; a
/// direct transfer is flown in full, with its thrust where its engine has any and the
/// candidate a profile of it.
pub proof fn evaluators_fit_the_request(s: Setup, segments: int)
    ensures
        evaluator_of(s, segments) == Evaluator::Tour <==> s.bodies().len() > 2,
        evaluator_of(s, segments) == Evaluator::LowThrust <==> s.bodies().len() == 2
            && s.engine.thrust_isp() is Some && segments > 0,
        evaluator_of(s, segments) == Evaluator::Direct <==> s.bodies().len() == 2 && (
        s.engine.thrust_isp() is None || segments <= 0),
{
}

} // verus!
