//! Fresh candidates: what is drawn for one, in which order, and which of the
//! drawn timings is kept.

use crate::beam::before;
use crate::bodies::BodyId;
use crate::problem::{
    arrival_charge, ArrivalCharge, Engine, Genes, Genome, MissionType, Setup, SolverConfig, N_SEG,
};
use crate::rng::{index_below, register, unit_of, word, Rng};
use crate::scalar::Scalar;
use vstd::prelude::*;

verus! {

/// Timings drawn for a seed of the launch-feasible channel. All of them are
/// always drawn.
pub const SEED_DRAWS: usize = 12;

/// How one leg's flight time is drawn. A `unit` is the numerator of a
/// fraction of 2^53.
#[derive(Clone, Copy, Debug, PartialEq, Eq, Structural)]
pub enum LegDraw {
    /// Between the larger of the lower bound and 0.4 of the upper bound, and
    /// the upper bound: braking on electric propulsion needs cruise time.
    Long { unit: u64 },
    /// Near a whole number of years of the body returned to.
    Resonant { years: u32, unit: u64 },
    /// Anywhere between the bounds.
    Uniform { unit: u64 },
}

/// One drawn schedule: departure as a fraction of the window, and the legs.
pub struct TimingDraw {
    pub depart: u64,
    pub legs: Vec<LegDraw>,
}

/// A drawn schedule with its legs as a sequence.
pub struct Timing {
    pub depart: u64,
    pub legs: Seq<LegDraw>,
}

impl View for TimingDraw {
    type V = Timing;

    open spec fn view(&self) -> Timing {
        Timing { depart: self.depart, legs: self.legs@ }
    }
}

/// The draw of one leg from the stream of `x`, starting at word `k`.
pub open spec fn leg_draw(x: u64, k: nat, skew: bool, resonant: bool) -> LegDraw {
    if skew {
        LegDraw::Long { unit: unit_of(x, k) }
    } else if resonant {
        LegDraw::Resonant {
            years: (1 + index_below(x, k, 3)) as u32,
            unit: unit_of(x, k + 1),
        }
    } else {
        LegDraw::Uniform { unit: unit_of(x, k) }
    }
}

/// Words that the first `n` legs of a sequence take.
pub open spec fn legs_cost(seq: Seq<BodyId>, skew: bool, n: nat) -> nat
    decreases n,
{
    if n == 0 {
        0
    } else {
        legs_cost(seq, skew, (n - 1) as nat) + if !skew && seq[n - 1] == seq[n as int] {
            2nat
        } else {
            1nat
        }
    }
}

/// Words that one schedule takes: one for the departure, then the legs.
pub open spec fn timing_cost(seq: Seq<BodyId>, skew: bool) -> nat {
    1 + legs_cost(seq, skew, (seq.len() - 1) as nat)
}

/// The schedule drawn for a body sequence from the stream of `x`, starting at
/// word `k`.
pub open spec fn timing(x: u64, k: nat, seq: Seq<BodyId>, skew: bool) -> Timing {
    Timing {
        depart: unit_of(x, k),
        legs: Seq::new(
            (seq.len() - 1) as nat,
            |i: int|
                leg_draw(x, k + 1 + legs_cost(seq, skew, i as nat), skew, seq[i] == seq[i + 1]),
        ),
    }
}

fn timing_at(
    rng: &mut Rng,
    seq: &Vec<BodyId>,
    skew: bool,
    Ghost(x): Ghost<u64>,
    Ghost(k): Ghost<nat>,
) -> (r: TimingDraw)
    requires
        seq.len() > 0,
        old(rng).state() == register(x, k),
    ensures
        r@ == timing(x, k, seq@, skew),
        final(rng).state() == register(x, k + timing_cost(seq@, skew)),
{
    let depart: u64 = rng.unit_at(Ghost(x), Ghost(k));
    let mut legs: Vec<LegDraw> = Vec::new();
    let mut i: usize = 0;
    while i + 1 < seq.len()
        invariant
            i + 1 <= seq.len(),
            legs.len() == i,
            rng.state() == register(x, k + 1 + legs_cost(seq@, skew, i as nat)),
            forall|j: int|
                0 <= j < i ==> #[trigger] legs@[j] == leg_draw(
                    x,
                    k + 1 + legs_cost(seq@, skew, j as nat),
                    skew,
                    seq@[j] == seq@[j + 1],
                ),
        decreases seq.len() - i,
    {
        let ghost at: nat = k + 1 + legs_cost(seq@, skew, i as nat);
        if skew {
            let unit: u64 = rng.unit_at(Ghost(x), Ghost(at));
            legs.push(LegDraw::Long { unit });
        } else if seq[i] == seq[i + 1] {
            let turns: usize = rng.below_at(3, Ghost(x), Ghost(at));
            let unit: u64 = rng.unit_at(Ghost(x), Ghost(at + 1));
            legs.push(LegDraw::Resonant { years: 1 + turns as u32, unit });
        } else {
            let unit: u64 = rng.unit_at(Ghost(x), Ghost(at));
            legs.push(LegDraw::Uniform { unit });
        }
        i = i + 1;
    }
    assert(legs@ =~= timing(x, k, seq@, skew).legs);
    TimingDraw { depart, legs }
}

impl Setup {
    /// A direct transfer on electric propulsion.
    pub open spec fn sep(self) -> bool {
        self.engine != Engine::Ballistic && self.route.len() == 0
    }

    /// Flight times are skewed long: electric propulsion that has to brake.
    pub open spec fn skewed(self) -> bool {
        self.sep() && self.mission != MissionType::Flyby
    }

    /// A direct transfer on impulses.
    pub open spec fn ballistic_direct(self) -> bool {
        self.engine == Engine::Ballistic && self.route.len() == 0
    }
}

/// One random schedule for a request.
pub fn draw_timing(rng: &mut Rng, cfg: &SolverConfig) -> (r: TimingDraw)
    ensures
        r@ == timing(old(rng).state(), 0, cfg@.bodies(), cfg@.skewed()),
        final(rng).state() == register(
            old(rng).state(),
            timing_cost(cfg@.bodies(), cfg@.skewed()),
        ),
{
    let seq: Vec<BodyId> = cfg.sequence();
    let skew: bool = cfg.engine != Engine::Ballistic && cfg.route.len() == 0 && cfg.mission
        != MissionType::Flyby;
    let ghost x = rng.state();
    timing_at(rng, &seq, skew, Ghost(x), Ghost(0))
}

/// Which channel a ballistic direct seed comes from, and which of the
/// launch-feasible timings it would pick.
#[derive(Clone, Copy, Debug, PartialEq, Eq, Structural)]
pub struct Channel {
    pub uniform: bool,
    pub pick: usize,
}

/// How the departure velocity of a seed is found.
#[derive(Clone, Copy, Debug, PartialEq, Eq, Structural)]
pub enum Aim {
    /// Left at zero: the first arc of a tour fixes it.
    Tour,
    /// Along Earth's motion, as fast as the launcher can from half its
    /// capability up.
    Spiral { unit: u64 },
    /// Aimed at the target on a conic, or along these components where there
    /// is none.
    Lambert { x: u64, y: u64, z: u64 },
}

/// Everything random about one fresh candidate.
pub struct SeedPlan {
    /// Set for ballistic direct seeds, which are drawn in a batch.
    pub channel: Option<Channel>,
    /// The drawn schedules.
    pub draws: Vec<TimingDraw>,
    pub aim: Aim,
}

/// A seed plan with its schedules as a sequence.
pub struct Plan {
    pub channel: Option<Channel>,
    pub draws: Seq<Timing>,
    pub aim: Aim,
}

impl View for SeedPlan {
    type V = Plan;

    open spec fn view(&self) -> Plan {
        Plan {
            channel: self.channel,
            draws: self.draws@.map_values(|d: TimingDraw| d@),
            aim: self.aim,
        }
    }
}

/// Words taken before the aim is drawn.
pub open spec fn schedule_cost(s: Setup) -> nat {
    if s.ballistic_direct() {
        2 + SEED_DRAWS as nat * timing_cost(s.bodies(), false)
    } else {
        timing_cost(s.bodies(), s.skewed())
    }
}

/// The aim drawn at word `k`.
pub open spec fn aim_at(x: u64, k: nat, s: Setup) -> Aim {
    if s.route.len() > 0 {
        Aim::Tour
    } else if s.sep() && index_below(x, k, 2) == 0 {
        Aim::Spiral { unit: unit_of(x, k + 1) }
    } else {
        let f = if s.sep() {
            k + 1
        } else {
            k
        };
        Aim::Lambert { x: unit_of(x, f), y: unit_of(x, f + 1), z: unit_of(x, f + 2) }
    }
}

/// Words that the aim takes.
pub open spec fn aim_cost(x: u64, k: nat, s: Setup) -> nat {
    if s.route.len() > 0 {
        0
    } else if !s.sep() {
        3
    } else if index_below(x, k, 2) == 0 {
        2
    } else {
        4
    }
}

/// The plan of one fresh candidate, drawn from the stream of `x` from word
/// `k` on.
pub open spec fn plan(x: u64, k: nat, s: Setup) -> Plan {
    let c = timing_cost(s.bodies(), s.skewed());
    Plan {
        channel: if s.ballistic_direct() {
            Some(
                Channel {
                    uniform: index_below(x, k, 3) == 0,
                    pick: index_below(x, k + 1, SEED_DRAWS as int) as usize,
                },
            )
        } else {
            None
        },
        draws: if s.ballistic_direct() {
            Seq::new(
                SEED_DRAWS as nat,
                |i: int| timing(x, k + 2 + (i as nat) * c, s.bodies(), false),
            )
        } else {
            seq![timing(x, k, s.bodies(), s.skewed())]
        },
        aim: aim_at(x, k + schedule_cost(s), s),
    }
}

/// Words that the plan takes.
pub open spec fn plan_cost(x: u64, k: nat, s: Setup) -> nat {
    schedule_cost(s) + aim_cost(x, k + schedule_cost(s), s)
}

pub(crate) fn plan_seed_at(
    rng: &mut Rng,
    cfg: &SolverConfig,
    Ghost(x): Ghost<u64>,
    Ghost(k): Ghost<nat>,
) -> (r: SeedPlan)
    requires
        old(rng).state() == register(x, k),
    ensures
        r@ == plan(x, k, cfg@),
        final(rng).state() == register(x, k + plan_cost(x, k, cfg@)),
        r.channel matches Some(c) ==> c.pick < SEED_DRAWS,
{
    let seq: Vec<BodyId> = cfg.sequence();
    let direct: bool = cfg.route.len() == 0;
    let sep: bool = cfg.engine != Engine::Ballistic && direct;
    let skew: bool = sep && cfg.mission != MissionType::Flyby;
    let ghost cost = timing_cost(seq@, skew);
    let mut draws: Vec<TimingDraw> = Vec::new();
    let mut channel: Option<Channel> = None;
    if direct && !sep {
        let coin: usize = rng.below_at(3, Ghost(x), Ghost(k));
        let pick: usize = rng.below_at(SEED_DRAWS, Ghost(x), Ghost(k + 1));
        channel = Some(Channel { uniform: coin == 0, pick });
        let mut i: usize = 0;
        while i < SEED_DRAWS
            invariant
                i <= SEED_DRAWS,
                seq.len() > 0,
                seq@ == cfg@.bodies(),
                !skew,
                cost == timing_cost(seq@, skew),
                draws.len() == i,
                rng.state() == register(x, k + 2 + (i as nat) * cost),
                forall|j: int|
                    0 <= j < i ==> (#[trigger] draws@[j])@ == timing(
                        x,
                        k + 2 + (j as nat) * cost,
                        seq@,
                        false,
                    ),
            decreases SEED_DRAWS - i,
        {
            let ghost at: nat = k + 2 + (i as nat) * cost;
            let d: TimingDraw = timing_at(rng, &seq, skew, Ghost(x), Ghost(at));
            draws.push(d);
            assert(at + cost == k + 2 + ((i + 1) as nat) * cost) by (nonlinear_arith)
                requires
                    at == k + 2 + (i as nat) * cost,
            ;
            i = i + 1;
        }
    } else {
        let d: TimingDraw = timing_at(rng, &seq, skew, Ghost(x), Ghost(k));
        draws.push(d);
    }
    let ghost at: nat = k + schedule_cost(cfg@);
    let aim: Aim;
    if !direct {
        aim = Aim::Tour;
    } else {
        let mut spiral: bool = false;
        let ghost mut f: nat = at;
        if sep {
            let coin: usize = rng.below_at(2, Ghost(x), Ghost(at));
            spiral = coin == 0;
            proof {
                f = at + 1;
            }
        }
        if spiral {
            let unit: u64 = rng.unit_at(Ghost(x), Ghost(f));
            aim = Aim::Spiral { unit };
        } else {
            let a: u64 = rng.unit_at(Ghost(x), Ghost(f));
            let b: u64 = rng.unit_at(Ghost(x), Ghost(f + 1));
            let c: u64 = rng.unit_at(Ghost(x), Ghost(f + 2));
            aim = Aim::Lambert { x: a, y: b, z: c };
        }
    }
    let r: SeedPlan = SeedPlan { channel, draws, aim };
    assert(r@.draws =~= plan(x, k, cfg@).draws);
    r
}

/// Draws everything random about one fresh candidate. What is drawn, and how
/// much, depends on the request and the stream alone.
pub fn plan_seed(rng: &mut Rng, cfg: &SolverConfig) -> (r: SeedPlan)
    ensures
        r@ == plan(old(rng).state(), 0, cfg@),
        final(rng).state() == register(
            old(rng).state(),
            plan_cost(old(rng).state(), 0, cfg@),
        ),
        r.channel matches Some(c) ==> c.pick < SEED_DRAWS,
{
    let ghost x = rng.state();
    plan_seed_at(rng, cfg, Ghost(x), Ghost(0))
}

/// Without electric propulsion, or on a tour, the number of words a fresh
/// candidate takes does not depend on the stream at all.
pub proof fn seed_cost_is_fixed(x: u64, k: nat, y: u64, l: nat, s: Setup)
    requires
        !s.sep(),
    ensures
        plan_cost(x, k, s) == plan_cost(y, l, s),
{
}

/// A plan drawn later in a stream is the plan drawn from there on.
pub proof fn plan_shifts(x: u64, a: nat, s: Setup)
    ensures
        plan(register(x, a), 0, s) == plan(x, a, s),
        plan_cost(register(x, a), 0, s) == plan_cost(x, a, s),
{
    let y = register(x, a);
    assert forall|k: nat| #[trigger] crate::rng::word(y, k) == crate::rng::word(x, a + k) by {
        crate::rng::words_shift(x, a, k);
    }
    assert forall|k: nat, sk: bool|
        timing(y, k, s.bodies(), sk) == #[trigger] timing(x, a + k, s.bodies(), sk) by {
        let p = timing(y, k, s.bodies(), sk);
        let q = timing(x, a + k, s.bodies(), sk);
        assert forall|i: int| 0 <= i < p.legs.len() implies p.legs[i] == q.legs[i] by {
            let c = legs_cost(s.bodies(), sk, i as nat);
            assert(a + (k + 1 + c) == a + k + 1 + c);
            assert(crate::rng::word(y, k + 1 + c) == crate::rng::word(x, a + (k + 1 + c)));
            assert(crate::rng::word(y, k + 1 + c + 1) == crate::rng::word(
                x,
                a + (k + 1 + c + 1),
            ));
        }
        assert(p.legs =~= q.legs);
    }
    let p = plan(y, 0, s);
    let q = plan(x, a, s);
    let c = timing_cost(s.bodies(), s.skewed());
    assert forall|i: int| 0 <= i < p.draws.len() implies p.draws[i] == q.draws[i] by {
        if s.ballistic_direct() {
            let k: nat = 0 + 2 + (i as nat) * c;
            assert(a + k == a + 2 + (i as nat) * c);
            assert(timing(y, k, s.bodies(), false) == timing(x, a + k, s.bodies(), false));
        } else {
            assert(timing(y, 0, s.bodies(), s.skewed()) == timing(
                x,
                a + 0,
                s.bodies(),
                s.skewed(),
            ));
        }
    }
    assert(p.draws =~= q.draws);
    let f = schedule_cost(s);
    assert(crate::rng::word(y, 0) == crate::rng::word(x, a + 0));
    assert(crate::rng::word(y, 1) == crate::rng::word(x, a + 1));
    assert(crate::rng::word(y, f) == crate::rng::word(x, a + f));
    assert(crate::rng::word(y, f + 1) == crate::rng::word(x, a + (f + 1)));
    assert(crate::rng::word(y, f + 2) == crate::rng::word(x, a + (f + 2)));
    assert(crate::rng::word(y, f + 3) == crate::rng::word(x, a + (f + 3)));
}

// ---------------------------------------------------------------- choice

/// Counts of timing draws by seed channel.
#[derive(Clone, Copy, Debug, PartialEq, Eq, Structural)]
pub struct SeedDrawStats {
    /// Candidates seeded from the uniform channel.
    pub uniform_genomes: usize,
    /// Candidates seeded from the launch-feasible channel.
    pub feasible_genomes: usize,
    /// Launch-feasible candidates whose batch held no feasible timing.
    pub feasible_misses: usize,
    /// Timings looked at.
    pub draws: usize,
    /// How many of those were within the launcher's cap.
    pub draws_feasible: usize,
}

impl Default for SeedDrawStats {
    fn default() -> (r: Self)
        ensures
            r.uniform_genomes == 0,
            r.feasible_genomes == 0,
            r.feasible_misses == 0,
            r.draws == 0,
            r.draws_feasible == 0,
    {
        SeedDrawStats {
            uniform_genomes: 0,
            feasible_genomes: 0,
            feasible_misses: 0,
            draws: 0,
            draws_feasible: 0,
        }
    }
}

impl SeedDrawStats {
    /// The counts fit together: every candidate looked at a whole batch, no
    /// more timings were feasible than were drawn, and no more candidates
    /// missed than there were.
    pub open spec fn consistent(self) -> bool {
        &&& self.draws == SEED_DRAWS * (self.uniform_genomes + self.feasible_genomes)
        &&& self.draws_feasible <= self.draws
        &&& self.feasible_misses <= self.feasible_genomes
    }

    /// The counts after one more batch, of which `feasible` timings were within
    /// the cap.
    pub open spec fn counts(self, before: SeedDrawStats, channel: Channel, feasible: nat) -> bool {
        &&& self.draws == before.draws + SEED_DRAWS
        &&& self.draws_feasible == before.draws_feasible + feasible
        &&& self.uniform_genomes == before.uniform_genomes + if channel.uniform {
            1int
        } else {
            0
        }
        &&& self.feasible_genomes == before.feasible_genomes + if channel.uniform {
            0int
        } else {
            1
        }
        &&& self.feasible_misses == before.feasible_misses + if !channel.uniform && feasible == 0 {
            1int
        } else {
            0
        }
    }

    /// Feasible and all timings, where any was drawn: the rate is the first
    /// over the second.
    pub fn feasible_rate(&self) -> (r: Option<(usize, usize)>)
        ensures
            r == (if self.draws == 0 {
                None
            } else {
                Some((self.draws_feasible, self.draws))
            }),
    {
        if self.draws == 0 {
            None
        } else {
            Some((self.draws_feasible, self.draws))
        }
    }
}

/// The timings among the first `n` whose launch energy is within `cap`.
pub open spec fn within_cap(c3: Seq<Scalar>, cap: Scalar, n: int) -> Seq<usize>
    decreases n,
{
    if n <= 0 {
        Seq::empty()
    } else if c3[n - 1].le(cap) {
        within_cap(c3, cap, n - 1).push((n - 1) as usize)
    } else {
        within_cap(c3, cap, n - 1)
    }
}

/// Which drawn timing a ballistic direct seed keeps: the first on the uniform
/// channel; else one of the feasible ones; else the cheapest.
pub open spec fn keeps(c3: Seq<Scalar>, cap: Scalar, channel: Channel, i: int) -> bool {
    let ok = within_cap(c3, cap, c3.len() as int);
    if channel.uniform {
        i == 0
    } else if ok.len() > 0 {
        i == ok[channel.pick as int % ok.len() as int]
    } else {
        0 <= i < c3.len() && forall|j: int|
            0 <= j < c3.len() && j != i ==> #[trigger] before(c3, i, j)
    }
}

/// Keeps one timing of a batch and counts it.
pub fn choose_draw(
    channel: Channel,
    c3: &Vec<Scalar>,
    cap: Scalar,
    stats: &mut SeedDrawStats,
) -> (r: usize)
    requires
        c3.len() == SEED_DRAWS,
        old(stats).draws <= usize::MAX - SEED_DRAWS,
        old(stats).draws_feasible <= usize::MAX - SEED_DRAWS,
        old(stats).uniform_genomes < usize::MAX,
        old(stats).feasible_genomes < usize::MAX,
        old(stats).feasible_misses < usize::MAX,
    ensures
        r < SEED_DRAWS,
        keeps(c3@, cap, channel, r as int),
        final(stats).counts(*old(stats), channel, within_cap(c3@, cap, c3@.len() as int).len()),
        old(stats).consistent() ==> final(stats).consistent(),
{
    let mut ok: Vec<usize> = Vec::new();
    let mut best: usize = 0;
    let mut i: usize = 0;
    while i < c3.len()
        invariant
            i <= c3.len(),
            c3.len() == SEED_DRAWS,
            ok@ == within_cap(c3@, cap, i as int),
            ok.len() <= i,
            forall|p: int| 0 <= p < ok@.len() ==> #[trigger] ok@[p] < SEED_DRAWS,
            best < SEED_DRAWS,
            best < i || (best == 0 && i == 0),
            forall|j: int| 0 <= j < i && j != best ==> #[trigger] before(c3@, best as int, j),
        decreases c3.len() - i,
    {
        if c3[i].at_most(cap) {
            ok.push(i);
        }
        if i > 0 && c3[i].ranks_before(c3[best]) {
            let ghost prev = best as int;
            best = i;
            assert forall|j: int| 0 <= j < i + 1 && j != best implies #[trigger] before(
                c3@,
                best as int,
                j,
            ) by {
                if j != prev {
                    assert(before(c3@, prev, j));
                }
            }
        } else {
            assert(i != best ==> before(c3@, best as int, i as int));
        }
        i = i + 1;
    }
    stats.draws = stats.draws + SEED_DRAWS;
    stats.draws_feasible = stats.draws_feasible + ok.len();
    if channel.uniform {
        stats.uniform_genomes = stats.uniform_genomes + 1;
        0
    } else {
        stats.feasible_genomes = stats.feasible_genomes + 1;
        if ok.len() == 0 {
            stats.feasible_misses = stats.feasible_misses + 1;
            best
        } else {
            ok[channel.pick % ok.len()]
        }
    }
}

/// On the launch-feasible channel a timing over the cap is kept only where
/// every timing of the batch is over it.
pub proof fn feasible_channel_prefers_feasible(
    c3: Seq<Scalar>,
    cap: Scalar,
    channel: Channel,
    i: int,
    j: int,
)
    requires
        keeps(c3, cap, channel, i),
        !channel.uniform,
        c3.len() <= usize::MAX,
        0 <= j < c3.len(),
        c3[j].le(cap),
    ensures
        c3[i].le(cap),
{
    within_cap_members(c3, cap, c3.len() as int);
    let ok = within_cap(c3, cap, c3.len() as int);
    assert(ok.contains(j as usize));
    assert(ok.len() > 0);
    let p = channel.pick as int % ok.len() as int;
    assert(c3[ok[p] as int].le(cap));
}

proof fn within_cap_members(c3: Seq<Scalar>, cap: Scalar, n: int)
    requires
        0 <= n <= c3.len(),
        c3.len() <= usize::MAX,
    ensures
        forall|p: int|
            0 <= p < within_cap(c3, cap, n).len() ==> c3[(#[trigger] within_cap(
                c3,
                cap,
                n,
            )[p]) as int].le(cap),
        forall|j: usize|
            0 <= j < n && c3[j as int].le(cap) ==> #[trigger] within_cap(c3, cap, n).contains(j),
    decreases n,
{
    if n > 0 {
        within_cap_members(c3, cap, n - 1);
        let prev = within_cap(c3, cap, n - 1);
        let all = within_cap(c3, cap, n);
        assert forall|j: usize| 0 <= j < n && c3[j as int].le(cap) implies #[trigger] all.contains(
            j,
        ) by {
            if j < n - 1 {
                assert(prev.contains(j));
                let p = choose|p: int| 0 <= p < prev.len() && prev[p] == j;
                assert(all[p] == j);
            } else {
                assert(all[all.len() - 1] == j);
            }
        }
    }
}

// ---------------------------------------------------------------- shape

/// Which thrust segments of a fresh candidate brake: none at all without
/// electric propulsion; the second half where the mission stops at its
/// target.
pub fn braking_segments(cfg: &SolverConfig) -> (r: Vec<bool>)
    ensures
        r.len() == (if cfg@.sep() {
            N_SEG as int
        } else {
            0
        }),
        forall|i: int|
            0 <= i < r.len() ==> #[trigger] r@[i] == (cfg.mission != MissionType::Flyby && i >= N_SEG
                / 2),
        forall|i: int| 0 <= i < r.len() ==> (#[trigger] r@[i] <==> cfg@.skewed() && 2 * i >= r.len()),
{
    let mut r: Vec<bool> = Vec::new();
    if cfg.engine != Engine::Ballistic && cfg.route.len() == 0 {
        let mut i: usize = 0;
        while i < N_SEG
            invariant
                i <= N_SEG,
                r.len() == i,
                forall|j: int|
                    0 <= j < i ==> #[trigger] r@[j] == (cfg.mission != MissionType::Flyby && j
                        >= N_SEG / 2),
            decreases N_SEG - i,
        {
            r.push(cfg.mission != MissionType::Flyby && i >= N_SEG / 2);
            i = i + 1;
        }
    }
    r
}

/// The burn that nothing comes of: in the middle of its leg.
pub open spec fn inert_burn() -> Seq<Scalar> {
    seq![
        Scalar { bits: 0x3fe0_0000_0000_0000 },
        Scalar { bits: 0 },
        Scalar { bits: 0 },
        Scalar { bits: 0 },
    ]
}

/// The burns of a fresh candidate: an inert one in the middle of every leg of
/// a tour, none on a direct transfer.
pub fn seed_burns(cfg: &SolverConfig, legs: usize) -> (r: Vec<[Scalar; 4]>)
    ensures
        r.len() == (if cfg.route@.len() == 0 {
            0
        } else {
            legs as int
        }),
        forall|i: int|
            0 <= i < r.len() ==> (#[trigger] r@[i])@ == inert_burn(),
{
    let mut r: Vec<[Scalar; 4]> = Vec::new();
    if cfg.route.len() > 0 {
        let half: Scalar = Scalar { bits: 0x3fe0_0000_0000_0000 };
        let zero: Scalar = Scalar { bits: 0 };
        let mut i: usize = 0;
        while i < legs
            invariant
                i <= legs,
                r.len() == i,
                half.bits == 0x3fe0_0000_0000_0000,
                zero.bits == 0,
                forall|j: int|
                    0 <= j < i ==> (#[trigger] r@[j])@ == seq![half, zero, zero, zero],
            decreases legs - i,
        {
            let node: [Scalar; 4] = [half, zero, zero, zero];
            assert(node@ =~= seq![half, zero, zero, zero]);
            r.push(node);
            i = i + 1;
        }
    }
    r
}

/// A seeded burn is inert: its leg flies as if there were none.
pub proof fn seeded_burns_are_inert(g: Genome, i: int)
    requires
        0 <= i < g.dsm@.len(),
        g.dsm@[i]@ == seq![
            Scalar { bits: 0x3fe0_0000_0000_0000 },
            Scalar { bits: 0 },
            Scalar { bits: 0 },
            Scalar { bits: 0 },
        ],
    ensures
        g.burn(i) is None,
{
}

/// The Lambert branches of a fresh candidate: the first on every leg of a
/// tour.
pub fn seed_branches(cfg: &SolverConfig, legs: usize) -> (r: Vec<u32>)
    ensures
        r.len() == (if cfg.route@.len() == 0 {
            0
        } else {
            legs as int
        }),
        forall|i: int| 0 <= i < r.len() ==> #[trigger] r@[i] == 0,
{
    let mut r: Vec<u32> = Vec::new();
    if cfg.route.len() > 0 {
        let mut i: usize = 0;
        while i < legs
            invariant
                i <= legs,
                r.len() == i,
                forall|j: int| 0 <= j < i ==> #[trigger] r@[j] == 0,
            decreases legs - i,
        {
            r.push(0);
            i = i + 1;
        }
    }
    r
}

/// A fresh candidate from its timing, its departure velocity and the throttle
/// of its braking segments: a tour has no departure velocity of its own, inert
/// burns and first branches; only electric propulsion has a profile.
pub open spec fn fresh_genes(
    s: Setup,
    depart_days: Scalar,
    legs: Seq<Scalar>,
    vinf_dep: Seq<Scalar>,
    brake: Scalar,
) -> Genes {
    let zero = Scalar { bits: 0 };
    let nodes = if s.route.len() == 0 {
        0
    } else {
        legs.len()
    };
    Genes {
        depart_days,
        legs,
        vinf_dep: if s.route.len() == 0 {
            vinf_dep
        } else {
            seq![zero, zero, zero]
        },
        thrust: Seq::new(
            if s.sep() {
                N_SEG as nat
            } else {
                0
            },
            |i: int|
                seq![
                    if s.mission != MissionType::Flyby && i >= N_SEG / 2 {
                        brake
                    } else {
                        zero
                    },
                    zero,
                    zero,
                ],
        ),
        dsm: Seq::new(nodes, |i: int| inert_burn()),
        branch: Seq::new(nodes, |i: int| 0u32),
    }
}

/// A fresh candidate from its timing, its departure velocity and the throttle
/// of its braking segments.
pub fn fresh_genome(
    cfg: &SolverConfig,
    depart_days: Scalar,
    legs: Vec<Scalar>,
    vinf_dep: [Scalar; 3],
    brake: Scalar,
) -> (r: Genome)
    ensures
        r@ == fresh_genes(cfg@, depart_days, legs@, vinf_dep@, brake),
{
    let zero: Scalar = Scalar { bits: 0 };
    let dsm: Vec<[Scalar; 4]> = seed_burns(cfg, legs.len());
    let branch: Vec<u32> = seed_branches(cfg, legs.len());
    let vinf: [Scalar; 3] = if cfg.route.len() == 0 {
        vinf_dep
    } else {
        [zero, zero, zero]
    };
    let brakes: Vec<bool> = braking_segments(cfg);
    let mut thrust: Vec<[Scalar; 3]> = Vec::new();
    let mut i: usize = 0;
    while i < brakes.len()
        invariant
            i <= brakes@.len(),
            thrust@.len() == i,
            zero.bits == 0,
            forall|j: int|
                0 <= j < i ==> (#[trigger] thrust@[j])@ == seq![
                    if brakes@[j] {
                        brake
                    } else {
                        zero
                    },
                    zero,
                    zero,
                ],
        decreases brakes@.len() - i,
    {
        let along: Scalar = if brakes[i] {
            brake
        } else {
            zero
        };
        let row: [Scalar; 3] = [along, zero, zero];
        assert(row@ =~= seq![along, zero, zero]);
        thrust.push(row);
        i = i + 1;
    }
    let r: Genome = Genome { depart_days, legs, vinf_dep: vinf, thrust, dsm, branch };
    proof {
        let f = fresh_genes(cfg@, depart_days, legs@, vinf_dep@, brake);
        assert(r@.vinf_dep =~= f.vinf_dep);
        assert(r@.thrust =~= f.thrust);
        assert(r@.dsm =~= f.dsm);
        assert(r@.branch =~= f.branch);
    }
    r
}

// ---------------------------------------------------------------- words

/// Which requests draw how: engines apply to direct transfers only, flight times
/// are skewed where an engine has to pay for its arrival, and a batch is drawn for
/// direct transfers without an engine. A tour is none of these.
pub proof fn requests_are_told_apart(s: Setup)
    ensures
        s.sep() <==> s.bodies().len() == 2 && s.engine.thrust_isp() is Some,
        s.skewed() <==> s.sep() && arrival_charge(s.target, s.mission) != ArrivalCharge::Free,
        s.ballistic_direct() <==> s.bodies().len() == 2 && s.engine.thrust_isp() is None,
        s.bodies().len() > 2 <==> !s.sep() && !s.ballistic_direct(),
{
}

/// Leg `i` of a schedule is drawn from the word at `at`: long where it is skewed,
/// near a whole number of years where it returns to its body, anywhere else.
pub open spec fn drawn_at(x: u64, at: nat, skew: bool, returns: bool, d: LegDraw) -> bool {
    match d {
        LegDraw::Long { unit } => skew && unit == word(x, at) >> 11u64,
        LegDraw::Resonant { years, unit } => !skew && returns && years == word(x, at) % 3 + 1
            && unit == word(x, at + 1) >> 11u64,
        LegDraw::Uniform { unit } => !skew && !returns && unit == word(x, at) >> 11u64,
    }
}

/// A schedule is read off the stream word by word: the first is the departure, and
/// each leg follows on the one before, one word each, or two for a return that is
/// not skewed.
#[verifier::rlimit(40)]
pub proof fn words_decide_the_timing(
    x: u64,
    k: nat,
    bodies: Seq<BodyId>,
    skew: bool,
    at: Seq<nat>,
)
    requires
        bodies.len() > 0,
        at.len() == bodies.len(),
        at[0] == k + 1,
        forall|i: int|
            0 <= i < at.len() - 1 ==> #[trigger] at[i + 1] == at[i] + (if !skew && bodies[i]
                == bodies[i + 1] {
                2nat
            } else {
                1nat
            }),
    ensures
        ({
            let t = timing(x, k, bodies, skew);
            &&& t.depart == word(x, k) >> 11u64
            &&& t.legs.len() == bodies.len() - 1
            &&& forall|i: int|
                0 <= i < t.legs.len() ==> drawn_at(
                    x,
                    at[i],
                    skew,
                    bodies[i] == bodies[i + 1],
                    #[trigger] t.legs[i],
                )
            &&& k + timing_cost(bodies, skew) == at.last()
        }),
{
    assert forall|i: int| 0 <= i < at.len() implies #[trigger] at[i] == k + 1 + legs_cost(
        bodies,
        skew,
        i as nat,
    ) by {
        legs_follow_on(k, bodies, skew, at, i);
    }
    let t = timing(x, k, bodies, skew);
    assert forall|i: int| 0 <= i < t.legs.len() implies drawn_at(
        x,
        at[i],
        skew,
        bodies[i] == bodies[i + 1],
        #[trigger] t.legs[i],
    ) by {
        assert(at[i] == k + 1 + legs_cost(bodies, skew, i as nat));
    }
}

proof fn legs_follow_on(k: nat, bodies: Seq<BodyId>, skew: bool, at: Seq<nat>, i: int)
    requires
        0 <= i < at.len(),
        at.len() == bodies.len(),
        at[0] == k + 1,
        forall|i: int|
            0 <= i < at.len() - 1 ==> #[trigger] at[i + 1] == at[i] + (if !skew && bodies[i]
                == bodies[i + 1] {
                2nat
            } else {
                1nat
            }),
    ensures
        at[i] == k + 1 + legs_cost(bodies, skew, i as nat),
    decreases i,
{
    if i > 0 {
        legs_follow_on(k, bodies, skew, at, i - 1);
        assert(at[(i - 1) + 1] == at[i - 1] + (if !skew && bodies[i - 1] == bodies[i - 1 + 1] {
            2nat
        } else {
            1nat
        }));
    }
}

/// A direct transfer without an engine draws its channel from two words, twelve
/// schedules from two words each, and its aim from three. (A flight from Earth to
/// Earth takes a word more for each schedule.)
#[verifier::rlimit(40)]
pub proof fn words_decide_a_batch(x: u64, k: nat, s: Setup)
    requires
        s.bodies().len() == 2,
        s.engine.thrust_isp() is None,
        s.target != BodyId::Earth,
    ensures
        ({
            let p = plan(x, k, s);
            &&& p.channel matches Some(c) && c.uniform == (word(x, k) % 3 == 0) && c.pick == word(
                x,
                k + 1,
            ) % 12
            &&& p.draws.len() == 12
            &&& forall|i: int|
                0 <= i < 12 ==> {
                    let t = #[trigger] p.draws[i];
                    &&& t.depart == word(x, (k + 2 + 2 * i) as nat) >> 11u64
                    &&& t.legs == seq![
                        LegDraw::Uniform { unit: word(x, (k + 3 + 2 * i) as nat) >> 11u64 },
                    ]
                }
            &&& p.aim == Aim::Lambert {
                x: word(x, k + 26) >> 11u64,
                y: word(x, k + 27) >> 11u64,
                z: word(x, k + 28) >> 11u64,
            }
            &&& plan_cost(x, k, s) == 29
        }),
{
    requests_are_told_apart(s);
    let b = s.bodies();
    reveal_with_fuel(legs_cost, 3);
    assert(legs_cost(b, false, 1) == 1);
    assert(timing_cost(b, false) == 2);
    let p = plan(x, k, s);
    assert forall|i: int| 0 <= i < 12 implies {
        let t = #[trigger] p.draws[i];
        &&& t.depart == word(x, (k + 2 + 2 * i) as nat) >> 11u64
        &&& t.legs == seq![LegDraw::Uniform { unit: word(x, (k + 3 + 2 * i) as nat) >> 11u64 }]
    } by {
        let at: nat = k + 2 + (i as nat) * 2;
        assert(p.draws[i] == timing(x, at, b, false));
        let ats: Seq<nat> = seq![at + 1, at + 2];
        words_decide_the_timing(x, at, b, false, ats);
        let t = timing(x, at, b, false);
        assert(drawn_at(x, ats[0], false, b[0] == b[1], t.legs[0]));
        assert(t.legs =~= seq![
            LegDraw::Uniform { unit: word(x, (k + 3 + 2 * i) as nat) >> 11u64 },
        ]);
    }
}

/// A direct transfer on an engine draws one schedule from two words, then tosses a
/// coin: an even word is a spiral of one more, an odd word an aim of three.
#[verifier::rlimit(40)]
pub proof fn words_decide_a_spiral(x: u64, k: nat, s: Setup)
    requires
        s.bodies().len() == 2,
        s.engine.thrust_isp() is Some,
        s.target != BodyId::Earth,
    ensures
        ({
            let p = plan(x, k, s);
            let unit = word(x, k + 1) >> 11u64;
            &&& p.channel is None
            &&& p.draws.len() == 1
            &&& p.draws[0].depart == word(x, k) >> 11u64
            &&& p.draws[0].legs == seq![
                if s.mission.label()@ == "flyby"@ {
                    LegDraw::Uniform { unit }
                } else {
                    LegDraw::Long { unit }
                },
            ]
            &&& if word(x, k + 2) % 2 == 0 {
                p.aim == (Aim::Spiral { unit: word(x, k + 3) >> 11u64 }) && plan_cost(x, k, s) == 4
            } else {
                p.aim == (Aim::Lambert {
                    x: word(x, k + 3) >> 11u64,
                    y: word(x, k + 4) >> 11u64,
                    z: word(x, k + 5) >> 11u64,
                }) && plan_cost(x, k, s) == 6
            }
        }),
{
    reveal_strlit("flyby");
    reveal_strlit("orbit");
    reveal_strlit("land");
    assert("flyby"@[0] != "orbit"@[0] && "flyby"@[0] != "land"@[0]);
    requests_are_told_apart(s);
    let b = s.bodies();
    reveal_with_fuel(legs_cost, 3);
    assert(legs_cost(b, s.skewed(), 1) == 1);
    let ats: Seq<nat> = seq![k + 1, k + 2];
    words_decide_the_timing(x, k, b, s.skewed(), ats);
    let t = timing(x, k, b, s.skewed());
    assert(plan(x, k, s).draws[0] == t);
    assert(drawn_at(x, ats[0], s.skewed(), b[0] == b[1], t.legs[0]));
    let unit = word(x, k + 1) >> 11u64;
    assert(t.legs =~= seq![
        if s.mission.label()@ == "flyby"@ {
            LegDraw::Uniform { unit }
        } else {
            LegDraw::Long { unit }
        },
    ]);
}

/// A tour draws one schedule and nothing else: its first arc fixes its aim.
#[verifier::rlimit(40)]
pub proof fn words_decide_a_tour(x: u64, k: nat, s: Setup)
    requires
        s.bodies().len() > 2,
    ensures
        ({
            let p = plan(x, k, s);
            &&& p.channel is None
            &&& p.draws == seq![timing(x, k, s.bodies(), false)]
            &&& p.aim == Aim::Tour
            &&& plan_cost(x, k, s) == timing_cost(s.bodies(), false)
        }),
{
    requests_are_told_apart(s);
}

/// How many of the first `n` timings are within the cap.
pub open spec fn feasible_among(c3: Seq<Scalar>, cap: Scalar, n: int) -> int
    decreases n,
{
    if n <= 0 {
        0
    } else {
        feasible_among(c3, cap, n - 1) + if c3[n - 1].le(cap) {
            1int
        } else {
            0
        }
    }
}

proof fn feasible_ones_are_counted(c3: Seq<Scalar>, cap: Scalar, n: int)
    requires
        0 <= n <= c3.len(),
        c3.len() <= usize::MAX,
    ensures
        within_cap(c3, cap, n).len() == feasible_among(c3, cap, n),
        forall|p: int|
            0 <= p < within_cap(c3, cap, n).len() ==> {
                let i = #[trigger] within_cap(c3, cap, n)[p];
                i < n && c3[i as int].le(cap) && feasible_among(c3, cap, i as int) == p
            },
    decreases n,
{
    if n > 0 {
        feasible_ones_are_counted(c3, cap, n - 1);
        let prev = within_cap(c3, cap, n - 1);
        let all = within_cap(c3, cap, n);
        assert forall|p: int| 0 <= p < all.len() implies {
            let i = #[trigger] all[p];
            i < n && c3[i as int].le(cap) && feasible_among(c3, cap, i as int) == p
        } by {
            if p < prev.len() {
                assert(all[p] == prev[p]);
            }
        }
    }
}

/// On the launch-feasible channel the pick counts through the timings within the
/// cap, round and round: as many of them stand before the one kept as the pick
/// leaves over. Where there are none, no timing ranks before the one kept. On the
/// uniform channel the first timing is kept, whatever it costs.
#[verifier::rlimit(40)]
pub proof fn pick_counts_the_feasible_timings(
    c3: Seq<Scalar>,
    cap: Scalar,
    channel: Channel,
    i: int,
)
    requires
        keeps(c3, cap, channel, i),
        0 < c3.len() <= usize::MAX,
    ensures
        ({
            let n = feasible_among(c3, cap, c3.len() as int);
            &&& channel.uniform ==> i == 0
            &&& !channel.uniform && n > 0 ==> c3[i].le(cap) && feasible_among(c3, cap, i)
                == channel.pick as int % n
            &&& !channel.uniform && n == 0 ==> 0 <= i < c3.len() && forall|j: int|
                0 <= j < c3.len() ==> c3[i].rank() <= (#[trigger] c3[j]).rank() && (j < i ==> c3[i].rank()
                    < c3[j].rank())
        }),
{
    feasible_ones_are_counted(c3, cap, c3.len() as int);
    let ok = within_cap(c3, cap, c3.len() as int);
    if !channel.uniform && ok.len() > 0 {
        let p = channel.pick as int % ok.len() as int;
        assert(0 <= p < ok.len());
        assert(ok[p] == i);
    }
    if !channel.uniform && ok.len() == 0 {
        assert forall|j: int| 0 <= j < c3.len() implies c3[i].rank() <= (#[trigger] c3[j]).rank()
            && (j < i ==> c3[i].rank() < c3[j].rank()) by {
            if j != i {
                assert(before(c3, i, j));
            }
        }
    }
}

/// What a fresh candidate is made of. Its timing is the one drawn. A tour leaves its
/// departure to the first arc and has one inert burn and one first branch for each
/// leg; a direct transfer leaves as it is aimed and has neither. Only an engine has
/// a throttle profile, of twelve rows; it brakes along its path in the second half,
/// where the arrival is paid for, and coasts elsewhere.
#[verifier::rlimit(40)]
pub proof fn fresh_genes_fit_the_request(
    s: Setup,
    depart_days: Scalar,
    legs: Seq<Scalar>,
    vinf_dep: Seq<Scalar>,
    brake: Scalar,
    i: int,
)
    ensures
        ({
            let g = fresh_genes(s, depart_days, legs, vinf_dep, brake);
            let zero = Scalar { bits: 0 };
            let tour = s.bodies().len() > 2;
            let powered = !tour && s.engine.thrust_isp() is Some;
            let paid = arrival_charge(s.target, s.mission) != ArrivalCharge::Free;
            &&& g.depart_days == depart_days && g.legs == legs
            &&& g.vinf_dep == (if tour {
                seq![zero, zero, zero]
            } else {
                vinf_dep
            })
            &&& g.thrust.len() == (if powered {
                12nat
            } else {
                0
            })
            &&& 0 <= i < g.thrust.len() ==> g.thrust[i] == (if paid && i >= 6 {
                seq![brake, zero, zero]
            } else {
                seq![zero, zero, zero]
            })
            &&& g.dsm.len() == g.branch.len() == (if tour {
                legs.len()
            } else {
                0
            })
            &&& 0 <= i < g.dsm.len() ==> g.branch[i] == 0 && g.dsm[i] == seq![
                Scalar { bits: 0x3fe0_0000_0000_0000 },
                zero,
                zero,
                zero,
            ]
        }),
{
    requests_are_told_apart(s);
    let g = fresh_genes(s, depart_days, legs, vinf_dep, brake);
    let zero = Scalar { bits: 0 };
    if 0 <= i < g.thrust.len() {
        assert(g.thrust[i] =~= seq![
            if s.mission != MissionType::Flyby && i >= N_SEG / 2 {
                brake
            } else {
                zero
            },
            zero,
            zero,
        ]);
    }
}

/// A batch makes one candidate more, of one of the two kinds, and is drawn whole. It can
/// miss only where a feasible timing was looked for, and the counts go on fitting
/// together.
pub proof fn batches_are_counted(
    before: SeedDrawStats,
    after: SeedDrawStats,
    channel: Channel,
    feasible: nat,
)
    requires
        before.consistent(),
        after.counts(before, channel, feasible),
        feasible <= SEED_DRAWS,
    ensures
        after.consistent(),
        after.uniform_genomes + after.feasible_genomes == before.uniform_genomes
            + before.feasible_genomes + 1,
        after.uniform_genomes > before.uniform_genomes <==> channel.uniform,
        after.feasible_misses > before.feasible_misses <==> feasible == 0
            && after.feasible_genomes > before.feasible_genomes,
        after.draws - before.draws == SEED_DRAWS,
        (after.draws - after.draws_feasible) - (before.draws - before.draws_feasible)
            == SEED_DRAWS - feasible,
{
    assert(SEED_DRAWS * (after.uniform_genomes + after.feasible_genomes) == SEED_DRAWS * (
    before.uniform_genomes + before.feasible_genomes) + SEED_DRAWS) by (nonlinear_arith)
        requires
            after.uniform_genomes + after.feasible_genomes == before.uniform_genomes
                + before.feasible_genomes + 1,
    ;
}

} // verus!
