//! Automatic route discovery: screen every candidate route briefly, deepen the
//! best few, polish the winner. This module decides what is done next; its
//! caller flies the searches and reports how they went.

use crate::beam::{is_stable_order, stable_order, stable_order_exists, stable_order_is_unique};
use crate::bodies::BodyId;
use crate::problem::{copy_route, Setup, SolverConfig};
use crate::routes::{candidate_routes, route_name, routes_to, short_name, stops};
use crate::scalar::{Scalar, INFINITY_BITS};
use crate::text::{chars_of, decimal, decimal_of, extend, extend_str, text_of};
use vstd::prelude::*;

verus! {

/// How many screened routes are refined.
pub const SURVIVORS: usize = 5;

/// What the second search of a survivor adds to the seed.
pub const SECOND_SEED: u64 = 1000;

/// Generations granted to each phase.
#[derive(Clone, Copy, Debug, PartialEq, Eq, Structural)]
pub struct AutoBudget {
    /// Per route while screening, times one more than its stops.
    pub screen: usize,
    /// Per surviving route, and again for its second search.
    pub refine: usize,
    /// For the winner.
    pub polish: usize,
}

/// The budget that polishes for so many generations.
pub open spec fn budget_to(polish: usize) -> AutoBudget {
    AutoBudget { screen: 120, refine: 600, polish }
}

/// Refinement is granted five times as much as screening, the two together 720
/// generations, whatever is granted to the winner.
pub proof fn budgets_are_shared_out(polish: usize)
    ensures
        5 * budget_to(polish).screen == budget_to(polish).refine,
        budget_to(polish).screen + budget_to(polish).refine == 720,
        budget_to(polish).polish == polish,
{
}

/// Budget of a headless search.
pub fn headless_budget(steps: usize) -> (r: AutoBudget)
    ensures
        r == (AutoBudget { screen: 120, refine: 600, polish: steps }),
        r == budget_to(steps),
        5 * r.screen == r.refine && r.screen + r.refine == 720,
{
    AutoBudget { screen: 120, refine: 600, polish: steps }
}

/// Budget of a search that polishes until it is stopped.
pub fn live_budget() -> (r: AutoBudget)
    ensures
        r == (AutoBudget { screen: 120, refine: 600, polish: usize::MAX }),
        r == budget_to(usize::MAX),
        5 * r.screen == r.refine && r.screen + r.refine == 720,
{
    AutoBudget { screen: 120, refine: 600, polish: usize::MAX }
}

/// Which search is being driven.
#[derive(Clone, Copy, Debug, PartialEq, Eq, Structural)]
pub enum Stage {
    /// The route at `index` of the candidates.
    Screening { index: usize },
    /// The survivor of that rank, from where screening left it.
    Refining { rank: usize },
    /// A second search of the same route, from another seed.
    Retrying { rank: usize },
    Polishing,
    Finished,
}

/// What the discovery waits for.
#[derive(Clone, Copy, Debug, PartialEq, Eq, Structural)]
pub enum Wait {
    /// Leave to take up the next route.
    Gate,
    /// The search to be ready.
    Start,
    /// Leave to run one more generation.
    Check,
    /// The outcome of a generation.
    Step,
}

/// What the caller is to do.
#[derive(Clone, Copy, Debug, PartialEq, Eq, Structural)]
pub enum Command {
    /// Ask whether to go on.
    Poll,
    /// Begin a search of a route, where `second` from the second seed.
    Begin { route: usize, second: bool },
    /// Go back to the search begun so earlier.
    Resume { route: usize, second: bool },
    /// Run one generation of the search in hand.
    Step,
    /// Nothing: the discovery is over.
    Stop,
}

/// What the caller reports.
#[derive(Clone, Copy, Debug, PartialEq, Eq, Structural)]
pub enum Reply {
    /// Whether to go on.
    Running { go: bool },
    /// The search is in hand.
    Ready,
    /// A generation ran: how many candidates were flown, and the best score.
    Scored { evals: u64, score: Scalar },
}

/// A refined search.
#[derive(Clone, Copy, Debug, PartialEq, Eq, Structural)]
pub struct Contender {
    pub route: usize,
    pub second: bool,
    pub score: Scalar,
}

/// The state of a discovery.
pub struct Course {
    pub routes: Seq<Seq<BodyId>>,
    pub budget: AutoBudget,
    pub stage: Stage,
    pub wait: Wait,
    /// Generations left for the search in hand.
    pub left: nat,
    /// Best score of the search in hand.
    pub local: Scalar,
    /// Best score of the refined survivor, while its route is tried again.
    pub kept: Scalar,
    /// Best score of all.
    pub best: Scalar,
    /// Candidates flown.
    pub evals: nat,
    /// Best score of each route screened.
    pub screened: Seq<Scalar>,
    /// Routes to refine, best first.
    pub survivors: Seq<usize>,
    pub contenders: Seq<Contender>,
    /// Place of the winner among the contenders.
    pub winner: usize,
}

/// The stable order of a list of scores.
pub open spec fn ranking(scores: Seq<Scalar>) -> Seq<usize> {
    choose|r: Seq<usize>| is_stable_order(scores, r)
}

/// How many of `n` routes survive screening.
pub open spec fn survivor_count(n: int) -> int {
    if n < SURVIVORS {
        n
    } else {
        SURVIVORS as int
    }
}

/// Scores of the contenders.
pub open spec fn results(c: Seq<Contender>) -> Seq<Scalar> {
    c.map_values(|x: Contender| x.score)
}

pub open spec fn unbounded() -> Scalar {
    Scalar { bits: INFINITY_BITS }
}

impl Course {
    /// Generations granted to the search in hand.
    pub open spec fn grant(self) -> int {
        match self.stage {
            Stage::Screening { index } => self.budget.screen * (1 + self.routes[index as int].len()),
            Stage::Refining { .. } => self.budget.refine as int,
            Stage::Retrying { .. } => self.budget.refine as int,
            Stage::Polishing => self.budget.polish as int,
            Stage::Finished => 0,
        }
    }

    /// The score that the search in hand has already reached.
    pub open spec fn handicap(self) -> Scalar {
        match self.stage {
            Stage::Refining { rank } => self.screened[self.survivors[rank as int] as int],
            Stage::Polishing => self.contenders[self.winner as int].score,
            _ => unbounded(),
        }
    }

    /// The search in hand has had its generations.
    pub open spec fn close(self) -> Course {
        match self.stage {
            Stage::Screening { index } => {
                let screened = self.screened.push(self.local);
                if index + 1 < self.routes.len() {
                    Course {
                        screened,
                        stage: Stage::Screening { index: (index + 1) as usize },
                        wait: Wait::Gate,
                        ..self
                    }
                } else {
                    Course {
                        screened,
                        survivors: ranking(screened).take(survivor_count(screened.len() as int)),
                        stage: Stage::Refining { rank: 0 },
                        wait: Wait::Gate,
                        ..self
                    }
                }
            },
            Stage::Refining { rank } => {
                Course {
                    kept: self.local,
                    stage: Stage::Retrying { rank },
                    wait: Wait::Start,
                    ..self
                }
            },
            Stage::Retrying { rank } => {
                let route = self.survivors[rank as int];
                let contenders = self.contenders.push(
                    if self.local.lt(self.kept) {
                        Contender { route, second: true, score: self.local }
                    } else {
                        Contender { route, second: false, score: self.kept }
                    },
                );
                if rank + 1 < self.survivors.len() {
                    Course {
                        contenders,
                        stage: Stage::Refining { rank: (rank + 1) as usize },
                        wait: Wait::Gate,
                        ..self
                    }
                } else {
                    Course {
                        contenders,
                        winner: ranking(results(contenders))[0],
                        stage: Stage::Polishing,
                        wait: Wait::Start,
                        ..self
                    }
                }
            },
            _ => Course { stage: Stage::Finished, ..self },
        }
    }

    /// Another generation if any is left.
    pub open spec fn proceed(self) -> Course {
        if self.left == 0 {
            self.close()
        } else {
            Course { wait: Wait::Check, ..self }
        }
    }

    /// A generation of that score counted.
    pub open spec fn counted(self, evals: u64, score: Scalar) -> Course {
        Course {
            evals: self.evals + evals as nat,
            left: (self.left - 1) as nat,
            local: if score.lt(self.local) {
                score
            } else {
                self.local
            },
            best: if score.lt(self.local) && score.lt(self.best) {
                score
            } else {
                self.best
            },
            ..self
        }
    }

    /// The reply answers what the discovery waits for.
    pub open spec fn expects(self, reply: Reply) -> bool {
        self.stage != Stage::Finished && match self.wait {
            Wait::Gate | Wait::Check => reply is Running,
            Wait::Start => reply is Ready,
            Wait::Step => reply is Scored,
        }
    }

    /// The discovery after a reply.
    pub open spec fn after(self, reply: Reply) -> Course {
        match reply {
            Reply::Running { go } => if !go {
                Course { stage: Stage::Finished, ..self }
            } else if self.wait == Wait::Gate {
                Course { wait: Wait::Start, ..self }
            } else {
                Course { wait: Wait::Step, ..self }
            },
            Reply::Ready => Course {
                left: self.grant() as nat,
                local: self.handicap(),
                ..self
            }.proceed(),
            Reply::Scored { evals, score } => self.counted(evals, score).proceed(),
        }
    }

    /// The reply brings a new best of all, to be shown.
    pub open spec fn shown(self, reply: Reply) -> bool {
        reply matches Reply::Scored { score, .. } && score.lt(self.local) && score.lt(self.best)
    }

    /// What the caller is to do.
    pub open spec fn command(self) -> Command {
        match (self.stage, self.wait) {
            (Stage::Finished, _) => Command::Stop,
            (_, Wait::Gate) => Command::Poll,
            (_, Wait::Check) => Command::Poll,
            (_, Wait::Step) => Command::Step,
            (Stage::Screening { index }, Wait::Start) => Command::Begin {
                route: index,
                second: false,
            },
            (Stage::Refining { rank }, Wait::Start) => Command::Resume {
                route: self.survivors[rank as int],
                second: false,
            },
            (Stage::Retrying { rank }, Wait::Start) => Command::Begin {
                route: self.survivors[rank as int],
                second: true,
            },
            (Stage::Polishing, Wait::Start) => Command::Resume {
                route: self.contenders[self.winner as int].route,
                second: self.contenders[self.winner as int].second,
            },
        }
    }

    /// What is told when a search is taken up.
    pub open spec fn status(self) -> Option<Seq<char>> {
        if self.wait != Wait::Start {
            None
        } else {
            match self.stage {
                Stage::Screening { index } => Some(
                    "screening "@ + short_name(self.routes[index as int]) + " ("@ + decimal(
                        (index + 1) as nat,
                    ) + "/"@ + decimal(self.routes.len()) + ")"@,
                ),
                Stage::Refining { rank } => Some(
                    "refining "@ + short_name(self.routes[self.survivors[rank as int] as int]),
                ),
                Stage::Polishing => Some(
                    "polishing "@ + short_name(
                        self.routes[self.contenders[self.winner as int].route as int],
                    ),
                ),
                _ => None,
            }
        }
    }

    /// `x` is a number no smaller than the best of all.
    pub open spec fn behind(self, x: Scalar) -> bool {
        self.best.le(x)
    }

    /// The parts fit together.
    pub open spec fn wf(self) -> bool {
        &&& self.fits()
        &&& self.stage != Stage::Finished && (self.wait == Wait::Step || self.wait == Wait::Check)
            ==> 0 < self.left <= usize::MAX
    }

    /// The parts fit together, but for the count of generations left.
    pub open spec fn fits(self) -> bool {
        &&& 0 < self.routes.len() <= usize::MAX
        &&& forall|i: int|
            0 <= i < self.routes.len() ==> (#[trigger] self.routes[i]).len() <= 3
                && self.budget.screen * (1 + self.routes[i].len()) <= usize::MAX
        &&& self.behind(unbounded())
        &&& self.behind(self.local)
        &&& self.behind(self.kept)
        &&& forall|i: int| 0 <= i < self.screened.len() ==> self.behind(#[trigger] self.screened[i])
        &&& forall|i: int|
            0 <= i < self.contenders.len() ==> self.behind((#[trigger] self.contenders[i]).score)
                && self.contenders[i].route < self.routes.len()
        &&& match self.stage {
            Stage::Screening { index } => index < self.routes.len() && self.screened.len() == index
                && self.contenders.len() == 0,
            Stage::Refining { rank } => self.has_survivors() && rank < self.survivors.len()
                && self.contenders.len() == rank,
            Stage::Retrying { rank } => self.has_survivors() && rank < self.survivors.len()
                && self.contenders.len() == rank,
            Stage::Polishing => self.has_survivors() && self.contenders.len()
                == self.survivors.len() && self.winner < self.contenders.len() && self.winner
                == ranking(results(self.contenders))[0],
            Stage::Finished => true,
        }
    }

    /// Screening is over.
    pub open spec fn has_survivors(self) -> bool {
        &&& self.screened.len() == self.routes.len()
        &&& self.survivors == ranking(self.screened).take(
            survivor_count(self.screened.len() as int),
        )
        &&& self.survivors.len() == survivor_count(self.screened.len() as int)
        &&& forall|i: int|
            0 <= i < self.survivors.len() ==> (#[trigger] self.survivors[i]) < self.routes.len()
    }
}

// ---------------------------------------------------------------- machine

/// A route discovery in progress.
pub struct Auto {
    pub routes: Vec<Vec<BodyId>>,
    pub budget: AutoBudget,
    pub stage: Stage,
    pub wait: Wait,
    pub left: usize,
    pub local: Scalar,
    pub kept: Scalar,
    pub best: Scalar,
    pub evals: u64,
    pub screened: Vec<Scalar>,
    pub survivors: Vec<usize>,
    pub contenders: Vec<Contender>,
    pub winner: usize,
}

impl View for Auto {
    type V = Course;

    open spec fn view(&self) -> Course {
        Course {
            routes: stops(self.routes@),
            budget: self.budget,
            stage: self.stage,
            wait: self.wait,
            left: self.left as nat,
            local: self.local,
            kept: self.kept,
            best: self.best,
            evals: self.evals as nat,
            screened: self.screened@,
            survivors: self.survivors@,
            contenders: self.contenders@,
            winner: self.winner,
        }
    }
}

/// A discovery about to ask for leave to screen its first route.
pub open spec fn opening_course(target: BodyId, budget: AutoBudget) -> Course {
    Course {
        routes: routes_to(target),
        budget,
        stage: Stage::Screening { index: 0 },
        wait: Wait::Gate,
        left: 0,
        local: unbounded(),
        kept: unbounded(),
        best: unbounded(),
        evals: 0,
        screened: Seq::empty(),
        survivors: Seq::empty(),
        contenders: Seq::empty(),
        winner: 0,
    }
}

proof fn ranking_is_the_order(scores: Seq<Scalar>, r: Seq<usize>)
    requires
        is_stable_order(scores, r),
    ensures
        ranking(scores) == r,
{
    stable_order_is_unique(scores, ranking(scores), r);
}

fn scores_of(c: &Vec<Contender>) -> (r: Vec<Scalar>)
    ensures
        r@ == results(c@),
{
    let mut r: Vec<Scalar> = Vec::new();
    let mut i: usize = 0;
    while i < c.len()
        invariant
            i <= c.len(),
            r.len() == i,
            forall|j: int| 0 <= j < i ==> #[trigger] r@[j] == c@[j].score,
        decreases c.len() - i,
    {
        r.push(c[i].score);
        i = i + 1;
    }
    assert(r@ =~= results(c@));
    r
}

impl Auto {
    /// Sets out to discover a route to `target`.
    pub fn new(target: BodyId, budget: AutoBudget) -> (r: Self)
        requires
            4 * budget.screen <= usize::MAX,
        ensures
            r@ == opening_course(target, budget),
            r@.wf(),
    {
        let routes: Vec<Vec<BodyId>> = candidate_routes(target);
        proof {
            opening_is_sound(target, budget);
        }
        let r: Auto = Auto {
            routes,
            budget,
            stage: Stage::Screening { index: 0 },
            wait: Wait::Gate,
            left: 0,
            local: Scalar::infinity(),
            kept: Scalar::infinity(),
            best: Scalar::infinity(),
            evals: 0,
            screened: Vec::new(),
            survivors: Vec::new(),
            contenders: Vec::new(),
            winner: 0,
        };
        assert(r@.screened =~= Seq::empty());
        assert(r@.survivors =~= Seq::empty());
        assert(r@.contenders =~= Seq::empty());
        r
    }

    /// What the caller is to do.
    pub fn command(&self) -> (r: Command)
        requires
            self@.wf(),
        ensures
            r == self@.command(),
    {
        match self.stage {
            Stage::Finished => Command::Stop,
            _ => match self.wait {
                Wait::Gate => Command::Poll,
                Wait::Check => Command::Poll,
                Wait::Step => Command::Step,
                Wait::Start => match self.stage {
                    Stage::Screening { index } => Command::Begin { route: index, second: false },
                    Stage::Refining { rank } => Command::Resume {
                        route: self.survivors[rank],
                        second: false,
                    },
                    Stage::Retrying { rank } => Command::Begin {
                        route: self.survivors[rank],
                        second: true,
                    },
                    Stage::Polishing => Command::Resume {
                        route: self.contenders[self.winner].route,
                        second: self.contenders[self.winner].second,
                    },
                    Stage::Finished => Command::Stop,
                },
            },
        }
    }

    /// What is told when a search is taken up.
    pub fn status(&self) -> (r: Option<String>)
        requires
            self@.wf(),
        ensures
            match r {
                Some(s) => self@.status() == Some(s@),
                None => self@.status() is None,
            },
    {
        if self.wait != Wait::Start {
            return None;
        }
        match self.stage {
            Stage::Screening { index } => {
                let mut s: Vec<char> = chars_of("screening ");
                extend_str(&mut s, route_name(&self.routes[index]).as_str());
                extend_str(&mut s, " (");
                let at: Vec<char> = decimal_of(index as u64 + 1);
                extend(&mut s, &at);
                extend_str(&mut s, "/");
                let of: Vec<char> = decimal_of(self.routes.len() as u64);
                extend(&mut s, &of);
                extend_str(&mut s, ")");
                Some(text_of(&s))
            },
            Stage::Refining { rank } => {
                let mut s: Vec<char> = chars_of("refining ");
                extend_str(&mut s, route_name(&self.routes[self.survivors[rank]]).as_str());
                Some(text_of(&s))
            },
            Stage::Polishing => {
                let mut s: Vec<char> = chars_of("polishing ");
                let route: usize = self.contenders[self.winner].route;
                extend_str(&mut s, route_name(&self.routes[route]).as_str());
                Some(text_of(&s))
            },
            _ => None,
        }
    }

    fn close(&mut self)
        requires
            old(self)@.fits(),
            old(self).stage != Stage::Finished,
        ensures
            final(self)@ == old(self)@.close(),
    {
        match self.stage {
            Stage::Screening { index } => {
                self.screened.push(self.local);
                if index + 1 < self.routes.len() {
                    self.stage = Stage::Screening { index: index + 1 };
                } else {
                    let mut order: Vec<usize> = stable_order(&self.screened);
                    proof {
                        ranking_is_the_order(self.screened@, order@);
                    }
                    if order.len() > SURVIVORS {
                        order.truncate(SURVIVORS);
                    }
                    assert(order@ =~= ranking(self.screened@).take(
                        survivor_count(self.screened@.len() as int),
                    ));
                    self.survivors = order;
                    self.stage = Stage::Refining { rank: 0 };
                }
                self.wait = Wait::Gate;
            },
            Stage::Refining { rank } => {
                self.kept = self.local;
                self.stage = Stage::Retrying { rank };
                self.wait = Wait::Start;
            },
            Stage::Retrying { rank } => {
                let route: usize = self.survivors[rank];
                if self.local.less_than(self.kept) {
                    self.contenders.push(Contender { route, second: true, score: self.local });
                } else {
                    self.contenders.push(Contender { route, second: false, score: self.kept });
                }
                if rank + 1 < self.survivors.len() {
                    self.stage = Stage::Refining { rank: rank + 1 };
                    self.wait = Wait::Gate;
                } else {
                    let scores: Vec<Scalar> = scores_of(&self.contenders);
                    let order: Vec<usize> = stable_order(&scores);
                    proof {
                        ranking_is_the_order(scores@, order@);
                    }
                    self.winner = order[0];
                    self.stage = Stage::Polishing;
                    self.wait = Wait::Start;
                }
            },
            _ => {
                self.stage = Stage::Finished;
            },
        }
    }

    /// Takes in a reply; whether it brings a new best to be shown.
    pub fn advance(&mut self, reply: Reply) -> (r: bool)
        requires
            old(self)@.wf(),
            old(self)@.expects(reply),
            reply matches Reply::Scored { evals, .. } ==> old(self)@.evals + evals <= u64::MAX,
        ensures
            final(self)@ == old(self)@.after(reply),
            final(self)@.wf(),
            r == old(self)@.shown(reply),
    {
        proof {
            course_stays_sound(self@, reply);
        }
        match reply {
            Reply::Running { go } => {
                if !go {
                    self.stage = Stage::Finished;
                } else if self.wait == Wait::Gate {
                    self.wait = Wait::Start;
                } else {
                    self.wait = Wait::Step;
                }
                false
            },
            Reply::Ready => {
                match self.stage {
                    Stage::Screening { index } => {
                        let len: usize = self.routes[index].len();
                        assert(stops(self.routes@)[index as int].len() == len);
                        assert(1 + len <= usize::MAX);
                        self.left = self.budget.screen * (1 + len);
                        self.local = Scalar::infinity();
                    },
                    Stage::Refining { rank } => {
                        self.left = self.budget.refine;
                        self.local = self.screened[self.survivors[rank]];
                    },
                    Stage::Retrying { rank } => {
                        self.left = self.budget.refine;
                        self.local = Scalar::infinity();
                    },
                    _ => {
                        self.left = self.budget.polish;
                        self.local = self.contenders[self.winner].score;
                    },
                }
                if self.left == 0 {
                    self.close();
                } else {
                    self.wait = Wait::Check;
                }
                false
            },
            Reply::Scored { evals, score } => {
                let mut shown: bool = false;
                self.evals = self.evals + evals;
                if score.less_than(self.local) {
                    self.local = score;
                    if score.less_than(self.best) {
                        self.best = score;
                        shown = true;
                    }
                }
                self.left = self.left - 1;
                if self.left == 0 {
                    self.close();
                } else {
                    self.wait = Wait::Check;
                }
                shown
            },
        }
    }
}

/// The request of one search of a discovery.
pub open spec fn search_setup(s: Setup, route: Seq<BodyId>, second: bool) -> Setup {
    Setup {
        route,
        auto_route: false,
        seed: if second {
            s.seed.wrapping_add(SECOND_SEED)
        } else {
            s.seed
        },
        ..s
    }
}

/// The request of one search of a discovery.
pub fn search_request(cfg: &SolverConfig, route: &Vec<BodyId>, second: bool) -> (r: SolverConfig)
    ensures
        r@ == search_setup(cfg@, route@, second),
{
    let mut r: SolverConfig = cfg.clone();
    r.route = copy_route(route);
    r.auto_route = false;
    if second {
        r.seed = cfg.seed.wrapping_add(SECOND_SEED);
    }
    r
}

// ---------------------------------------------------------------- laws

proof fn ranking_is_sound(scores: Seq<Scalar>)
    requires
        scores.len() <= usize::MAX,
    ensures
        is_stable_order(scores, ranking(scores)),
{
    stable_order_exists(scores);
}

proof fn closing_stays_sound(c: Course)
    requires
        c.fits(),
    ensures
        c.close().wf(),
{
    match c.stage {
        Stage::Screening { index } => {
            let d = c.close();
            assert forall|i: int| 0 <= i < d.screened.len() implies d.behind(
                #[trigger] d.screened[i],
            ) by {
                if i < c.screened.len() {
                    assert(d.screened[i] == c.screened[i]);
                }
            }
            if index + 1 >= c.routes.len() {
                ranking_is_sound(d.screened);
                let order = ranking(d.screened);
                assert forall|i: int| 0 <= i < d.survivors.len() implies (
                #[trigger] d.survivors[i]) < d.routes.len() by {
                    assert(d.survivors[i] == order[i]);
                }
            }
        },
        Stage::Retrying { rank } => {
            let d = c.close();
            assert forall|i: int| 0 <= i < d.contenders.len() implies d.behind(
                (#[trigger] d.contenders[i]).score,
            ) && d.contenders[i].route < d.routes.len() by {
                if i < c.contenders.len() {
                    assert(d.contenders[i] == c.contenders[i]);
                }
            }
            if rank + 1 >= c.survivors.len() {
                ranking_is_sound(results(d.contenders));
            }
        },
        _ => {},
    }
}

/// Every reply that is expected leaves the parts of a discovery fitting
/// together.
pub proof fn course_stays_sound(c: Course, reply: Reply)
    requires
        c.wf(),
        c.expects(reply),
    ensures
        c.after(reply).wf(),
{
    match reply {
        Reply::Running { go } => {},
        Reply::Ready => {
            let d = Course { left: c.grant() as nat, local: c.handicap(), ..c };
            if let Stage::Screening { index } = c.stage {
                assert(c.routes[index as int].len() <= 3);
            }
            assert(0 <= c.grant() <= usize::MAX) by {
                if let Stage::Screening { index } = c.stage {
                    let k = 1 + c.routes[index as int].len();
                    assert(c.budget.screen * k >= 0) by (nonlinear_arith)
                        requires
                            c.budget.screen >= 0,
                            k >= 0,
                    ;
                }
            }
            assert(d.fits());
            if d.left == 0 {
                closing_stays_sound(d);
            }
        },
        Reply::Scored { evals, score } => {
            let d = c.counted(evals, score);
            scored_still_fits(c, evals, score);
            if d.left == 0 {
                closing_stays_sound(d);
            }
        },
    }
}

/// A discovery starts sound.
pub proof fn opening_is_sound(target: BodyId, budget: AutoBudget)
    requires
        4 * budget.screen <= usize::MAX,
    ensures
        opening_course(target, budget).wf(),
{
    let all = routes_to(target);
    crate::routes::routes_are_the_short_sequences(target);
    crate::routes::assist_bodies_are_distinct_planets(target);
    let n = crate::routes::assist_bodies(target).len();
    assert(n * n <= 16 && n * n * n <= 64) by (nonlinear_arith)
        requires
            0 <= n <= 4,
    ;
    assert forall|i: int| 0 <= i < all.len() implies (#[trigger] all[i]).len() <= 3 && budget.screen
        * (1 + all[i].len()) <= usize::MAX by {
        crate::routes::no_route_visits_the_target(target, i);
        let k = 1 + all[i].len();
        assert(budget.screen * k <= 4 * budget.screen) by (nonlinear_arith)
            requires
                k <= 4,
                budget.screen >= 0,
        ;
    }
}

/// A score is shown exactly when it is lower than every score before it, and
/// the best of all is then that score; otherwise the best of all stays.
pub proof fn shown_exactly_on_improvement(c: Course, reply: Reply)
    requires
        c.wf(),
        c.expects(reply),
    ensures
        c.shown(reply) <==> (reply matches Reply::Scored { score, .. } && score.lt(c.best)),
        c.after(reply).best == (if c.shown(reply) {
            reply->score
        } else {
            c.best
        }),
{
}

/// The best of all never rises.
pub proof fn best_never_rises(c: Course, reply: Reply)
    requires
        c.wf(),
        c.expects(reply),
    ensures
        c.after(reply).best.le(c.best),
{
}

/// A route that screening drops is ranked after every survivor.
pub proof fn survivors_are_the_best_screened(c: Course, rank: int, dropped: usize)
    requires
        c.wf(),
        c.has_survivors(),
        0 <= rank < c.survivors.len(),
        dropped < c.routes.len(),
        !c.survivors.contains(dropped),
    ensures
        crate::beam::before(c.screened, c.survivors[rank] as int, dropped as int),
{
    ranking_is_sound(c.screened);
    let order = ranking(c.screened);
    assert(order.contains(dropped));
    let q = choose|q: int| 0 <= q < order.len() && order[q] == dropped;
    if q < c.survivors.len() {
        assert(c.survivors[q] == dropped);
    }
    assert(c.survivors[rank] == order[rank]);
}

/// The contender polished is ranked before every other.
pub proof fn winner_is_the_best_contender(c: Course, other: int)
    requires
        c.wf(),
        c.stage == Stage::Polishing,
        0 <= other < c.contenders.len(),
        other != c.winner,
    ensures
        crate::beam::before(results(c.contenders), c.winner as int, other),
{
    let scores = results(c.contenders);
    ranking_is_sound(scores);
    let order = ranking(scores);
    assert(order.contains(other as usize));
    let q = choose|q: int| 0 <= q < order.len() && order[q] == other as usize;
    assert(q > 0);
}

/// The discovery after a list of replies.
pub open spec fn run(c: Course, replies: Seq<Reply>) -> Course
    decreases replies.len(),
{
    if replies.len() == 0 {
        c
    } else {
        run(c, replies.drop_last()).after(replies.last())
    }
}

/// Every reply of the list answers what the discovery then waits for.
pub open spec fn answers(c: Course, replies: Seq<Reply>) -> bool
    decreases replies.len(),
{
    replies.len() == 0 || (answers(c, replies.drop_last()) && run(
        c,
        replies.drop_last(),
    ).expects(replies.last()))
}

/// However long a discovery runs, its parts fit together and no score that was
/// reported is lower than the best of all.
pub proof fn best_is_the_lowest_score(c: Course, replies: Seq<Reply>)
    requires
        c.wf(),
        answers(c, replies),
    ensures
        run(c, replies).wf(),
        run(c, replies).best.le(c.best),
        forall|i: int|
            0 <= i < replies.len() ==> (#[trigger] replies[i] matches Reply::Scored { score, .. }
                ==> !score.lt(run(c, replies).best)),
    decreases replies.len(),
{
    if replies.len() > 0 {
        let head = replies.drop_last();
        let last = replies.last();
        best_is_the_lowest_score(c, head);
        let d = run(c, head);
        course_stays_sound(d, last);
        best_never_rises(d, last);
        shown_exactly_on_improvement(d, last);
        assert forall|i: int| 0 <= i < replies.len() implies (
        #[trigger] replies[i] matches Reply::Scored { score, .. } ==> !score.lt(
            run(c, replies).best,
        )) by {
            if i < head.len() {
                assert(head[i] == replies[i]);
            }
        }
    }
}

// Sessions: what the scores that a search reports come to.

/// One search from the moment it is in hand, leave being given before each of
/// its generations: how many candidates each flew, and what each scored.
pub open spec fn session(gens: Seq<(u64, Scalar)>) -> Seq<Reply>
    decreases gens.len(),
{
    if gens.len() == 0 {
        seq![Reply::Ready]
    } else {
        session(gens.drop_last()).push(Reply::Running { go: true }).push(
            Reply::Scored { evals: gens.last().0, score: gens.last().1 },
        )
    }
}

/// `x` is the lowest of `start` and of all scores reported: one of them, and
/// none of them is lower.
pub open spec fn is_lowest(x: Scalar, start: Scalar, gens: Seq<(u64, Scalar)>) -> bool {
    &&& x.le(start)
    &&& forall|i: int| 0 <= i < gens.len() ==> !(#[trigger] gens[i]).1.lt(x)
    &&& x == start || exists|i: int| 0 <= i < gens.len() && (#[trigger] gens[i]).1 == x
}

/// Some score reported is lower than `bar` and than every number of `others`.
pub open spec fn beats_all(
    gens: Seq<(u64, Scalar)>,
    bar: Scalar,
    others: Seq<(u64, Scalar)>,
) -> bool {
    exists|j: int|
        0 <= j < gens.len() && (#[trigger] gens[j]).1.lt(bar) && forall|i: int|
            0 <= i < others.len() && !(#[trigger] others[i]).1.nan() ==> gens[j].1.lt(others[i].1)
}

proof fn run_goes_on(c: Course, a: Seq<Reply>, b: Seq<Reply>)
    ensures
        run(c, a + b) == run(run(c, a), b),
    decreases b.len(),
{
    if b.len() == 0 {
        assert(a + b =~= a);
    } else {
        run_goes_on(c, a, b.drop_last());
        assert((a + b).drop_last() =~= a + b.drop_last());
        assert((a + b).last() == b.last());
    }
}

/// The parts that a search in hand leaves alone.
spec fn same_frame(c: Course, d: Course) -> bool {
    &&& d.routes == c.routes && d.budget == c.budget && d.stage == c.stage
    &&& d.kept == c.kept && d.screened == c.screened && d.survivors == c.survivors
    &&& d.contenders == c.contenders && d.winner == c.winner
}

proof fn lower_of_one_more(x: Scalar, start: Scalar, gens: Seq<(u64, Scalar)>)
    requires
        gens.len() > 0,
        is_lowest(x, start, gens.drop_last()),
    ensures
        is_lowest(
            if gens.last().1.lt(x) {
                gens.last().1
            } else {
                x
            },
            start,
            gens,
        ),
{
    let head = gens.drop_last();
    let last = gens.last().1;
    let y = if last.lt(x) {
        last
    } else {
        x
    };
    assert(gens[gens.len() - 1].1 == last);
    assert forall|i: int| 0 <= i < gens.len() implies !(#[trigger] gens[i]).1.lt(y) by {
        if i < head.len() {
            assert(!head[i].1.lt(x));
        }
    }
    if y == x && x != start {
        let i = choose|i: int| 0 <= i < head.len() && (#[trigger] head[i]).1 == x;
        assert(gens[i].1 == y);
    }
}

#[verifier::rlimit(40)]
proof fn session_under_way(c: Course, gens: Seq<(u64, Scalar)>)
    requires
        c.wf(),
        c.stage != Stage::Finished,
        c.wait == Wait::Start,
        gens.len() < c.grant(),
    ensures
        ({
            let d = run(c, session(gens));
            &&& d.wf() && same_frame(c, d) && d.wait == Wait::Check
            &&& d.left == c.grant() - gens.len()
            &&& is_lowest(d.local, c.handicap(), gens)
        }),
    decreases gens.len(),
{
    let s = session(gens);
    if gens.len() == 0 {
        assert(s.drop_last() =~= Seq::<Reply>::empty());
        assert(run(c, s.drop_last()) == c);
        course_stays_sound(c, Reply::Ready);
    } else {
        let head = gens.drop_last();
        session_under_way(c, head);
        let d = run(c, session(head));
        let go = Reply::Running { go: true };
        let scored = Reply::Scored { evals: gens.last().0, score: gens.last().1 };
        assert(s.drop_last() =~= session(head).push(go));
        assert(s.drop_last().drop_last() =~= session(head));
        course_stays_sound(d, go);
        course_stays_sound(d.after(go), scored);
        lower_of_one_more(d.local, c.handicap(), gens);
    }
}

/// The discovery in which a search has had all its generations, just before it
/// is closed.
#[verifier::rlimit(40)]
proof fn session_runs_out(c: Course, gens: Seq<(u64, Scalar)>) -> (e: Course)
    requires
        c.wf(),
        c.stage != Stage::Finished,
        c.wait == Wait::Start,
        gens.len() == c.grant(),
    ensures
        run(c, session(gens)) == e.close(),
        run(c, session(gens)).wf(),
        same_frame(c, e),
        is_lowest(e.local, c.handicap(), gens),
{
    let s = session(gens);
    if gens.len() == 0 {
        assert(s.drop_last() =~= Seq::<Reply>::empty());
        assert(run(c, s.drop_last()) == c);
        course_stays_sound(c, Reply::Ready);
        Course { left: c.grant() as nat, local: c.handicap(), ..c }
    } else {
        let head = gens.drop_last();
        session_under_way(c, head);
        let d = run(c, session(head));
        let go = Reply::Running { go: true };
        let scored = Reply::Scored { evals: gens.last().0, score: gens.last().1 };
        assert(s.drop_last() =~= session(head).push(go));
        assert(s.drop_last().drop_last() =~= session(head));
        course_stays_sound(d, go);
        course_stays_sound(d.after(go), scored);
        lower_of_one_more(d.local, c.handicap(), gens);
        d.after(go).counted(gens.last().0, gens.last().1)
    }
}

/// A route is screened by a search of its own, begun from the first seed. While
/// it has had fewer generations than its budget, once for each leg of the
/// route, it goes on; then the lowest score that it reported is noted, and the
/// next route is taken up, or the survivors are once all routes are screened.
#[verifier::rlimit(40)]
pub proof fn screening_notes_the_lowest_score(c: Course, index: usize, gens: Seq<(u64, Scalar)>)
    requires
        c.wf(),
        c.stage == (Stage::Screening { index }),
        c.wait == Wait::Start,
    ensures
        c.command() == (Command::Begin { route: index, second: false }),
        gens.len() < c.budget.screen * (1 + c.routes[index as int].len()) ==> ({
            let d = run(c, session(gens));
            d.stage == c.stage && d.screened == c.screened && d.command() == Command::Poll
        }),
        gens.len() == c.budget.screen * (1 + c.routes[index as int].len()) ==> ({
            let d = run(c, session(gens));
            &&& d.screened.len() == c.screened.len() + 1
            &&& d.screened.drop_last() == c.screened
            &&& is_lowest(d.screened.last(), Scalar { bits: INFINITY_BITS }, gens)
            &&& d.contenders == c.contenders
            &&& d.command() == Command::Poll
            &&& d.stage == (if index + 1 < c.routes.len() {
                Stage::Screening { index: (index + 1) as usize }
            } else {
                Stage::Refining { rank: 0 }
            })
        }),
{
    if gens.len() < c.grant() {
        session_under_way(c, gens);
    }
    if gens.len() == c.grant() {
        let e = session_runs_out(c, gens);
        assert(e.close().screened.drop_last() =~= c.screened);
    }
}

/// Five routes survive screening, or all where there are fewer: routes that
/// there are, no two the same, the better before the worse.
pub proof fn survivors_are_ranked(c: Course, i: int, j: int)
    requires
        c.wf(),
        c.stage is Refining || c.stage is Retrying || c.stage is Polishing,
    ensures
        c.survivors.len() == 5 || (c.survivors.len() == c.routes.len() && c.routes.len() < 5),
        0 <= i < c.survivors.len() ==> c.survivors[i] < c.routes.len(),
        0 <= i < j < c.survivors.len() ==> c.survivors[i] != c.survivors[j]
            && c.screened[c.survivors[i] as int].rank()
            <= c.screened[c.survivors[j] as int].rank(),
{
    ranking_is_sound(c.screened);
    let order = ranking(c.screened);
    if 0 <= i < j < c.survivors.len() {
        assert(c.survivors[i] == order[i] && c.survivors[j] == order[j]);
    }
}

/// No route that was dropped screened better than a survivor.
pub proof fn survivors_screened_best(c: Course, i: int, dropped: usize)
    requires
        c.wf(),
        c.stage is Refining || c.stage is Retrying || c.stage is Polishing,
        0 <= i < c.survivors.len(),
        dropped < c.routes.len(),
        !c.survivors.contains(dropped),
    ensures
        c.screened[c.survivors[i] as int].rank() <= c.screened[dropped as int].rank(),
{
    survivors_are_the_best_screened(c, i, dropped);
}

/// A survivor is searched on from where screening left it, and then once more
/// from another seed, each for the budget of refinement. The contender that it
/// leaves is the better of the two searches: no score that either reported, nor
/// the score that it was screened with, is lower; and it is the second search
/// exactly where that one reported a score strictly below all of the first's.
#[verifier::rlimit(40)]
pub proof fn contender_is_the_better_search(
    c: Course,
    rank: usize,
    first: Seq<(u64, Scalar)>,
    second: Seq<(u64, Scalar)>,
)
    requires
        c.wf(),
        c.stage == (Stage::Refining { rank }),
        c.wait == Wait::Start,
        first.len() == c.budget.refine,
        second.len() == c.budget.refine,
    ensures
        ({
            let route = c.survivors[rank as int];
            let screened = c.screened[route as int];
            let half = run(c, session(first));
            let d = run(c, session(first) + session(second));
            let x = d.contenders.last();
            &&& c.command() == (Command::Resume { route, second: false })
            &&& half.command() == (Command::Begin { route, second: true })
            &&& d.contenders.len() == c.contenders.len() + 1
            &&& d.contenders.drop_last() == c.contenders
            &&& x.route == route
            &&& !screened.lt(x.score)
            &&& forall|i: int| 0 <= i < first.len() ==> !(#[trigger] first[i]).1.lt(x.score)
            &&& forall|i: int| 0 <= i < second.len() ==> !(#[trigger] second[i]).1.lt(x.score)
            &&& x.second <==> beats_all(second, screened, first)
            &&& x.second ==> exists|i: int|
                0 <= i < second.len() && (#[trigger] second[i]).1 == x.score
            &&& !x.second ==> x.score == screened || exists|i: int|
                0 <= i < first.len() && (#[trigger] first[i]).1 == x.score
            &&& if rank + 1 < c.survivors.len() {
                d.stage == (Stage::Refining { rank: (rank + 1) as usize }) && d.wait == Wait::Gate
            } else {
                d.stage == Stage::Polishing && d.wait == Wait::Start
            }
        }),
{
    let route = c.survivors[rank as int];
    let screened = c.screened[route as int];
    let e = session_runs_out(c, first);
    let half = run(c, session(first));
    let f = session_runs_out(half, second);
    run_goes_on(c, session(first), session(second));
    let d = f.close();
    assert(d.contenders.drop_last() =~= c.contenders);
    let kept = e.local;
    let x = d.contenders.last();
    assert(half.kept == kept);
    if f.local.lt(kept) {
        // The lowest of the second search is one of its scores.
        let j = choose|j: int| 0 <= j < second.len() && (#[trigger] second[j]).1 == f.local;
        assert(second[j].1.lt(screened));
        assert forall|i: int| 0 <= i < first.len() && !(#[trigger] first[i]).1.nan() implies
            second[j].1.lt(first[i].1) by {
            assert(!first[i].1.lt(kept));
        }
        assert(beats_all(second, screened, first));
    } else if beats_all(second, screened, first) {
        let j = choose|j: int|
            0 <= j < second.len() && (#[trigger] second[j]).1.lt(screened) && forall|i: int|
                0 <= i < first.len() && !(#[trigger] first[i]).1.nan() ==> second[j].1.lt(
                    first[i].1,
                );
        assert(!second[j].1.lt(f.local));
        if kept != screened {
            let i = choose|i: int| 0 <= i < first.len() && (#[trigger] first[i]).1 == kept;
            assert(second[j].1.lt(first[i].1));
        }
    }
}

/// The search that is polished is the best contender, the earlier of equals,
/// taken up where it was left; it ends once it has had its generations.
#[verifier::rlimit(40)]
pub proof fn best_contender_is_polished(c: Course, other: int, gens: Seq<(u64, Scalar)>)
    requires
        c.wf(),
        c.stage == Stage::Polishing,
        c.wait == Wait::Start,
        0 <= other < c.contenders.len(),
    ensures
        ({
            let best = c.contenders[c.winner as int];
            &&& c.command() == (Command::Resume { route: best.route, second: best.second })
            &&& best.score.rank() <= c.contenders[other].score.rank()
            &&& other < c.winner ==> best.score.rank() < c.contenders[other].score.rank()
        }),
        gens.len() < c.budget.polish ==> run(c, session(gens)).command() == Command::Poll,
        gens.len() == c.budget.polish ==> run(c, session(gens)).command() == Command::Stop,
{
    if other != c.winner {
        winner_is_the_best_contender(c, other);
    }
    if gens.len() < c.grant() {
        session_under_way(c, gens);
    }
    if gens.len() == c.grant() {
        let e = session_runs_out(c, gens);
    }
}

/// A reply counts the candidates that it says were flown, and no others; leave
/// that is refused ends the discovery and changes nothing else.
pub proof fn replies_are_counted(c: Course, reply: Reply)
    requires
        c.wf(),
        c.expects(reply),
    ensures
        c.after(reply).evals == c.evals + match reply {
            Reply::Scored { evals, .. } => evals as int,
            _ => 0,
        },
        reply == (Reply::Running { go: false }) ==> c.after(reply).command() == Command::Stop
            && c.after(reply).best == c.best && c.after(reply).contenders == c.contenders,
        reply == (Reply::Running { go: true }) ==> c.after(reply).stage == c.stage && c.after(
            reply,
        ).command() != Command::Poll,
{
}

/// The searches of one route ask for the same but for their seed: the second
/// starts a thousand further on.
pub proof fn searches_differ_in_their_seed(s: Setup, route: Seq<BodyId>)
    ensures
        ({
            let first = search_setup(s, route, false);
            let second = search_setup(s, route, true);
            &&& first.route == route && !first.auto_route && first.seed == s.seed
            &&& second == (Setup { seed: second.seed, ..first })
            &&& (second.seed - first.seed) % 0x1_0000_0000_0000_0000 == 1000
            &&& first.target == s.target && first.mission == s.mission && first.engine == s.engine
            &&& first.launcher == s.launcher && first.objective == s.objective
            &&& first.window_days == s.window_days && first.tof_min_days == s.tof_min_days
            &&& first.tof_max_days == s.tof_max_days && first.beam_width == s.beam_width
            &&& first.mutations == s.mutations
        }),
{
}

// Termination: every reply lowers the work that is left.

/// Work of one search from its gate on.
pub open spec fn search_work(grant: int) -> int {
    2 * grant + 3
}

impl Course {
    /// Work of screening the routes from `from` on.
    pub open spec fn screening_work(self, from: int) -> int
        decreases self.routes.len() - from,
    {
        if from >= self.routes.len() {
            0
        } else {
            search_work(self.budget.screen * (1 + self.routes[from].len())) + self.screening_work(
                from + 1,
            )
        }
    }

    /// Work of refining `n` survivors.
    pub open spec fn refining_work(self, n: int) -> int {
        n * (2 * search_work(self.budget.refine as int))
    }

    /// Work after the search in hand.
    pub open spec fn work_ahead(self) -> int {
        let refine = search_work(self.budget.refine as int);
        let polish = search_work(self.budget.polish as int);
        match self.stage {
            Stage::Screening { index } => self.screening_work(index + 1) + self.refining_work(
                survivor_count(self.routes.len() as int),
            ) + polish,
            Stage::Refining { rank } => refine + self.refining_work(
                self.survivors.len() - rank - 1,
            ) + polish,
            Stage::Retrying { rank } => self.refining_work(self.survivors.len() - rank - 1)
                + polish,
            Stage::Polishing => 0,
            Stage::Finished => 0,
        }
    }

    /// Bound on the replies that a discovery still takes.
    pub open spec fn work(self) -> int {
        if self.stage == Stage::Finished {
            0
        } else {
            self.work_ahead() + match self.wait {
                Wait::Gate => 2 * self.grant() + 3,
                Wait::Start => 2 * self.grant() + 2,
                Wait::Check => 2 * (self.left as int) + 1,
                Wait::Step => 2 * (self.left as int),
            }
        }
    }
}

proof fn work_is_not_negative(c: Course)
    requires
        c.fits(),
    ensures
        c.work_ahead() >= 0,
        c.grant() >= 0,
        forall|from: int| 0 <= from ==> #[trigger] c.screening_work(from) >= 0,
        forall|n: int| 0 <= n ==> #[trigger] c.refining_work(n) >= 0,
{
    assert forall|from: int| 0 <= from implies #[trigger] c.screening_work(from) >= 0 by {
        screening_work_is_not_negative(c, from);
    }
    assert forall|n: int| 0 <= n implies #[trigger] c.refining_work(n) >= 0 by {
        let w = 2 * search_work(c.budget.refine as int);
        assert(n * w >= 0) by (nonlinear_arith)
            requires
                n >= 0,
                w >= 0,
        ;
    }
    if let Stage::Screening { index } = c.stage {
        let k = 1 + c.routes[index as int].len();
        assert(c.budget.screen * k >= 0) by (nonlinear_arith)
            requires
                c.budget.screen >= 0,
                k >= 0,
        ;
    }
}

proof fn screening_work_is_not_negative(c: Course, from: int)
    requires
        0 <= from,
    ensures
        c.screening_work(from) >= 0,
    decreases c.routes.len() - from,
{
    if from < c.routes.len() {
        screening_work_is_not_negative(c, from + 1);
        let k = 1 + c.routes[from].len();
        assert(c.budget.screen * k >= 0) by (nonlinear_arith)
            requires
                c.budget.screen >= 0,
                k >= 0,
        ;
    }
}

proof fn screening_work_is_shared(c: Course, d: Course, from: int)
    requires
        c.routes == d.routes,
        c.budget == d.budget,
        0 <= from,
    ensures
        c.screening_work(from) == d.screening_work(from),
    decreases c.routes.len() - from,
{
    if from < c.routes.len() {
        screening_work_is_shared(c, d, from + 1);
    }
}

proof fn closing_spends_the_search(c: Course)
    requires
        c.fits(),
        c.stage != Stage::Finished,
    ensures
        0 <= c.close().work() <= c.work_ahead(),
{
    let d = c.close();
    closing_stays_sound(c);
    work_is_not_negative(c);
    work_is_not_negative(d);
    let w = 2 * search_work(c.budget.refine as int);
    match c.stage {
        Stage::Screening { index } => {
            screening_work_is_shared(c, d, index + 2);
            screening_work_is_shared(c, d, index + 1);
            let n = survivor_count(c.routes.len() as int);
            assert(n * w == (n - 1) * w + w) by (nonlinear_arith);
        },
        Stage::Retrying { rank } => {
            let n = c.survivors.len() - rank - 1;
            assert(n * w == (n - 1) * w + w) by (nonlinear_arith);
        },
        _ => {},
    }
}

/// Every expected reply lowers the work that is left, so a discovery ends.
pub proof fn discovery_ends(c: Course, reply: Reply)
    requires
        c.wf(),
        c.expects(reply),
    ensures
        0 <= c.after(reply).work() < c.work(),
{
    work_is_not_negative(c);
    course_stays_sound(c, reply);
    match reply {
        Reply::Running { go } => {
            let d = c.after(reply);
            if let Stage::Screening { index } = c.stage {
                screening_work_is_shared(c, d, index + 1);
            }
        },
        Reply::Ready => {
            let d = Course { left: c.grant() as nat, local: c.handicap(), ..c };
            if let Stage::Screening { index } = c.stage {
                screening_work_is_shared(c, d, index + 1);
                screening_work_is_shared(c, d.proceed(), index + 1);
            }
            if d.left == 0 {
                assert(d.fits());
                closing_spends_the_search(d);
            }
        },
        Reply::Scored { evals, score } => {
            let d = c.counted(evals, score);
            if let Stage::Screening { index } = c.stage {
                screening_work_is_shared(c, d, index + 1);
                screening_work_is_shared(c, d.proceed(), index + 1);
            }
            if d.left == 0 {
                scored_still_fits(c, evals, score);
                closing_spends_the_search(d);
            }
        },
    }
}

proof fn scored_still_fits(c: Course, evals: u64, score: Scalar)
    requires
        c.wf(),
    ensures
        c.counted(evals, score).fits(),
{
    let d = c.counted(evals, score);
    assert(d.best.place() <= c.best.place());
    assert forall|i: int| 0 <= i < d.screened.len() implies d.behind(#[trigger] d.screened[i]) by {
        assert(c.behind(c.screened[i]));
    }
    assert forall|i: int| 0 <= i < d.contenders.len() implies d.behind(
        (#[trigger] d.contenders[i]).score,
    ) && d.contenders[i].route < d.routes.len() by {
        assert(c.behind(c.contenders[i].score));
    }
}

/// A route is named when its search is taken up, with the route that the command asks
/// for: but for a second search and for a poll, every command that asks for a route
/// comes with a word on it, and no other command does.
pub proof fn what_is_taken_up_is_told(c: Course)
    requires
        c.wf(),
    ensures
        match c.command() {
            Command::Begin { route, second } => if second {
                c.status() is None
            } else {
                c.status() matches Some(text) && ("screening "@ + short_name(
                    c.routes[route as int],
                )).is_prefix_of(text)
            },
            Command::Resume { route, second } => c.status() matches Some(text) && (text
                == "refining "@ + short_name(c.routes[route as int]) || text == "polishing "@
                + short_name(c.routes[route as int])) && (second ==> c.stage == Stage::Polishing)
                && (c.stage == Stage::Polishing ==> text == "polishing "@ + short_name(
                c.routes[route as int],
            )),
            _ => c.status() is None,
        },
{
    match c.command() {
        Command::Begin { route, second } => {
            if !second {
                let head = "screening "@ + short_name(c.routes[route as int]);
                assert(head.is_prefix_of(c.status()->Some_0));
            }
        },
        _ => {},
    }
}

} // verus!
