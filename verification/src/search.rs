//! The beam search itself, one generation at a time. The search draws what to
//! try and decides what survives; its caller flies and scores the candidates.

use crate::beam::{
    beam_holds_distinct_ideas, beam_is_unique, beam_never_worsens, before, best_leads_the_beam,
    champion, is_beam, is_stable_order, select_beam, stable_order, stable_order_is_unique,
};
use crate::bounds::{shape, shape_of};
use crate::mutation::{fits, mutate_at, mutation, Edit, GenomeShape};
use crate::problem::{Genes, Genome, Setup, SolverConfig};
use crate::rng::{register, Rng};
use crate::scalar::Scalar;
use crate::seeding::{
    choose_draw, keeps, plan, plan_cost, plan_seed_at, within_cap, Channel, SeedDrawStats,
    SeedPlan, SEED_DRAWS,
};
use vstd::prelude::*;

verus! {

/// A candidate to be made from a member of the beam.
pub struct Child {
    /// Place of the parent in the beam.
    pub parent: usize,
    /// What changes, in order.
    pub edits: Vec<Edit>,
}

/// What one generation tries.
pub struct Generation {
    /// Every mutation of every member, member by member.
    pub children: Vec<Child>,
    /// One fresh candidate.
    pub fresh: SeedPlan,
}

/// The search: its request, its stream and its beam.
pub struct Search {
    pub cfg: SolverConfig,
    pub rng: Rng,
    pub genomes: Vec<Genome>,
    pub scores: Vec<Scalar>,
    pub keys: Vec<u64>,
    pub seed_draws: SeedDrawStats,
}

/// The word that follows `n` plans drawn from the start of a stream.
pub open spec fn after_plans(x: u64, s: Setup, n: nat) -> nat
    decreases n,
{
    if n == 0 {
        0
    } else {
        let k = after_plans(x, s, (n - 1) as nat);
        k + plan_cost(x, k, s)
    }
}

/// The word that follows the first `n` mutations of a generation.
pub open spec fn after_children(
    x: u64,
    shapes: Seq<GenomeShape>,
    mutations: nat,
    tour: bool,
    n: nat,
) -> nat
    decreases n,
{
    if n == 0 {
        0
    } else {
        mutation(
            x,
            after_children(x, shapes, mutations, tour, (n - 1) as nat),
            shapes[(n - 1) / mutations as int],
            tour,
        ).next
    }
}

/// The state in which the stream of a request starts.
pub open spec fn first_state(s: Setup) -> u64 {
    if s.seed == 0 {
        1
    } else {
        s.seed
    }
}

/// The entries of a list at some places.
pub open spec fn gathered<T>(v: Seq<T>, at: Seq<usize>) -> Seq<T> {
    Seq::new(at.len(), |i: int| v[at[i] as int])
}

/// Candidates with their parts as sequences.
pub open spec fn genes_of(v: Seq<Genome>) -> Seq<Genes> {
    Seq::new(v.len(), |i: int| v[i]@)
}

/// The shapes of some candidates.
pub open spec fn shapes_of(genes: Seq<Genes>) -> Seq<GenomeShape> {
    Seq::new(genes.len(), |i: int| shape_of(genes[i]))
}

/// What a search carries from one generation to the next: its stream, and the
/// candidates of its beam with their scores and identities.
pub struct Population {
    pub stream: u64,
    pub genes: Seq<Genes>,
    pub scores: Seq<Scalar>,
    pub keys: Seq<u64>,
}

/// Candidates as they were flown.
pub struct Flown {
    pub genes: Seq<Genes>,
    pub scores: Seq<Scalar>,
    pub keys: Seq<u64>,
}

impl Flown {
    /// Every candidate has a score and an identity.
    pub open spec fn wf(self) -> bool {
        self.genes.len() == self.scores.len() && self.keys.len() == self.scores.len()
    }
}

impl Population {
    /// Every candidate has a score and an identity.
    pub open spec fn wf(self) -> bool {
        self.genes.len() == self.scores.len() && self.keys.len() == self.scores.len()
    }
}

/// The stream once a generation has been drawn for members of those shapes.
pub open spec fn stream_after(s: Setup, stream: u64, shapes: Seq<GenomeShape>) -> u64 {
    let m = s.mutations as nat;
    let last = after_children(stream, shapes, m, s.route.len() > 0, shapes.len() * m);
    register(stream, last + plan_cost(stream, last, s))
}

/// A generation as a stream draws it for members of those shapes: each member
/// has as many children as the request says, each with its edits, and after
/// all of them comes one fresh candidate.
pub open spec fn is_generation(
    s: Setup,
    stream: u64,
    shapes: Seq<GenomeShape>,
    r: Generation,
) -> bool {
    let m = s.mutations as nat;
    let tour = s.route.len() > 0;
    let n = shapes.len() * m;
    let last = after_children(stream, shapes, m, tour, n);
    &&& r.children.len() == n
    &&& forall|i: int|
        0 <= i < n ==> (#[trigger] r.children@[i]).parent == i / m as int
            && r.children@[i].edits@ == mutation(
            stream,
            after_children(stream, shapes, m, tour, i as nat),
            shapes[i / m as int],
            tour,
        ).edits && forall|e: int|
            0 <= e < r.children@[i].edits@.len() ==> fits(
                #[trigger] r.children@[i].edits@[e],
                shapes[i / m as int],
            )
    &&& r.fresh@ == plan(stream, last, s)
}

/// A population whose next generation has been drawn: only the stream moves.
pub open spec fn expanded(s: Setup, a: Population) -> Population {
    Population { stream: stream_after(s, a.stream, shapes_of(a.genes)), ..a }
}

/// `b` is what `a` becomes once the candidates flown have competed with it.
pub open spec fn settles(s: Setup, a: Population, f: Flown, b: Population) -> bool {
    let pool = a.scores + f.scores;
    let ideas = a.keys + f.keys;
    b.stream == a.stream && exists|r: Seq<usize>| #[trigger]
        is_beam(pool, ideas, s.beam_width as nat, r) && b.scores == gathered(pool, r) && b.keys
            == gathered(ideas, r) && b.genes == gathered(a.genes + f.genes, r)
}

impl Search {
    /// What the search carries on.
    pub open spec fn population(&self) -> Population {
        Population {
            stream: self.stream(),
            genes: self.genes(),
            scores: self.beam(),
            keys: self.ideas(),
        }
    }

    /// The candidates of the beam, best first.
    pub open spec fn genes(&self) -> Seq<Genes> {
        genes_of(self.genomes@)
    }

    /// State of the stream.
    pub open spec fn stream(&self) -> u64 {
        self.rng.state()
    }

    /// Scores of the beam, best first.
    pub open spec fn beam(&self) -> Seq<Scalar> {
        self.scores@
    }

    /// Identities of the beam's members.
    pub open spec fn ideas(&self) -> Seq<u64> {
        self.keys@
    }

    pub open spec fn draws(&self) -> SeedDrawStats {
        self.seed_draws
    }

    /// Every member has a score and an identity.
    pub open spec fn wf(&self) -> bool {
        self.population().wf()
    }

    /// A search that has drawn nothing yet.
    pub fn new(cfg: SolverConfig) -> (r: Self)
        ensures
            r.cfg == cfg,
            r.stream() == first_state(cfg@),
            r.beam().len() == 0,
            r.wf(),
            r.draws().consistent(),
            r.draws().draws == 0,
            r.draws().draws_feasible == 0,
            r.draws().uniform_genomes == 0,
            r.draws().feasible_genomes == 0,
            r.draws().feasible_misses == 0,
    {
        let rng: Rng = Rng::new(cfg.seed);
        Search {
            cfg,
            rng,
            genomes: Vec::new(),
            scores: Vec::new(),
            keys: Vec::new(),
            seed_draws: SeedDrawStats::default(),
        }
    }

    /// Draws the candidates of the first beam.
    pub fn seed_beam(&mut self) -> (r: Vec<SeedPlan>)
        ensures
            final(self).cfg == old(self).cfg,
            final(self).genomes == old(self).genomes,
            final(self).beam() == old(self).beam(),
            final(self).ideas() == old(self).ideas(),
            final(self).draws() == old(self).draws(),
            r.len() == old(self).cfg.beam_width,
            forall|i: int|
                0 <= i < r.len() ==> (#[trigger] r@[i])@ == plan(
                    old(self).stream(),
                    after_plans(old(self).stream(), old(self).cfg@, i as nat),
                    old(self).cfg@,
                ),
            final(self).stream() == register(
                old(self).stream(),
                after_plans(old(self).stream(), old(self).cfg@, old(self).cfg.beam_width as nat),
            ),
    {
        let ghost x = self.stream();
        let mut r: Vec<SeedPlan> = Vec::new();
        let n: usize = self.cfg.beam_width;
        let mut i: usize = 0;
        while i < n
            invariant
                i <= n,
                r.len() == i,
                self.cfg == old(self).cfg,
                self.genomes == old(self).genomes,
                self.scores == old(self).scores,
                self.keys == old(self).keys,
                self.seed_draws == old(self).seed_draws,
                self.rng.state() == register(x, after_plans(x, self.cfg@, i as nat)),
                forall|j: int|
                    0 <= j < i ==> (#[trigger] r@[j])@ == plan(
                        x,
                        after_plans(x, self.cfg@, j as nat),
                        self.cfg@,
                    ),
            decreases n - i,
        {
            let ghost at: nat = after_plans(x, self.cfg@, i as nat);
            let p: SeedPlan = plan_seed_at(&mut self.rng, &self.cfg, Ghost(x), Ghost(at));
            r.push(p);
            i = i + 1;
        }
        r
    }

    /// Keeps one timing of a ballistic direct seed's batch, by the launch
    /// energies found for it.
    pub fn keep_timing(&mut self, channel: Channel, c3: &Vec<Scalar>, cap: Scalar) -> (r: usize)
        requires
            c3.len() == SEED_DRAWS,
            old(self).draws().draws <= usize::MAX - SEED_DRAWS,
            old(self).draws().consistent(),
        ensures
            r < SEED_DRAWS,
            keeps(c3@, cap, channel, r as int),
            final(self).cfg == old(self).cfg,
            final(self).population() == old(self).population(),
            final(self).draws().consistent(),
            final(self).draws().counts(
                old(self).draws(),
                channel,
                within_cap(c3@, cap, c3@.len() as int).len(),
            ),
    {
        choose_draw(channel, c3, cap, &mut self.seed_draws)
    }

    /// Settles the first beam: all candidates, by score. Returns their places.
    pub fn settle(
        &mut self,
        candidates: &Vec<Genome>,
        scores: &Vec<Scalar>,
        keys: &Vec<u64>,
    ) -> (r: Vec<usize>)
        requires
            scores.len() == keys.len(),
            scores.len() == candidates.len(),
        ensures
            is_stable_order(scores@, r@),
            final(self).cfg == old(self).cfg,
            final(self).stream() == old(self).stream(),
            final(self).draws() == old(self).draws(),
            final(self).wf(),
            final(self).genes() == gathered(genes_of(candidates@), r@),
            final(self).beam() == gathered(scores@, r@),
            final(self).ideas() == gathered(keys@, r@),
            final(self).beam().len() == scores@.len(),
            forall|k: usize| 0 <= k < scores@.len() ==> #[trigger] r@.contains(k),
            forall|p: int, q: int|
                0 <= p < q < final(self).beam().len() ==> (
                #[trigger] final(self).beam()[p]).rank() <= (
                #[trigger] final(self).beam()[q]).rank(),
    {
        let order: Vec<usize> = stable_order(scores);
        self.genomes = gather_genomes(candidates, &order);
        self.scores = gather_scalars(scores, &order);
        self.keys = gather_words(keys, &order);
        proof {
            assert forall|p: int, q: int| 0 <= p < q < self.beam().len() implies (
            #[trigger] self.beam()[p]).rank() <= (#[trigger] self.beam()[q]).rank() by {
                assert(before(scores@, order@[p] as int, order@[q] as int));
            }
        }
        order
    }

    /// Draws one generation: for each member, in order, as many mutations as
    /// the request says, then one fresh candidate.
    pub fn expand(&mut self) -> (r: Generation)
        requires
            old(self).wf(),
            forall|i: int|
                0 <= i < old(self).genomes@.len() ==> (#[trigger] old(self).genomes@[i]).legs@.len()
                    > 0,
            old(self).beam().len() * old(self).cfg.mutations <= usize::MAX,
        ensures
            final(self).cfg == old(self).cfg,
            final(self).draws() == old(self).draws(),
            is_generation(
                old(self).cfg@,
                old(self).stream(),
                shapes_of(old(self).genes()),
                r,
            ),
            final(self).population() == expanded(old(self).cfg@, old(self).population()),
            old(self).beam().len() == old(self).cfg.beam_width ==> r.children.len() + 1
                == old(self).cfg.beam_width * old(self).cfg.mutations + 1,
    {
        let shapes: Vec<GenomeShape> = shapes_in(&self.genomes);
        assert forall|i: int| 0 <= i < shapes.len() implies (#[trigger] shapes@[i]).legs > 0 by {
            assert(shapes@[i].legs == self.genomes@[i].legs.len());
        }
        self.draw_generation(&shapes)
    }

    #[verifier::rlimit(60)]
    #[verifier::spinoff_prover]
    fn draw_generation(&mut self, shapes: &Vec<GenomeShape>) -> (r: Generation)
        requires
            forall|i: int| 0 <= i < shapes.len() ==> (#[trigger] shapes@[i]).legs > 0,
            shapes.len() * old(self).cfg.mutations <= usize::MAX,
        ensures
            final(self).cfg == old(self).cfg,
            final(self).genomes == old(self).genomes,
            final(self).scores == old(self).scores,
            final(self).keys == old(self).keys,
            final(self).draws() == old(self).draws(),
            is_generation(old(self).cfg@, old(self).stream(), shapes@, r),
            final(self).stream() == stream_after(old(self).cfg@, old(self).stream(), shapes@),
    {
        let ghost x = self.stream();
        let m: usize = self.cfg.mutations;
        let tour: bool = self.cfg.route.len() > 0;
        let mut children: Vec<Child> = Vec::new();
        let n: usize = shapes.len() * m;
        let mut i: usize = 0;
        while i < n
            invariant
                i <= n,
                n == shapes.len() * m,
                m == self.cfg.mutations,
                tour == (self.cfg.route@.len() > 0),
                children.len() == i,
                self.cfg == old(self).cfg,
                self.genomes == old(self).genomes,
                self.scores == old(self).scores,
                self.keys == old(self).keys,
                self.seed_draws == old(self).seed_draws,
                forall|j: int| 0 <= j < shapes.len() ==> (#[trigger] shapes@[j]).legs > 0,
                self.rng.state() == register(
                    x,
                    after_children(x, shapes@, m as nat, tour, i as nat),
                ),
                forall|j: int|
                    0 <= j < i ==> (#[trigger] children@[j]).parent == j / m as int
                        && children@[j].edits@ == mutation(
                        x,
                        after_children(x, shapes@, m as nat, tour, j as nat),
                        shapes@[j / m as int],
                        tour,
                    ).edits && forall|e: int|
                        0 <= e < children@[j].edits@.len() ==> fits(
                            #[trigger] children@[j].edits@[e],
                            shapes@[j / m as int],
                        ),
            decreases n - i,
        {
            assert(m > 0 && i / m < shapes@.len()) by (nonlinear_arith)
                requires
                    0 <= i < n,
                    n == shapes@.len() * m,
                    m >= 0,
            ;
            let parent: usize = i / m;
            let ghost at: nat = after_children(x, shapes@, m as nat, tour, i as nat);
            let edits: Vec<Edit> = mutate_at(
                &mut self.rng,
                &shapes[parent],
                tour,
                Ghost(x),
                Ghost(at),
            );
            children.push(Child { parent, edits });
            i = i + 1;
        }
        let ghost last: nat = after_children(x, shapes@, m as nat, tour, n as nat);
        let fresh: SeedPlan = plan_seed_at(&mut self.rng, &self.cfg, Ghost(x), Ghost(last));
        Generation { children, fresh }
    }

    /// Settles a generation: the beam and the new candidates, scored and
    /// identified in the order in which they were drawn, compete; the best of
    /// each idea survive. The places returned count the old beam first.
    pub fn select(
        &mut self,
        candidates: &Vec<Genome>,
        scores: &Vec<Scalar>,
        keys: &Vec<u64>,
    ) -> (r: Vec<usize>)
        requires
            old(self).wf(),
            scores.len() == keys.len(),
            scores.len() == candidates.len(),
            old(self).beam().len() + scores.len() <= usize::MAX,
        ensures
            is_beam(
                old(self).beam() + scores@,
                old(self).ideas() + keys@,
                old(self).cfg.beam_width as nat,
                r@,
            ),
            final(self).cfg == old(self).cfg,
            final(self).draws() == old(self).draws(),
            final(self).wf(),
            final(self).genes() == gathered(old(self).genes() + genes_of(candidates@), r@),
            final(self).beam() == gathered(old(self).beam() + scores@, r@),
            final(self).ideas() == gathered(old(self).ideas() + keys@, r@),
            settles(
                old(self).cfg@,
                old(self).population(),
                (Flown { genes: genes_of(candidates@), scores: scores@, keys: keys@ }),
                final(self).population(),
            ),
            old(self).cfg.beam_width > 0 && old(self).beam().len() > 0 ==> final(self).beam().len()
                > 0 && final(self).beam()[0].rank() <= old(self).beam()[0].rank(),
    {
        let mut pool: Vec<Scalar> = Vec::new();
        let mut ideas: Vec<u64> = Vec::new();
        let mut all: Vec<Genome> = Vec::new();
        let mut i: usize = 0;
        while i < self.scores.len()
            invariant
                i <= self.scores.len(),
                self.scores.len() == self.keys.len(),
                self.scores.len() == self.genomes.len(),
                pool@ == self.scores@.take(i as int),
                ideas@ == self.keys@.take(i as int),
                genes_of(all@) == genes_of(self.genomes@).take(i as int),
            decreases self.scores.len() - i,
        {
            pool.push(self.scores[i]);
            ideas.push(self.keys[i]);
            let ghost before = genes_of(all@);
            all.push(self.genomes[i].clone());
            assert(pool@ =~= self.scores@.take(i + 1));
            assert(ideas@ =~= self.keys@.take(i + 1));
            assert(genes_of(all@) =~= before.push(self.genomes@[i as int]@));
            assert(genes_of(all@) =~= genes_of(self.genomes@).take(i + 1));
            i = i + 1;
        }
        assert(pool@ =~= self.scores@);
        assert(ideas@ =~= self.keys@);
        assert(genes_of(all@) =~= genes_of(self.genomes@));
        i = 0;
        while i < scores.len()
            invariant
                i <= scores.len(),
                scores.len() == keys.len(),
                scores.len() == candidates.len(),
                pool@ == self.scores@ + scores@.take(i as int),
                ideas@ == self.keys@ + keys@.take(i as int),
                genes_of(all@) == genes_of(self.genomes@) + genes_of(candidates@).take(i as int),
            decreases scores.len() - i,
        {
            pool.push(scores[i]);
            ideas.push(keys[i]);
            let ghost before = genes_of(all@);
            all.push(candidates[i].clone());
            assert(pool@ =~= self.scores@ + scores@.take(i + 1));
            assert(ideas@ =~= self.keys@ + keys@.take(i + 1));
            assert(genes_of(all@) =~= before.push(candidates@[i as int]@));
            assert(genes_of(all@) =~= genes_of(self.genomes@) + genes_of(candidates@).take(i + 1));
            i = i + 1;
        }
        assert(scores@.take(scores@.len() as int) =~= scores@);
        assert(keys@.take(keys@.len() as int) =~= keys@);
        assert(genes_of(candidates@).take(candidates@.len() as int) =~= genes_of(candidates@));
        let width: usize = self.cfg.beam_width;
        let r: Vec<usize> = select_beam(&pool, &ideas, width);
        proof {
            assert(genes_of(all@).len() == pool@.len());
            if width > 0 && self.scores@.len() > 0 {
                beam_never_worsens(pool@, ideas@, width as nat, r@, self.scores@[0]);
            }
        }
        self.genomes = gather_genomes(&all, &r);
        self.scores = gather_scalars(&pool, &r);
        self.keys = gather_words(&ideas, &r);
        proof {
            let a = old(self).population();
            let b = self.population();
            let f = Flown { genes: genes_of(candidates@), scores: scores@, keys: keys@ };
            assert(is_beam(a.scores + f.scores, a.keys + f.keys, self.cfg@.beam_width as nat, r@));
            assert(b.scores == gathered(a.scores + f.scores, r@));
            assert(b.keys == gathered(a.keys + f.keys, r@));
            assert(b.genes == gathered(a.genes + f.genes, r@));
            assert(settles(self.cfg@, a, f, b));
        }
        r
    }

    /// The candidates of the beam, best first.
    pub fn beam_genomes(&self) -> (r: Vec<Genome>)
        ensures
            genes_of(r@) == self.genes(),
    {
        let mut r: Vec<Genome> = Vec::new();
        let mut i: usize = 0;
        while i < self.genomes.len()
            invariant
                i <= self.genomes.len(),
                genes_of(r@) == genes_of(self.genomes@).take(i as int),
            decreases self.genomes.len() - i,
        {
            let ghost before = genes_of(r@);
            r.push(self.genomes[i].clone());
            assert(genes_of(r@) =~= before.push(self.genomes@[i as int]@));
            assert(genes_of(r@) =~= genes_of(self.genomes@).take(i + 1));
            i = i + 1;
        }
        assert(genes_of(r@) =~= genes_of(self.genomes@));
        r
    }

    /// The candidate in front, with its score.
    pub fn top(&self) -> (r: Option<(Scalar, Genome)>)
        requires
            self.wf(),
        ensures
            r is Some <==> self.beam().len() > 0,
            r matches Some((score, g)) ==> score == self.beam()[0] && g@ == self.genes()[0],
    {
        if self.scores.len() > 0 {
            Some((self.scores[0], self.genomes[0].clone()))
        } else {
            None
        }
    }

    /// The best score so far.
    pub fn leader(&self) -> (r: Option<Scalar>)
        ensures
            r == (if self.beam().len() > 0 {
                Some(self.beam()[0])
            } else {
                None
            }),
    {
        if self.scores.len() > 0 {
            Some(self.scores[0])
        } else {
            None
        }
    }

    /// How many candidates the beam holds.
    pub fn width(&self) -> (r: usize)
        ensures
            r == self.beam().len(),
    {
        self.scores.len()
    }

    /// Counts of timing draws so far.
    pub fn seed_draw_stats(&self) -> (r: SeedDrawStats)
        ensures
            r == self.draws(),
    {
        self.seed_draws
    }
}

fn gather_scalars(v: &Vec<Scalar>, at: &Vec<usize>) -> (r: Vec<Scalar>)
    requires
        forall|i: int| 0 <= i < at.len() ==> #[trigger] at@[i] < v.len(),
    ensures
        r@ == gathered(v@, at@),
{
    let mut r: Vec<Scalar> = Vec::new();
    let mut i: usize = 0;
    while i < at.len()
        invariant
            i <= at.len(),
            r.len() == i,
            forall|j: int| 0 <= j < at.len() ==> #[trigger] at@[j] < v.len(),
            forall|j: int| 0 <= j < i ==> #[trigger] r@[j] == v@[at@[j] as int],
        decreases at.len() - i,
    {
        r.push(v[at[i]]);
        i = i + 1;
    }
    assert(r@ =~= gathered(v@, at@));
    r
}

fn gather_genomes(v: &Vec<Genome>, at: &Vec<usize>) -> (r: Vec<Genome>)
    requires
        forall|i: int| 0 <= i < at.len() ==> #[trigger] at@[i] < v.len(),
    ensures
        genes_of(r@) == gathered(genes_of(v@), at@),
{
    let mut r: Vec<Genome> = Vec::new();
    let mut i: usize = 0;
    while i < at.len()
        invariant
            i <= at.len(),
            r.len() == i,
            forall|j: int| 0 <= j < at.len() ==> #[trigger] at@[j] < v.len(),
            forall|j: int| 0 <= j < i ==> (#[trigger] r@[j])@ == v@[at@[j] as int]@,
        decreases at.len() - i,
    {
        r.push(v[at[i]].clone());
        i = i + 1;
    }
    assert(genes_of(r@) =~= gathered(genes_of(v@), at@));
    r
}

fn shapes_in(v: &Vec<Genome>) -> (r: Vec<GenomeShape>)
    ensures
        r@ == shapes_of(genes_of(v@)),
{
    let mut r: Vec<GenomeShape> = Vec::new();
    let mut i: usize = 0;
    while i < v.len()
        invariant
            i <= v.len(),
            r@ == shapes_of(genes_of(v@)).take(i as int),
        decreases v.len() - i,
    {
        r.push(shape(&v[i]));
        assert(r@ =~= shapes_of(genes_of(v@)).take(i + 1));
        i = i + 1;
    }
    assert(r@ =~= shapes_of(genes_of(v@)));
    r
}

fn gather_words(v: &Vec<u64>, at: &Vec<usize>) -> (r: Vec<u64>)
    requires
        forall|i: int| 0 <= i < at.len() ==> #[trigger] at@[i] < v.len(),
    ensures
        r@ == gathered(v@, at@),
{
    let mut r: Vec<u64> = Vec::new();
    let mut i: usize = 0;
    while i < at.len()
        invariant
            i <= at.len(),
            r.len() == i,
            forall|j: int| 0 <= j < at.len() ==> #[trigger] at@[j] < v.len(),
            forall|j: int| 0 <= j < i ==> #[trigger] r@[j] == v@[at@[j] as int],
        decreases at.len() - i,
    {
        r.push(v[at[i]]);
        i = i + 1;
    }
    assert(r@ =~= gathered(v@, at@));
    r
}

// ---------------------------------------------------------------- laws

/// `b` follows `a` by one generation: one is drawn, flown and settled.
pub open spec fn follows(s: Setup, a: Population, f: Flown, b: Population) -> bool {
    settles(s, expanded(s, a), f, b)
}

/// Entry `i + 1` of a history follows entry `i`, with what `fly` reports of the
/// history up to there.
#[verifier::opaque]
pub open spec fn goes_on(
    s: Setup,
    fly: spec_fn(Seq<Population>) -> Flown,
    h: Seq<Population>,
    i: int,
) -> bool {
    follows(s, h[i], fly(h.take(i + 1)), h[i + 1])
}

/// A history of populations: each follows the one before it.
pub open spec fn is_history(
    s: Setup,
    fly: spec_fn(Seq<Population>) -> Flown,
    h: Seq<Population>,
) -> bool {
    h.len() > 0 && forall|i: int| 0 <= i < h.len() - 1 ==> #[trigger] goes_on(s, fly, h, i)
}

/// How many candidates compete in the generation that follows entry `i`.
pub open spec fn crowd(
    fly: spec_fn(Seq<Population>) -> Flown,
    h: Seq<Population>,
    i: int,
) -> nat {
    h[i].scores.len() + fly(h.take(i + 1)).scores.len()
}

proof fn shorter_history(s: Setup, fly: spec_fn(Seq<Population>) -> Flown, h: Seq<Population>)
    requires
        is_history(s, fly, h),
        h.len() > 1,
    ensures
        is_history(s, fly, h.drop_last()),
{
    reveal(goes_on);
    let head = h.drop_last();
    assert forall|i: int| 0 <= i < head.len() - 1 implies #[trigger] goes_on(s, fly, head, i) by {
        assert(goes_on(s, fly, h, i));
        assert(head.take(i + 1) =~= h.take(i + 1));
    }
}

/// A generation is settled in one way only.
pub proof fn generation_is_determined(
    s: Setup,
    a: Population,
    f: Flown,
    b: Population,
    c: Population,
)
    requires
        follows(s, a, f, b),
        follows(s, a, f, c),
    ensures
        b == c,
{
    let pool = a.scores + f.scores;
    let ideas = a.keys + f.keys;
    let r = choose|r: Seq<usize>| #[trigger]
        is_beam(pool, ideas, s.beam_width as nat, r) && b.scores == gathered(pool, r) && b.keys
            == gathered(ideas, r) && b.genes == gathered(a.genes + f.genes, r);
    let t = choose|t: Seq<usize>| #[trigger]
        is_beam(pool, ideas, s.beam_width as nat, t) && c.scores == gathered(pool, t) && c.keys
            == gathered(ideas, t) && c.genes == gathered(a.genes + f.genes, t);
    beam_is_unique(pool, ideas, s.beam_width as nat, r, t);
}

proof fn same_past_same_next(
    s: Setup,
    fly: spec_fn(Seq<Population>) -> Flown,
    h: Seq<Population>,
    k: Seq<Population>,
)
    requires
        h.len() == k.len() > 1,
        h.drop_last() == k.drop_last(),
        goes_on(s, fly, h, h.len() - 2),
        goes_on(s, fly, k, k.len() - 2),
    ensures
        h.last() == k.last(),
{
    reveal(goes_on);
    let n = h.len() - 2;
    let past = h.drop_last();
    assert(h.take(n + 1) =~= past);
    assert(k.take(n + 1) =~= past);
    assert(h[n] == past[n] && k[n] == past[n]);
    generation_is_determined(s, past[n], fly(past), h[n + 1], k[n + 1]);
}

/// The same request from the same start, flown by the same rules, gives the same
/// populations in every run.
pub proof fn searches_are_reproducible(
    s: Setup,
    fly: spec_fn(Seq<Population>) -> Flown,
    h: Seq<Population>,
    k: Seq<Population>,
)
    requires
        is_history(s, fly, h),
        is_history(s, fly, k),
        h.len() == k.len(),
        h[0] == k[0],
    ensures
        h == k,
    decreases h.len(),
{
    if h.len() > 1 {
        shorter_history(s, fly, h);
        shorter_history(s, fly, k);
        searches_are_reproducible(s, fly, h.drop_last(), k.drop_last());
        same_past_same_next(s, fly, h, k);
        assert(h =~= h.drop_last().push(h.last()));
        assert(k =~= k.drop_last().push(k.last()));
    } else {
        assert(h =~= k);
    }
}

proof fn next_leader_is_no_worse(s: Setup, a: Population, f: Flown, b: Population)
    requires
        follows(s, a, f, b),
        s.beam_width > 0,
        a.scores.len() > 0,
        a.scores.len() + f.scores.len() <= usize::MAX,
    ensures
        b.scores.len() > 0,
        b.scores[0].rank() <= a.scores[0].rank(),
{
    let pool = a.scores + f.scores;
    let ideas = a.keys + f.keys;
    let r = choose|r: Seq<usize>| #[trigger]
        is_beam(pool, ideas, s.beam_width as nat, r) && b.scores == gathered(pool, r) && b.keys
            == gathered(ideas, r) && b.genes == gathered(a.genes + f.genes, r);
    assert(pool[0] == a.scores[0]);
    beam_never_worsens(pool, ideas, s.beam_width as nat, r, a.scores[0]);
}

/// The leader of a search never gets worse, however many generations lie
/// between.
pub proof fn leader_never_worsens(
    s: Setup,
    fly: spec_fn(Seq<Population>) -> Flown,
    h: Seq<Population>,
    i: int,
    j: int,
)
    requires
        is_history(s, fly, h),
        s.beam_width > 0,
        0 <= i <= j < h.len(),
        h[i].scores.len() > 0,
        forall|k: int| 0 <= k < h.len() ==> #[trigger] crowd(fly, h, k) <= usize::MAX,
    ensures
        h[j].scores.len() > 0,
        h[j].scores[0].rank() <= h[i].scores[0].rank(),
    decreases j - i,
{
    if i < j {
        leader_never_worsens(s, fly, h, i, j - 1);
        assert(crowd(fly, h, j - 1) <= usize::MAX);
        assert(goes_on(s, fly, h, j - 1));
        assert(h[j].scores.len() > 0 && h[j].scores[0].rank() <= h[j - 1].scores[0].rank()) by {
            reveal(goes_on);
            next_leader_is_no_worse(s, h[j - 1], fly(h.take(j - 1 + 1)), h[j]);
        }
    }
}

/// What a generation leaves: at least one candidate and no more than the beam
/// is wide, best first, no two of the same idea. The first is the best of all
/// that competed, and each is the best of its idea.
pub proof fn settled_beam_is_sound(s: Setup, a: Population, f: Flown, b: Population)
    requires
        settles(s, a, f, b),
        s.beam_width > 0,
        a.wf(),
        f.wf(),
        0 < a.scores.len() + f.scores.len() <= usize::MAX,
    ensures
        1 <= b.scores.len() <= s.beam_width,
        b.wf(),
        forall|p: int, q: int|
            0 <= p < q < b.scores.len() ==> (#[trigger] b.scores[p]).rank() <= (
            #[trigger] b.scores[q]).rank() && b.keys[p] != b.keys[q],
        forall|j: int|
            0 <= j < a.scores.len() + f.scores.len() ==> b.scores[0].rank() <= (#[trigger] (a.scores
                + f.scores)[j]).rank(),
        forall|p: int, j: int|
            0 <= p < b.scores.len() && 0 <= j < a.scores.len() + f.scores.len() && #[trigger] (a.keys
                + f.keys)[j] == #[trigger] b.keys[p] ==> b.scores[p].rank() <= (a.scores
                + f.scores)[j].rank(),
{
    let pool = a.scores + f.scores;
    let ideas = a.keys + f.keys;
    let width = s.beam_width as nat;
    let r = choose|r: Seq<usize>| #[trigger]
        is_beam(pool, ideas, s.beam_width as nat, r) && b.scores == gathered(pool, r) && b.keys
            == gathered(ideas, r) && b.genes == gathered(a.genes + f.genes, r);
    best_leads_the_beam(pool, ideas, width, r, 0);
    assert forall|p: int, q: int| 0 <= p < q < b.scores.len() implies (
    #[trigger] b.scores[p]).rank() <= (#[trigger] b.scores[q]).rank() && b.keys[p]
        != b.keys[q] by {
        assert(before(pool, r[p] as int, r[q] as int));
        beam_holds_distinct_ideas(pool, ideas, width, r, p, q);
    }
    assert forall|j: int| 0 <= j < pool.len() implies b.scores[0].rank() <= (
    #[trigger] pool[j]).rank() by {
        best_leads_the_beam(pool, ideas, width, r, j);
    }
    assert forall|p: int, j: int|
        0 <= p < b.scores.len() && 0 <= j < pool.len() && #[trigger] ideas[j]
            == #[trigger] b.keys[p] implies b.scores[p].rank() <= pool[j].rank() by {
        assert(champion(pool, ideas, r[p] as int));
        assert(b.keys[p] == ideas[r[p] as int]);
        if j != r[p] as int {
            assert(before(pool, r[p] as int, j));
        }
    }
}

/// The first population of a request: the stream as far as its seeds are drawn,
/// and all of them by score.
pub open spec fn opens(s: Setup, first: Flown, a: Population) -> bool {
    let x = first_state(s);
    &&& a.stream == register(x, after_plans(x, s, s.beam_width as nat))
    &&& exists|r: Seq<usize>| #[trigger]
        is_stable_order(first.scores, r) && a.scores == gathered(first.scores, r) && a.keys
            == gathered(first.keys, r) && a.genes == gathered(first.genes, r)
}

/// Two runs of the same request, flown by the same rules, are the same run: the
/// same populations from the first on, however many generations are run.
pub proof fn requests_are_reproducible(
    s: Setup,
    first: Flown,
    fly: spec_fn(Seq<Population>) -> Flown,
    h: Seq<Population>,
    k: Seq<Population>,
)
    requires
        is_history(s, fly, h),
        is_history(s, fly, k),
        opens(s, first, h[0]),
        opens(s, first, k[0]),
        h.len() == k.len(),
    ensures
        h == k,
{
    let r = choose|r: Seq<usize>| #[trigger]
        is_stable_order(first.scores, r) && h[0].scores == gathered(first.scores, r)
            && h[0].keys == gathered(first.keys, r) && h[0].genes == gathered(first.genes, r);
    let t = choose|t: Seq<usize>| #[trigger]
        is_stable_order(first.scores, t) && k[0].scores == gathered(first.scores, t)
            && k[0].keys == gathered(first.keys, t) && k[0].genes == gathered(first.genes, t);
    stable_order_is_unique(first.scores, r, t);
    assert(h[0] == k[0]);
    searches_are_reproducible(s, fly, h, k);
}

/// Where the drawings of a generation start: the first child at the start of the
/// stream, each child where the one before it ended.
pub open spec fn children_start(
    s: Setup,
    stream: u64,
    shapes: Seq<GenomeShape>,
    at: Seq<nat>,
) -> bool {
    &&& at.len() == shapes.len() * s.mutations as nat + 1
    &&& at[0] == 0
    &&& forall|i: int|
        0 <= i < at.len() - 1 ==> #[trigger] at[i + 1] == mutation(
            stream,
            at[i],
            shapes[i / s.mutations as int],
            s.bodies().len() > 2,
        ).next
}

proof fn children_follow_on(
    s: Setup,
    stream: u64,
    shapes: Seq<GenomeShape>,
    at: Seq<nat>,
    i: int,
)
    requires
        children_start(s, stream, shapes, at),
        0 <= i < at.len(),
    ensures
        at[i] == after_children(
            stream,
            shapes,
            s.mutations as nat,
            s.route.len() > 0,
            i as nat,
        ),
    decreases i,
{
    if i > 0 {
        children_follow_on(s, stream, shapes, at, i - 1);
        assert(at[(i - 1) + 1] == mutation(
            stream,
            at[i - 1],
            shapes[(i - 1) / s.mutations as int],
            s.bodies().len() > 2,
        ).next);
    }
}

/// A generation reads the stream without gaps: the children one after the other,
/// as many in a row for each member as the request says, and the fresh candidate
/// after the last of them. What is drawn next goes on behind it.
#[verifier::rlimit(40)]
pub proof fn generations_read_the_stream(
    s: Setup,
    stream: u64,
    shapes: Seq<GenomeShape>,
    r: Generation,
    at: Seq<nat>,
    i: int,
)
    requires
        is_generation(s, stream, shapes, r),
        children_start(s, stream, shapes, at),
    ensures
        r.children@.len() == shapes.len() * s.mutations,
        0 <= i < r.children@.len() ==> {
            let parent = i / s.mutations as int;
            &&& r.children@[i].parent == parent
            &&& r.children@[i].edits@ == mutation(
                stream,
                at[i],
                shapes[parent],
                s.bodies().len() > 2,
            ).edits
        },
        r.fresh@ == plan(stream, at.last(), s),
        stream_after(s, stream, shapes) == register(
            stream,
            at.last() + plan_cost(stream, at.last(), s),
        ),
{
    let n = at.len() - 1;
    children_follow_on(s, stream, shapes, at, n);
    if 0 <= i < r.children@.len() {
        children_follow_on(s, stream, shapes, at, i);
    }
}

/// The candidates of a first beam are drawn one after the other: the first at the
/// start of the stream, each where the one before it ended.
pub proof fn seeds_read_the_stream(s: Setup, x: u64, at: Seq<nat>, i: int)
    requires
        at.len() > 0,
        at[0] == 0,
        forall|i: int|
            0 <= i < at.len() - 1 ==> #[trigger] at[i + 1] == at[i] + plan_cost(x, at[i], s),
        0 <= i < at.len(),
    ensures
        after_plans(x, s, i as nat) == at[i],
    decreases i,
{
    if i > 0 {
        seeds_read_the_stream(s, x, at, i - 1);
        assert(at[(i - 1) + 1] == at[i - 1] + plan_cost(x, at[i - 1], s));
    }
}

/// Every member of a settled population is one that competed, whole: its genes, its
/// score and its idea are those of one candidate.
pub proof fn members_are_whole(s: Setup, a: Population, f: Flown, b: Population, p: int)
    requires
        settles(s, a, f, b),
        a.wf(),
        f.wf(),
        0 <= p < b.scores.len(),
    ensures
        exists|j: int|
            0 <= j < a.scores.len() + f.scores.len() && b.genes[p] == #[trigger] (a.genes
                + f.genes)[j] && b.scores[p] == (a.scores + f.scores)[j] && b.keys[p] == (a.keys
                + f.keys)[j],
        b.stream == a.stream,
{
    let pool = a.scores + f.scores;
    let ideas = a.keys + f.keys;
    let r = choose|r: Seq<usize>| #[trigger]
        is_beam(pool, ideas, s.beam_width as nat, r) && b.scores == gathered(pool, r) && b.keys
            == gathered(ideas, r) && b.genes == gathered(a.genes + f.genes, r);
    let j = r[p] as int;
    assert(champion(pool, ideas, j));
    assert(b.genes[p] == (a.genes + f.genes)[j]);
}

} // verus!
