//! Coordinate descent on a tour's schedule: the departure epoch and each
//! flight time are nudged by a step that is halved round by round, and every
//! nudge that lowers the score is kept. This module decides which nudge is
//! tried next and holds it to its range; its caller works out where the nudged
//! entry would move to and scores the trial.

use crate::bounds::{comes_to, into, within, Bounds, Limits};
use crate::problem::{Genes, Genome};
use crate::scalar::{Scalar, INFINITY_BITS};
use vstd::prelude::*;

verus! {

/// Rounds, each with half the step of the one before.
pub const ROUNDS: usize = 9;

/// Step of the first round, days.
pub const FIRST_STEP_DAYS: u32 = 8;

/// What is to be scored.
#[derive(Clone, Copy, Debug, PartialEq, Eq, Structural)]
pub enum Probe {
    /// The schedule as it stands.
    Base,
    /// The schedule with one entry moved: entry 0 is the departure, entry `k`
    /// the flight time of leg `k - 1`. The step is the first one halved
    /// `round` times; `back` moves the entry earlier.
    Nudge { round: usize, entry: usize, back: bool },
    /// Nothing more.
    Done,
}

/// A descent in progress.
#[derive(Clone, Copy, Debug, PartialEq, Eq, Structural)]
pub struct Descent {
    pub legs: usize,
    pub next: Probe,
    /// Score of the schedule in hand.
    pub best: Scalar,
    /// A nudge of the sweep in hand was kept.
    pub improved: bool,
}

impl Descent {
    /// The nudges of one sweep: each entry forth and back.
    pub open spec fn sweep_len(self) -> int {
        2 * (self.legs + 1)
    }

    /// How many nudges of the sweep come before the next one.
    pub open spec fn position(self) -> int {
        match self.next {
            Probe::Nudge { entry, back, .. } => 2 * entry + if back {
                1int
            } else {
                0
            },
            _ => 0,
        }
    }

    /// The schedule scored becomes the one in hand.
    pub open spec fn keeps(self, score: Scalar) -> bool {
        self.next is Base || (self.next is Nudge && score.lt(self.best))
    }

    /// The probe that follows, once `improved` says whether the sweep has kept
    /// anything.
    pub open spec fn following(self, improved: bool) -> Probe {
        match self.next {
            Probe::Base => Probe::Nudge { round: 0, entry: 0, back: false },
            Probe::Nudge { round, entry, back } => if !back {
                Probe::Nudge { round, entry, back: true }
            } else if entry < self.legs {
                Probe::Nudge { round, entry: (entry + 1) as usize, back: false }
            } else if improved {
                Probe::Nudge { round, entry: 0, back: false }
            } else if round + 1 < ROUNDS {
                Probe::Nudge { round: (round + 1) as usize, entry: 0, back: false }
            } else {
                Probe::Done
            },
            Probe::Done => Probe::Done,
        }
    }

    /// The next probe opens a sweep.
    pub open spec fn opens_sweep(self, next: Probe) -> bool {
        next matches Probe::Nudge { entry, back, .. } && entry == 0 && !back
    }

    /// The descent after the probe scored so.
    pub open spec fn after(self, score: Scalar) -> Descent {
        let kept = self.keeps(score);
        let improved = self.next is Nudge && (self.improved || kept);
        let next = self.following(improved);
        Descent {
            legs: self.legs,
            next,
            best: if kept {
                score
            } else {
                self.best
            },
            improved: improved && !self.opens_sweep(next),
        }
    }

    /// The next nudge is one of those that there are.
    pub open spec fn wf(self) -> bool {
        self.next matches Probe::Nudge { round, entry, .. } ==> round < ROUNDS && entry
            <= self.legs
    }

    /// A descent about to score the schedule as it stands.
    pub fn new(legs: usize) -> (r: Self)
        ensures
            r.legs == legs,
            r.next == Probe::Base,
            !r.improved,
            r.best.bits == crate::scalar::INFINITY_BITS,
            r.wf(),
    {
        Descent { legs, next: Probe::Base, best: Scalar::infinity(), improved: false }
    }

    /// Takes in the score of the probe; whether the schedule scored becomes
    /// the one in hand.
    pub fn advance(&mut self, score: Scalar) -> (r: bool)
        requires
            old(self).wf(),
            old(self).next != Probe::Done,
        ensures
            *final(self) == old(self).after(score),
            final(self).wf(),
            r == old(self).keeps(score),
    {
        match self.next {
            Probe::Base => {
                self.best = score;
                self.improved = false;
                self.next = Probe::Nudge { round: 0, entry: 0, back: false };
                true
            },
            Probe::Nudge { round, entry, back } => {
                let kept: bool = score.less_than(self.best);
                if kept {
                    self.best = score;
                    self.improved = true;
                }
                if !back {
                    self.next = Probe::Nudge { round, entry, back: true };
                } else if entry < self.legs {
                    self.next = Probe::Nudge { round, entry: entry + 1, back: false };
                } else if self.improved {
                    self.improved = false;
                    self.next = Probe::Nudge { round, entry: 0, back: false };
                } else if round + 1 < ROUNDS {
                    self.next = Probe::Nudge { round: round + 1, entry: 0, back: false };
                } else {
                    self.next = Probe::Done;
                }
                kept
            },
            Probe::Done => false,
        }
    }
}

// ---------------------------------------------------------------- laws

/// The score in hand never rises, and falls exactly where a nudge is kept.
pub proof fn score_never_rises(d: Descent, score: Scalar)
    requires
        d.wf(),
        d.next is Nudge,
    ensures
        d.keeps(score) <==> score.lt(d.best),
        d.after(score).best == (if score.lt(d.best) {
            score
        } else {
            d.best
        }),
{
}

impl Descent {
    pub open spec fn rounds_left(self) -> int {
        match self.next {
            Probe::Base => ROUNDS + 1,
            Probe::Nudge { round, .. } => ROUNDS - round,
            Probe::Done => 0,
        }
    }

    /// Twice the place of the score in hand among the doubles, and one more
    /// while the sweep has kept something.
    pub open spec fn height(self) -> int {
        2 * (self.best.place() + 0x8000_0000_0000_0000) + if self.improved {
            1int
        } else {
            0
        }
    }

    pub open spec fn nudges_left(self) -> int {
        self.sweep_len() - self.position()
    }
}

/// Every probe brings the end nearer: it spends a round, or else lowers the
/// score in hand or forgets that it was lowered, or else spends a nudge of the
/// sweep. None of the three can fall without end.
pub proof fn descent_ends(d: Descent, score: Scalar)
    requires
        d.wf(),
        d.next != Probe::Done,
    ensures
        ({
            let e = d.after(score);
            &&& e.wf()
            &&& 0 <= e.rounds_left() && 0 <= e.height() && 0 <= e.nudges_left()
            &&& e.rounds_left() < d.rounds_left() || (e.rounds_left() == d.rounds_left() && (
            e.height() < d.height() || (e.height() == d.height() && e.nudges_left()
                < d.nudges_left())))
        }),
{
}

/// The descent after a list of scores.
pub open spec fn run(d: Descent, scores: Seq<Scalar>) -> Descent
    decreases scores.len(),
{
    if scores.len() == 0 {
        d
    } else {
        run(d, scores.drop_last()).after(scores.last())
    }
}

/// Some score of the list is lower than `best`.
pub open spec fn any_lower(scores: Seq<Scalar>, best: Scalar) -> bool {
    exists|i: int| 0 <= i < scores.len() && (#[trigger] scores[i]).lt(best)
}

proof fn within_a_sweep(d: Descent, scores: Seq<Scalar>)
    requires
        d.wf(),
        d.opens_sweep(d.next),
        !d.improved,
        scores.len() < d.sweep_len(),
    ensures
        ({
            let e = run(d, scores);
            &&& e.wf()
            &&& e.legs == d.legs
            &&& e.next is Nudge
            &&& e.next->round == d.next->round
            &&& e.position() == scores.len()
            &&& e.improved == any_lower(scores, d.best)
            &&& !e.improved ==> e.best == d.best
            &&& e.improved ==> e.best.lt(d.best)
        }),
    decreases scores.len(),
{
    if scores.len() > 0 {
        let head = scores.drop_last();
        within_a_sweep(d, head);
        one_more_lower(scores, d.best);
    }
}

proof fn one_more_lower(scores: Seq<Scalar>, best: Scalar)
    requires
        scores.len() > 0,
    ensures
        any_lower(scores, best) <==> any_lower(scores.drop_last(), best) || scores.last().lt(best),
{
    let head = scores.drop_last();
    if any_lower(scores, best) {
        let i = choose|i: int| 0 <= i < scores.len() && (#[trigger] scores[i]).lt(best);
        if i < head.len() {
            assert(head[i].lt(best));
        }
    }
    if any_lower(head, best) {
        let i = choose|i: int| 0 <= i < head.len() && (#[trigger] head[i]).lt(best);
        assert(scores[i].lt(best));
    }
    assert(scores[scores.len() - 1] == scores.last());
}

/// A sweep tries every entry forth and back. The step is halved, and in the
/// last round the descent ends, only after a sweep in which no nudge lowered
/// the score; otherwise another sweep of the same step follows, from a lower
/// score.
pub proof fn step_is_kept_until_nothing_improves(d: Descent, scores: Seq<Scalar>)
    requires
        d.wf(),
        d.opens_sweep(d.next),
        !d.improved,
        scores.len() == d.sweep_len(),
    ensures
        ({
            let e = run(d, scores);
            let round = d.next->round;
            if any_lower(scores, d.best) {
                &&& e.next == (Probe::Nudge { round, entry: 0, back: false })
                &&& e.best.lt(d.best)
            } else {
                &&& e.next == (if round + 1 < ROUNDS {
                    Probe::Nudge { round: (round + 1) as usize, entry: 0, back: false }
                } else {
                    Probe::Done
                })
                &&& e.best == d.best
            }
        }),
{
    let head = scores.drop_last();
    within_a_sweep(d, head);
    one_more_lower(scores, d.best);
}

// ---------------------------------------------------------------- tuning

/// A tour whose schedule is being tuned: the candidate in hand, and the ranges
/// within which it may be moved.
pub struct Tuning {
    pub descent: Descent,
    pub genome: Genome,
    pub bounds: Bounds,
}

/// A tour whose schedule is being tuned.
pub struct Tuned {
    pub descent: Descent,
    pub genes: Genes,
    pub limits: Limits,
}

impl View for Tuning {
    type V = Tuned;

    open spec fn view(&self) -> Tuned {
        Tuned { descent: self.descent, genes: self.genome@, limits: self.bounds@ }
    }
}

/// A schedule about to be tuned.
pub open spec fn untuned(genes: Genes, limits: Limits) -> Tuned {
    Tuned {
        descent: Descent {
            legs: genes.legs.len() as usize,
            next: Probe::Base,
            best: Scalar { bits: INFINITY_BITS },
            improved: false,
        },
        genes,
        limits,
    }
}

impl Tuned {
    pub open spec fn wf(self) -> bool {
        &&& self.descent.wf()
        &&& self.descent.legs == self.genes.legs.len()
        &&& self.limits.legs.len() == self.genes.legs.len()
        &&& self.limits.valid()
    }

    /// The candidate to be scored, where the entry that the probe moves would
    /// move to `to`: the move is held to its range, and nothing else changes.
    pub open spec fn trial(self, to: Scalar) -> Genes {
        match self.descent.next {
            Probe::Nudge { entry, .. } => if entry == 0 {
                Genes { depart_days: into(to, self.limits.depart), ..self.genes }
            } else {
                Genes {
                    legs: self.genes.legs.update(
                        entry - 1,
                        into(to, self.limits.legs[entry - 1]),
                    ),
                    ..self.genes
                }
            },
            _ => self.genes,
        }
    }

    /// The tuning after the trial scored so.
    pub open spec fn after(self, to: Scalar, score: Scalar) -> Tuned {
        Tuned {
            descent: self.descent.after(score),
            genes: if self.descent.keeps(score) {
                self.trial(to)
            } else {
                self.genes
            },
            ..self
        }
    }
}

impl Tuning {
    /// A schedule about to be tuned.
    pub fn new(genome: Genome, bounds: Bounds) -> (r: Self)
        requires
            bounds@.valid(),
            bounds@.legs.len() == genome@.legs.len(),
        ensures
            r@ == untuned(genome@, bounds@),
            r@.wf(),
    {
        let legs: usize = genome.legs.len();
        Tuning { descent: Descent::new(legs), genome, bounds }
    }

    /// The entry that the next probe moves, as it stands; nothing is moved for
    /// the first score and at the end.
    pub fn entry(&self) -> (r: Option<Scalar>)
        requires
            self@.wf(),
        ensures
            r == (match self.descent.next {
                Probe::Nudge { entry, .. } => Some(
                    if entry == 0 {
                        self@.genes.depart_days
                    } else {
                        self@.genes.legs[entry - 1]
                    },
                ),
                _ => None,
            }),
    {
        match self.descent.next {
            Probe::Nudge { entry, .. } => if entry == 0 {
                Some(self.genome.depart_days)
            } else {
                Some(self.genome.legs[entry - 1])
            },
            _ => None,
        }
    }

    /// The candidate to be scored.
    pub fn trial(&self, to: Scalar) -> (r: Genome)
        requires
            self@.wf(),
        ensures
            r@ == self@.trial(to),
    {
        let mut g: Genome = self.genome.clone();
        if let Probe::Nudge { entry, .. } = self.descent.next {
            if entry == 0 {
                g.depart_days = self.bounds.depart.clamp(to);
            } else {
                assert(self@.limits.legs[entry - 1].valid());
                let days: Scalar = self.bounds.legs[entry - 1].clamp(to);
                g.legs.set(entry - 1, days);
            }
        }
        g
    }

    /// Takes in the score of the trial; whether it becomes the one in hand.
    pub fn advance(&mut self, to: Scalar, score: Scalar) -> (r: bool)
        requires
            old(self)@.wf(),
            old(self)@.descent.next != Probe::Done,
        ensures
            final(self)@ == old(self)@.after(to, score),
            final(self)@.wf(),
            r == old(self)@.descent.keeps(score),
    {
        let g: Genome = self.trial(to);
        let kept: bool = self.descent.advance(score);
        if kept {
            self.genome = g;
        }
        kept
    }
}

/// One probe: where the entry would move to, and what the trial scored.
pub struct Probed {
    pub to: Scalar,
    pub score: Scalar,
}

/// The tuning after a list of probes.
pub open spec fn tuned(t: Tuned, probes: Seq<Probed>) -> Tuned
    decreases probes.len(),
{
    if probes.len() == 0 {
        t
    } else {
        tuned(t, probes.drop_last()).after(probes.last().to, probes.last().score)
    }
}

/// Every trial scored what `score` gives it, moved to a number, and was called
/// for.
pub open spec fn scored_by(
    t: Tuned,
    probes: Seq<Probed>,
    score: spec_fn(Genes) -> Scalar,
) -> bool
    decreases probes.len(),
{
    probes.len() == 0 || {
        let before = tuned(t, probes.drop_last());
        &&& scored_by(t, probes.drop_last(), score)
        &&& before.descent.next != Probe::Done
        &&& !probes.last().to.nan()
        &&& probes.last().score == score(before.trial(probes.last().to))
    }
}

/// Only the departure and the flight times differ.
pub open spec fn same_but_for_schedule(a: Genes, b: Genes) -> bool {
    a.vinf_dep == b.vinf_dep && a.thrust == b.thrust && a.dsm == b.dsm && a.branch == b.branch
        && a.legs.len() == b.legs.len()
}

/// A tuned schedule scores no worse than the one it was tuned from, and
/// strictly better if anything was moved; nothing but the departure and the
/// flight times is moved, and they stay in their ranges.
pub proof fn tuning_improves_within_bounds(
    genes: Genes,
    limits: Limits,
    probes: Seq<Probed>,
    score: spec_fn(Genes) -> Scalar,
)
    requires
        limits.valid(),
        within(genes, limits),
        genes.legs.len() <= usize::MAX,
        probes.len() > 0,
        scored_by(untuned(genes, limits), probes, score),
    ensures
        ({
            let t = tuned(untuned(genes, limits), probes);
            &&& t.wf()
            &&& t.limits == limits
            &&& t.descent.best == score(t.genes)
            &&& t.genes == genes || score(t.genes).lt(score(genes))
            &&& same_but_for_schedule(t.genes, genes)
            &&& within(t.genes, limits)
        }),
    decreases probes.len(),
{
    let u = untuned(genes, limits);
    let head = probes.drop_last();
    let last = probes.last();
    let before = tuned(u, head);
    let t = before.after(last.to, last.score);
    if head.len() > 0 {
        tuning_improves_within_bounds(genes, limits, head, score);
        never_back_to_base(u, head, score);
        let trial = before.trial(last.to);
        if before.descent.next is Nudge && before.descent.next->entry > 0 {
            assert(limits.legs[before.descent.next->entry - 1].valid());
        }
        assert forall|i: int| 0 <= i < trial.legs.len() implies limits.legs[i].holds(
            #[trigger] trial.legs[i],
        ) by {
            assert(limits.legs[i].holds(before.genes.legs[i]));
        }
        assert(within(trial, limits));
    } else {
        assert(before == u);
        assert(t.genes == genes);
    }
}

proof fn never_back_to_base(t: Tuned, probes: Seq<Probed>, score: spec_fn(Genes) -> Scalar)
    requires
        probes.len() > 0,
        scored_by(t, probes, score),
    ensures
        !(tuned(t, probes).descent.next is Base),
    decreases probes.len(),
{
    if probes.len() > 1 {
        never_back_to_base(t, probes.drop_last(), score);
    }
}

/// A probe moves the one entry that it names: entry 0 is the departure, entry `k` the
/// flight time of leg `k - 1`. The move comes to its range; every other gene of the
/// trial is that of the candidate in hand.
pub proof fn probes_move_their_entry(t: Tuned, to: Scalar, i: int)
    requires
        t.wf(),
    ensures
        ({
            let g = t.trial(to);
            &&& same_but_for_schedule(g, t.genes)
            &&& match t.descent.next {
                Probe::Nudge { entry, .. } => {
                    &&& if entry == 0 {
                        comes_to(g.depart_days, to, t.limits.depart)
                    } else {
                        g.depart_days == t.genes.depart_days
                    }
                    &&& 0 <= i < t.genes.legs.len() ==> if entry == i + 1 {
                        comes_to(g.legs[i], to, t.limits.legs[i])
                    } else {
                        g.legs[i] == t.genes.legs[i]
                    }
                },
                _ => g == t.genes,
            }
        }),
{
    if 0 <= i < t.genes.legs.len() {
        assert(t.limits.legs[i].valid());
    }
}

/// A trial is kept exactly where it is the first or scores strictly lower; what is
/// kept becomes the candidate in hand, and nothing else changes it.
pub proof fn kept_trials_take_over(t: Tuned, to: Scalar, score: Scalar)
    requires
        t.wf(),
        t.descent.next != Probe::Done,
    ensures
        ({
            let u = t.after(to, score);
            let kept = t.descent.next is Base || score.lt(t.descent.best);
            &&& u.genes == if kept {
                t.trial(to)
            } else {
                t.genes
            }
            &&& u.descent.best == if kept {
                score
            } else {
                t.descent.best
            }
            &&& u.limits == t.limits
        }),
{
}

/// The steps go from eight days down to three quarters of an hour.
pub proof fn steps_go_down_to_minutes()
    ensures
        FIRST_STEP_DAYS * 24 * 60 == 45 * 256,
        ROUNDS - 1 == 8,
{
}

} // verus!
