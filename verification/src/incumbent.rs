//! The best transfer so far: of one search, and of all searches that share a
//! request.

use crate::beam::improves;
use crate::scalar::{Scalar, INFINITY_BITS};
use vstd::prelude::*;

verus! {

/// What searches from successive seeds have found.
#[derive(Clone, Copy, Debug, PartialEq, Eq, Structural)]
pub struct Incumbent {
    /// Best score of the search in hand.
    pub local: Scalar,
    /// Score of the best transfer of all, once there is one.
    pub overall: Option<Scalar>,
}

/// The seed of the `r`-th search.
pub fn restart_seed(seed: u64, r: usize) -> (s: u64)
    requires
        seed + r <= u64::MAX,
    ensures
        s == seed + r,
{
    seed + r as u64
}

impl Incumbent {
    /// Nothing found yet.
    pub fn new() -> (r: Self)
        ensures
            r.local.bits == INFINITY_BITS,
            r.overall is None,
    {
        Incumbent { local: Scalar::infinity(), overall: None }
    }

    /// Another search begins.
    pub fn begin(&mut self)
        ensures
            final(self).local.bits == INFINITY_BITS,
            final(self).overall == old(self).overall,
    {
        self.local = Scalar::infinity();
    }

    /// Takes in the leading score of a generation; whether its candidate is
    /// worth flying in full.
    pub fn offer(&mut self, score: Scalar) -> (r: bool)
        ensures
            r == score.lt(old(self).local),
            final(self).local == (if r {
                score
            } else {
                old(self).local
            }),
            final(self).overall == old(self).overall,
            r <==> !score.nan() && !old(self).local.nan() && score.place()
                < old(self).local.place(),
    {
        if score.less_than(self.local) {
            self.local = score;
            true
        } else {
            false
        }
    }

    /// Takes in the score of a candidate flown in full; whether it is the best
    /// of all.
    pub fn crown(&mut self, score: Scalar) -> (r: bool)
        ensures
            r == (match old(self).overall {
                Some(best) => score.lt(best),
                None => true,
            }),
            final(self).overall == (if r {
                Some(score)
            } else {
                old(self).overall
            }),
            final(self).local == old(self).local,
            old(self).overall matches Some(best) ==> (r <==> !score.nan() && !best.nan()
                && score.place() < best.place()),
            old(self).overall is None ==> r && final(self).overall == Some(score),
            forall|scores: Seq<Scalar>|
                old(self).overall == #[trigger] crowned(scores) ==> final(self).overall == crowned(
                    scores.push(score),
                ),
    {
        proof {
            assert forall|scores: Seq<Scalar>| #[trigger] crowned(scores.push(score)) == (
            match crowned(scores) {
                Some(best) => if score.lt(best) {
                    Some(score)
                } else {
                    Some(best)
                },
                None => Some(score),
            }) by {
                assert(scores.push(score).drop_last() =~= scores);
            }
        }
        if improves(score, self.overall) {
            self.overall = Some(score);
            true
        } else {
            false
        }
    }
}

// ---------------------------------------------------------------- campaign

/// What the caller is to do next.
#[derive(Clone, Copy, Debug, PartialEq, Eq, Structural)]
pub enum Turn {
    /// Begin the search of this seed.
    Begin { seed: u64 },
    /// Run a generation of the search in hand.
    Generation { seed: u64, step: usize },
    Done,
}

/// So many successive seeds, from the first on, are numbers of 64 bits.
pub open spec fn seeds_fit(seed: u64, restarts: usize) -> bool {
    restarts == 0 || seed + (restarts - 1) <= u64::MAX
}

/// Searches from successive seeds, each of so many generations.
#[derive(Clone, Copy, Debug, PartialEq, Eq, Structural)]
pub struct Campaign {
    pub seed: u64,
    pub steps: usize,
    pub restarts: usize,
    /// Searches begun.
    pub begun: usize,
    /// Generations run of the search in hand.
    pub run: usize,
}

impl Campaign {
    /// What is done next.
    pub open spec fn turn(self) -> Turn {
        if self.begun > 0 && self.run < self.steps {
            Turn::Generation { seed: (self.seed + self.begun - 1) as u64, step: self.run }
        } else if self.begun < self.restarts {
            Turn::Begin { seed: (self.seed + self.begun) as u64 }
        } else {
            Turn::Done
        }
    }

    /// The counts are within bounds and every seed is a number of 64 bits.
    pub open spec fn wf(self) -> bool {
        self.begun <= self.restarts && self.run <= self.steps && seeds_fit(self.seed, self.restarts)
    }

    /// Generations run so far, in all.
    pub open spec fn generations(self) -> int {
        if self.begun == 0 {
            0
        } else {
            (self.begun - 1) * self.steps + self.run
        }
    }

    pub fn new(seed: u64, steps: usize, restarts: usize) -> (r: Self)
        requires
            seeds_fit(seed, restarts),
        ensures
            r == (Campaign { seed, steps, restarts, begun: 0, run: 0 }),
            r.wf(),
    {
        Campaign { seed, steps, restarts, begun: 0, run: 0 }
    }

    /// What is done next; it is counted as done.
    pub fn advance(&mut self) -> (r: Turn)
        requires
            old(self).wf(),
        ensures
            r == old(self).turn(),
            final(self).wf(),
            *final(self) == (match r {
                Turn::Begin { .. } => Campaign {
                    begun: (old(self).begun + 1) as usize,
                    run: 0,
                    ..*old(self)
                },
                Turn::Generation { .. } => Campaign {
                    run: (old(self).run + 1) as usize,
                    ..*old(self)
                },
                Turn::Done => *old(self),
            }),
    {
        if self.begun > 0 && self.run < self.steps {
            let seed: u64 = restart_seed(self.seed, self.begun - 1);
            let step: usize = self.run;
            self.run = self.run + 1;
            Turn::Generation { seed, step }
        } else if self.begun < self.restarts {
            let seed: u64 = restart_seed(self.seed, self.begun);
            self.begun = self.begun + 1;
            self.run = 0;
            Turn::Begin { seed }
        } else {
            Turn::Done
        }
    }
}

/// When a campaign is done, every search has had all its generations.
pub proof fn campaign_runs_every_generation(c: Campaign)
    requires
        c.wf(),
        c.turn() == Turn::Done,
    ensures
        c.begun == c.restarts,
        c.generations() == c.restarts * c.steps,
{
    assert((c.restarts - 1) * c.steps + c.steps == c.restarts * c.steps) by (nonlinear_arith);
    if c.restarts == 0 {
        assert(c.restarts * c.steps == 0) by (nonlinear_arith)
            requires
                c.restarts == 0,
        ;
    }
}

// ---------------------------------------------------------------- laws

/// The transfers crowned one after the other, from the scores offered.
pub open spec fn crowned(scores: Seq<Scalar>) -> Option<Scalar>
    decreases scores.len(),
{
    if scores.len() == 0 {
        None
    } else {
        match crowned(scores.drop_last()) {
            Some(best) => if scores.last().lt(best) {
                Some(scores.last())
            } else {
                Some(best)
            },
            None => Some(scores.last()),
        }
    }
}

/// No transfer offered scores lower than the one that is crowned in the end,
/// which is one of them.
pub proof fn crowned_is_the_lowest(scores: Seq<Scalar>)
    requires
        scores.len() > 0,
        forall|i: int| 0 <= i < scores.len() ==> !(#[trigger] scores[i]).nan(),
    ensures
        crowned(scores) matches Some(best) && scores.contains(best) && forall|i: int|
            0 <= i < scores.len() ==> best.le(#[trigger] scores[i]),
    decreases scores.len(),
{
    let head = scores.drop_last();
    let last = scores.last();
    assert(last == scores[scores.len() - 1]);
    if head.len() > 0 {
        assert forall|i: int| 0 <= i < head.len() implies !(#[trigger] head[i]).nan() by {
            assert(!scores[i].nan());
        }
        crowned_is_the_lowest(head);
        let best = crowned(head)->0;
        let k = choose|k: int| 0 <= k < head.len() && head[k] == best;
        assert(scores[k] == best);
        assert forall|i: int| 0 <= i < scores.len() implies crowned(scores)->0.le(
            #[trigger] scores[i],
        ) by {
            if i < head.len() {
                assert(best.le(head[i]));
            }
        }
    }
}

} // verus!
