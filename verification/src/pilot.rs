//! Whole searches. A pilot stands for all that a search leaves to its caller:
//! what a drawn plan grows into, where an edit would move its genes, and what a
//! candidate scores. This module states what holds of every search that one
//! pilot flies, from its seeds on.

use crate::beam::{champion, is_beam, is_stable_order};
use crate::bounds::{
    applied, edits_stay_within, same_shape, shape_of, sound, stored, suits, within, Limits, Target,
};
use crate::mutation::{drawn_edits_fit, fits, mutation, Edit};
use crate::problem::{Genes, Setup};
use crate::scalar::Scalar;
use crate::search::{
    after_children, after_plans, first_state, follows, gathered, goes_on,
    is_history, opens, requests_are_reproducible, shapes_of, Flown, Population,
};
use crate::seeding::{plan, Plan};
use vstd::prelude::*;

verus! {

/// What a search leaves to its caller.
pub struct Pilot {
    /// The candidate that a plan grows into.
    pub grow: spec_fn(Plan) -> Genes,
    /// Where an edit would move the genes that it touches.
    pub shift: spec_fn(Genes, Edit) -> Target,
    pub score: spec_fn(Genes) -> Scalar,
    /// The idea that a candidate stands for.
    pub key: spec_fn(Genes) -> u64,
}

/// A candidate after some edits, in order.
pub open spec fn bred(p: Pilot, b: Limits, g: Genes, edits: Seq<Edit>) -> Genes
    decreases edits.len(),
{
    if edits.len() == 0 {
        g
    } else {
        let h = bred(p, b, g, edits.drop_last());
        applied(h, edits.last(), (p.shift)(h, edits.last()), b)
    }
}

/// Child `i` of a generation.
pub open spec fn child(s: Setup, p: Pilot, b: Limits, a: Population, i: int) -> Genes {
    let m = s.mutations as nat;
    let shapes = shapes_of(a.genes);
    let tour = s.route.len() > 0;
    let at = after_children(a.stream, shapes, m, tour, i as nat);
    bred(
        p,
        b,
        a.genes[i / m as int],
        mutation(a.stream, at, shapes[i / m as int], tour).edits,
    )
}

/// The fresh candidate of a generation.
pub open spec fn stray(s: Setup, p: Pilot, a: Population) -> Genes {
    let m = s.mutations as nat;
    let shapes = shapes_of(a.genes);
    let last = after_children(a.stream, shapes, m, s.route.len() > 0, shapes.len() * m);
    (p.grow)(plan(a.stream, last, s))
}

/// The candidates that a generation brings, in the order in which they are
/// drawn: every child of every member, then the fresh one.
pub open spec fn brood(s: Setup, p: Pilot, b: Limits, a: Population) -> Seq<Genes> {
    let n = a.genes.len() * s.mutations as nat;
    Seq::new(
        n + 1,
        |i: int|
            if i < n {
                child(s, p, b, a, i)
            } else {
                stray(s, p, a)
            },
    )
}

/// The candidates of a first beam, in the order in which they are drawn.
pub open spec fn seeds(s: Setup, p: Pilot) -> Seq<Genes> {
    let x = first_state(s);
    Seq::new(s.beam_width as nat, |i: int| (p.grow)(plan(x, after_plans(x, s, i as nat), s)))
}

/// Candidates as the pilot flies them.
pub open spec fn flown(p: Pilot, genes: Seq<Genes>) -> Flown {
    Flown {
        genes,
        scores: Seq::new(genes.len(), |i: int| (p.score)(genes[i])),
        keys: Seq::new(genes.len(), |i: int| (p.key)(genes[i])),
    }
}

/// What the pilot reports of a history.
pub open spec fn flights(s: Setup, p: Pilot, b: Limits) -> spec_fn(Seq<Population>) -> Flown {
    |h: Seq<Population>| flown(p, brood(s, p, b, h.last()))
}

/// The populations of a search that the pilot flew, from its seeds on.
pub open spec fn is_search(s: Setup, p: Pilot, b: Limits, h: Seq<Population>) -> bool {
    is_history(s, flights(s, p, b), h) && opens(s, flown(p, seeds(s, p)), h[0])
}

/// One request, flown by one pilot, has one outcome: any two searches agree in
/// every population.
pub proof fn request_decides_the_search(
    s: Setup,
    p: Pilot,
    b: Limits,
    h: Seq<Population>,
    k: Seq<Population>,
)
    requires
        is_search(s, p, b, h),
        is_search(s, p, b, k),
        h.len() == k.len(),
    ensures
        h == k,
{
    requests_are_reproducible(s, flown(p, seeds(s, p)), flights(s, p, b), h, k);
}

/// Every member of a beam is listed with its own score and its own idea.
pub open spec fn honest(p: Pilot, a: Population) -> bool {
    a.wf() && forall|i: int|
        0 <= i < a.genes.len() ==> a.scores[i] == (p.score)(#[trigger] a.genes[i]) && a.keys[i] == (
        p.key)(a.genes[i])
}

proof fn opening_is_honest(s: Setup, p: Pilot, a: Population)
    requires
        opens(s, flown(p, seeds(s, p)), a),
    ensures
        honest(p, a),
        forall|i: int| 0 <= i < a.genes.len() ==> seeds(s, p).contains(#[trigger] a.genes[i]),
{
    let first = flown(p, seeds(s, p));
    let r = choose|r: Seq<usize>| #[trigger]
        is_stable_order(first.scores, r) && a.scores == gathered(first.scores, r)
            && a.keys == gathered(first.keys, r) && a.genes == gathered(first.genes, r);
    assert forall|i: int| 0 <= i < a.genes.len() implies a.scores[i] == (p.score)(
        #[trigger] a.genes[i],
    ) && a.keys[i] == (p.key)(a.genes[i]) && seeds(s, p).contains(a.genes[i]) by {
        let at = r[i] as int;
        assert(0 <= at < first.scores.len());
        assert(a.genes[i] == seeds(s, p)[at]);
    }
}

proof fn next_is_honest(s: Setup, p: Pilot, a: Population, genes: Seq<Genes>, b: Population)
    requires
        honest(p, a),
        follows(s, a, flown(p, genes), b),
    ensures
        honest(p, b),
{
    let f = flown(p, genes);
    let pool = a.scores + f.scores;
    let ideas = a.keys + f.keys;
    let all = a.genes + f.genes;
    let r = choose|r: Seq<usize>| #[trigger]
        is_beam(pool, ideas, s.beam_width as nat, r) && b.scores == gathered(pool, r)
            && b.keys == gathered(ideas, r) && b.genes == gathered(all, r);
    assert forall|i: int| 0 <= i < b.genes.len() implies b.scores[i] == (p.score)(
        #[trigger] b.genes[i],
    ) && b.keys[i] == (p.key)(b.genes[i]) by {
        let at = r[i] as int;
        assert(champion(pool, ideas, at));
        assert(b.genes[i] == all[at] && b.scores[i] == pool[at] && b.keys[i] == ideas[at]);
        if at < a.genes.len() {
            assert(all[at] == a.genes[at]);
        } else {
            assert(all[at] == genes[at - a.genes.len()]);
        }
    }
}

/// In every generation of a search, every member of the beam is listed with the
/// score and the idea that are its own.
pub proof fn scores_are_honest(s: Setup, p: Pilot, b: Limits, h: Seq<Population>, i: int)
    requires
        is_search(s, p, b, h),
        0 <= i < h.len(),
    ensures
        honest(p, h[i]),
    decreases i,
{
    if i == 0 {
        opening_is_honest(s, p, h[0]);
    } else {
        scores_are_honest(s, p, b, h, i - 1);
        step_of(s, p, b, h, i - 1);
        next_is_honest(s, p, h[i - 1], brood(s, p, b, h[i - 1]), h[i]);
    }
}

proof fn step_of(s: Setup, p: Pilot, b: Limits, h: Seq<Population>, i: int)
    requires
        is_search(s, p, b, h),
        0 <= i < h.len() - 1,
    ensures
        follows(s, h[i], flown(p, brood(s, p, b, h[i])), h[i + 1]),
{
    assert(goes_on(s, flights(s, p, b), h, i));
    reveal(goes_on);
    assert(h.take(i + 1).last() == h[i]);
}

// ---------------------------------------------------------------- ranges

/// A candidate with a leg at least, all of whose genes lie in their ranges.
pub open spec fn fit(g: Genes, b: Limits) -> bool {
    stored(g) && within(g, b) && g.legs.len() > 0
}

/// A pilot that grows plans into candidates within their ranges, and answers
/// every edit of such a candidate with what it calls for: nudges with numbers,
/// and what is drawn anew with what lies in its range.
pub open spec fn careful(s: Setup, p: Pilot, b: Limits) -> bool {
    &&& b.valid()
    &&& forall|x: u64, k: nat| fit((p.grow)(#[trigger] plan(x, k, s)), b)
    &&& forall|g: Genes, e: Edit|
        fit(g, b) && fits(e, shape_of(g)) ==> suits(e, #[trigger] (p.shift)(g, e), g) && sound(
            e,
            (p.shift)(g, e),
            b,
        )
}

proof fn breeding_stays_within(s: Setup, p: Pilot, b: Limits, g: Genes, edits: Seq<Edit>)
    requires
        careful(s, p, b),
        fit(g, b),
        forall|i: int| 0 <= i < edits.len() ==> fits(#[trigger] edits[i], shape_of(g)),
    ensures
        fit(bred(p, b, g, edits), b),
        same_shape(bred(p, b, g, edits), g),
    decreases edits.len(),
{
    if edits.len() > 0 {
        let head = edits.drop_last();
        assert forall|i: int| 0 <= i < head.len() implies fits(#[trigger] head[i], shape_of(g)) by {
            assert(head[i] == edits[i]);
        }
        breeding_stays_within(s, p, b, g, head);
        let h = bred(p, b, g, head);
        let e = edits.last();
        assert(e == edits[edits.len() - 1]);
        assert(shape_of(h) == shape_of(g));
        edits_stay_within(h, e, (p.shift)(h, e), b);
    }
}

proof fn child_stays_within(s: Setup, p: Pilot, b: Limits, a: Population, i: int)
    requires
        careful(s, p, b),
        forall|j: int| 0 <= j < a.genes.len() ==> fit(#[trigger] a.genes[j], b),
        0 <= i < a.genes.len() * s.mutations as nat,
    ensures
        fit(child(s, p, b, a, i), b),
{
    let m = s.mutations as int;
    let n = a.genes.len() as int;
    assert(m > 0 && 0 <= i / m < n) by (nonlinear_arith)
        requires
            0 <= i < n * m,
            m >= 0,
            n >= 0,
    ;
    let shapes = shapes_of(a.genes);
    let tour = s.route.len() > 0;
    let at = after_children(a.stream, shapes, m as nat, tour, i as nat);
    let g = a.genes[i / m];
    assert(shapes[i / m] == shape_of(g));
    let edits = mutation(a.stream, at, shape_of(g), tour).edits;
    assert forall|j: int| 0 <= j < edits.len() implies fits(#[trigger] edits[j], shape_of(g)) by {
        drawn_edits_fit(a.stream, at, shape_of(g), tour, j);
    }
    breeding_stays_within(s, p, b, g, edits);
}

proof fn members_stay_fit(s: Setup, a: Population, f: Flown, next: Population, b: Limits)
    requires
        follows(s, a, f, next),
        a.wf(),
        f.wf(),
        forall|j: int| 0 <= j < a.genes.len() ==> fit(#[trigger] a.genes[j], b),
        forall|j: int| 0 <= j < f.genes.len() ==> fit(#[trigger] f.genes[j], b),
    ensures
        forall|j: int| 0 <= j < next.genes.len() ==> fit(#[trigger] next.genes[j], b),
{
    let pool = a.scores + f.scores;
    let ideas = a.keys + f.keys;
    let all = a.genes + f.genes;
    let r = choose|r: Seq<usize>| #[trigger]
        is_beam(pool, ideas, s.beam_width as nat, r) && next.scores == gathered(
            pool,
            r,
        ) && next.keys == gathered(ideas, r) && next.genes == gathered(all, r);
    assert forall|j: int| 0 <= j < next.genes.len() implies fit(#[trigger] next.genes[j], b) by {
        let at = r[j] as int;
        assert(champion(pool, ideas, at));
        assert(next.genes[j] == all[at]);
        if at < a.genes.len() {
            assert(fit(a.genes[at], b));
        } else {
            assert(fit(f.genes[at - a.genes.len()], b));
        }
    }
}

/// A search flown by a careful pilot never leaves the ranges of its request: in
/// every generation, every gene of every member of the beam lies in its range.
pub proof fn searches_stay_within(s: Setup, p: Pilot, b: Limits, h: Seq<Population>, i: int)
    requires
        is_search(s, p, b, h),
        careful(s, p, b),
        0 <= i < h.len(),
    ensures
        forall|j: int| 0 <= j < h[i].genes.len() ==> fit(#[trigger] h[i].genes[j], b),
    decreases i,
{
    if i == 0 {
        opening_is_honest(s, p, h[0]);
        let x = first_state(s);
        assert forall|j: int| 0 <= j < h[0].genes.len() implies fit(#[trigger] h[0].genes[j], b) by {
            let t = choose|t: int| 0 <= t < seeds(s, p).len() && seeds(s, p)[t] == h[0].genes[j];
            assert(fit((p.grow)(plan(x, after_plans(x, s, t as nat), s)), b));
        }
    } else {
        let a = h[i - 1];
        searches_stay_within(s, p, b, h, i - 1);
        scores_are_honest(s, p, b, h, i - 1);
        step_of(s, p, b, h, i - 1);
        let born = brood(s, p, b, a);
        assert forall|j: int| 0 <= j < born.len() implies fit(#[trigger] born[j], b) by {
            if j < a.genes.len() * s.mutations as nat {
                child_stays_within(s, p, b, a, j);
            }
        }
        members_stay_fit(s, a, flown(p, born), h[i], b);
    }
}

} // verus!
