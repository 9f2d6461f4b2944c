//! Edits to a candidate: which genes a mutation touches, drawn from the
//! seeded stream.

use crate::rng::{index_below, register, unit_of, word, Rng};
use vstd::prelude::*;

verus! {

/// How many of each gene a candidate carries.
#[derive(Clone, Copy, Debug, PartialEq, Eq, Structural)]
pub struct GenomeShape {
    pub legs: usize,
    pub thrust: usize,
    pub dsm: usize,
    pub branch: usize,
}

/// One edit. A `unit` is the numerator of a fraction of 2^53, spread over the
/// range of the edit.
#[derive(Clone, Copy, Debug, PartialEq, Eq, Structural)]
pub enum Edit {
    /// Nudge one component of one throttle segment.
    ThrustNudge { seg: usize, axis: usize, unit: u64 },
    /// Scale the whole thrust profile.
    ThrustScale { unit: u64 },
    /// A full along-track burn in one segment, either way.
    ThrustBurn { seg: usize, forward: bool, unit: u64 },
    /// Shift the departure.
    Depart { unit: u64 },
    /// Shift one leg's flight time by weeks.
    LegCoarse { leg: usize, unit: u64 },
    /// Nudge one component of the departure velocity.
    VinfAxis { axis: usize, unit: u64 },
    /// Nudge all components of the departure velocity a little.
    VinfAll { x: u64, y: u64, z: u64 },
    /// Fly another Lambert arc on one leg.
    Branch { leg: usize, branch: u32 },
    /// Switch one leg's burn off.
    DsmZero { leg: usize },
    /// Slide one leg's burn along the leg.
    DsmSlide { leg: usize, unit: u64 },
    /// Nudge one component of one leg's burn.
    DsmKick { leg: usize, axis: usize, unit: u64 },
    /// Shift one leg's flight time by days.
    LegFine { leg: usize, unit: u64 },
    /// Draw one leg's flight time anew.
    LegResample { leg: usize, unit: u64 },
    /// Aim the departure velocity at the target again.
    Reaim,
}

/// An edit touches only genes that a candidate of this shape has.
pub open spec fn fits(e: Edit, s: GenomeShape) -> bool {
    match e {
        Edit::ThrustNudge { seg, axis, .. } => seg < s.thrust && axis < 3,
        Edit::ThrustBurn { seg, .. } => seg < s.thrust,
        Edit::LegCoarse { leg, .. } => leg < s.legs,
        Edit::VinfAxis { axis, .. } => axis < 3,
        Edit::Branch { leg, branch } => leg < s.branch && branch < 4,
        Edit::DsmZero { leg } => leg < s.dsm,
        Edit::DsmSlide { leg, .. } => leg < s.dsm,
        Edit::DsmKick { leg, axis, .. } => leg < s.dsm && 1 <= axis <= 3,
        Edit::LegFine { leg, .. } => leg < s.legs,
        Edit::LegResample { leg, .. } => leg < s.legs,
        _ => true,
    }
}

/// An edit and the word of the stream that follows it.
pub struct Drawn {
    pub edit: Edit,
    pub next: nat,
}

/// The throttle edit drawn at word `k`.
pub open spec fn thrust_edit(x: u64, k: nat, s: GenomeShape) -> Drawn {
    let seg = index_below(x, k, s.thrust as int) as usize;
    let kind = index_below(x, k + 1, 3);
    if kind == 0 {
        Drawn {
            edit: Edit::ThrustNudge {
                seg,
                axis: index_below(x, k + 2, 3) as usize,
                unit: unit_of(x, k + 3),
            },
            next: k + 4,
        }
    } else if kind == 1 {
        Drawn { edit: Edit::ThrustScale { unit: unit_of(x, k + 2) }, next: k + 3 }
    } else {
        Drawn {
            edit: Edit::ThrustBurn {
                seg,
                forward: index_below(x, k + 2, 2) == 0,
                unit: unit_of(x, k + 3),
            },
            next: k + 4,
        }
    }
}

/// The choice of arc drawn at word `k` for one leg of a tour.
pub open spec fn arc_edit(x: u64, k: nat, s: GenomeShape) -> Drawn {
    let leg = index_below(x, k, s.branch as int) as usize;
    if index_below(x, k + 1, 3) == 0 {
        Drawn { edit: Edit::Branch { leg, branch: 0 }, next: k + 2 }
    } else {
        Drawn {
            edit: Edit::Branch { leg, branch: index_below(x, k + 2, 4) as u32 },
            next: k + 3,
        }
    }
}

/// The burn edit drawn at word `k` for one leg of a tour.
pub open spec fn burn_edit(x: u64, k: nat, s: GenomeShape) -> Drawn {
    let leg = index_below(x, k, s.dsm as int) as usize;
    if index_below(x, k + 1, 5) == 0 {
        Drawn { edit: Edit::DsmZero { leg }, next: k + 2 }
    } else if index_below(x, k + 2, 4) == 0 {
        Drawn { edit: Edit::DsmSlide { leg, unit: unit_of(x, k + 3) }, next: k + 4 }
    } else {
        Drawn {
            edit: Edit::DsmKick {
                leg,
                axis: (1 + index_below(x, k + 3, 3)) as usize,
                unit: unit_of(x, k + 4),
            },
            next: k + 5,
        }
    }
}

/// The edit drawn at word `k` where a direct transfer would touch its
/// departure velocity and a tour touches arcs, burns or timing.
pub open spec fn tour_edit(x: u64, k: nat, s: GenomeShape) -> Drawn {
    if s.branch > 0 && index_below(x, k, 6) == 0 {
        arc_edit(x, k + 1, s)
    } else {
        let j = if s.branch > 0 {
            k + 1
        } else {
            k
        };
        if s.dsm > 0 && index_below(x, j, 2) == 0 {
            burn_edit(x, j + 1, s)
        } else {
            let i = if s.dsm > 0 {
                j + 1
            } else {
                j
            };
            Drawn {
                edit: Edit::LegFine {
                    leg: index_below(x, i, s.legs as int) as usize,
                    unit: unit_of(x, i + 1),
                },
                next: i + 2,
            }
        }
    }
}

/// The course edit drawn at word `k`.
pub open spec fn course_edit(x: u64, k: nat, s: GenomeShape, tour: bool) -> Drawn {
    let kind = index_below(x, k, 5);
    let leg = index_below(x, k + 1, s.legs as int) as usize;
    if kind == 0 {
        Drawn { edit: Edit::Depart { unit: unit_of(x, k + 1) }, next: k + 2 }
    } else if kind == 1 {
        Drawn { edit: Edit::LegCoarse { leg, unit: unit_of(x, k + 2) }, next: k + 3 }
    } else if kind == 2 && !tour {
        Drawn {
            edit: Edit::VinfAxis {
                axis: index_below(x, k + 1, 3) as usize,
                unit: unit_of(x, k + 2),
            },
            next: k + 3,
        }
    } else if kind == 3 && !tour {
        Drawn {
            edit: Edit::VinfAll {
                x: unit_of(x, k + 1),
                y: unit_of(x, k + 2),
                z: unit_of(x, k + 3),
            },
            next: k + 4,
        }
    } else if kind == 2 || kind == 3 {
        tour_edit(x, k + 1, s)
    } else if tour {
        Drawn { edit: Edit::LegResample { leg, unit: unit_of(x, k + 2) }, next: k + 3 }
    } else {
        Drawn { edit: Edit::Reaim, next: k + 1 }
    }
}

/// Which kind of edit a mutation makes throughout.
pub open spec fn one_edit(x: u64, k: nat, s: GenomeShape, tour: bool, throttle: bool) -> Drawn {
    if throttle {
        thrust_edit(x, k, s)
    } else {
        course_edit(x, k, s, tour)
    }
}

/// The word that follows `n` edits drawn from word `k` on.
pub open spec fn after_edits(
    x: u64,
    k: nat,
    s: GenomeShape,
    tour: bool,
    throttle: bool,
    n: nat,
) -> nat
    decreases n,
{
    if n == 0 {
        k
    } else {
        one_edit(x, after_edits(x, k, s, tour, throttle, (n - 1) as nat), s, tour, throttle).next
    }
}

/// A mutation's edits in order, and the word of the stream that follows them.
pub struct Mutation {
    pub edits: Seq<Edit>,
    pub next: nat,
}

/// The mutation drawn at word `k`: half of those of a candidate with thrust
/// make one or two throttle edits; all others make one to three course edits.
pub open spec fn mutation(x: u64, k: nat, s: GenomeShape, tour: bool) -> Mutation {
    let throttle = s.thrust > 0 && index_below(x, k, 2) == 0;
    let c = if s.thrust > 0 {
        k + 1
    } else {
        k
    };
    let n = if throttle {
        1 + index_below(x, c, 2)
    } else {
        1 + index_below(x, c, 3)
    };
    Mutation {
        edits: Seq::new(
            n as nat,
            |i: int|
                one_edit(
                    x,
                    after_edits(x, c + 1, s, tour, throttle, i as nat),
                    s,
                    tour,
                    throttle,
                ).edit,
        ),
        next: after_edits(x, c + 1, s, tour, throttle, n as nat),
    }
}

fn thrust_edit_at(
    rng: &mut Rng,
    s: &GenomeShape,
    Ghost(x): Ghost<u64>,
    Ghost(k): Ghost<nat>,
) -> (r: Edit)
    requires
        s.thrust > 0,
        old(rng).state() == register(x, k),
    ensures
        r == thrust_edit(x, k, *s).edit,
        final(rng).state() == register(x, thrust_edit(x, k, *s).next),
        fits(r, *s),
{
    let seg: usize = rng.below_at(s.thrust, Ghost(x), Ghost(k));
    let kind: usize = rng.below_at(3, Ghost(x), Ghost(k + 1));
    if kind == 0 {
        let axis: usize = rng.below_at(3, Ghost(x), Ghost(k + 2));
        let unit: u64 = rng.unit_at(Ghost(x), Ghost(k + 3));
        Edit::ThrustNudge { seg, axis, unit }
    } else if kind == 1 {
        let unit: u64 = rng.unit_at(Ghost(x), Ghost(k + 2));
        Edit::ThrustScale { unit }
    } else {
        let coin: usize = rng.below_at(2, Ghost(x), Ghost(k + 2));
        let unit: u64 = rng.unit_at(Ghost(x), Ghost(k + 3));
        Edit::ThrustBurn { seg, forward: coin == 0, unit }
    }
}

fn arc_edit_at(
    rng: &mut Rng,
    s: &GenomeShape,
    Ghost(x): Ghost<u64>,
    Ghost(k): Ghost<nat>,
) -> (r: Edit)
    requires
        s.branch > 0,
        old(rng).state() == register(x, k),
    ensures
        r == arc_edit(x, k, *s).edit,
        final(rng).state() == register(x, arc_edit(x, k, *s).next),
        fits(r, *s),
{
    let leg: usize = rng.below_at(s.branch, Ghost(x), Ghost(k));
    let coin: usize = rng.below_at(3, Ghost(x), Ghost(k + 1));
    if coin == 0 {
        Edit::Branch { leg, branch: 0 }
    } else {
        let branch: usize = rng.below_at(4, Ghost(x), Ghost(k + 2));
        Edit::Branch { leg, branch: branch as u32 }
    }
}

fn burn_edit_at(
    rng: &mut Rng,
    s: &GenomeShape,
    Ghost(x): Ghost<u64>,
    Ghost(k): Ghost<nat>,
) -> (r: Edit)
    requires
        s.dsm > 0,
        old(rng).state() == register(x, k),
    ensures
        r == burn_edit(x, k, *s).edit,
        final(rng).state() == register(x, burn_edit(x, k, *s).next),
        fits(r, *s),
{
    let leg: usize = rng.below_at(s.dsm, Ghost(x), Ghost(k));
    let off: usize = rng.below_at(5, Ghost(x), Ghost(k + 1));
    if off == 0 {
        Edit::DsmZero { leg }
    } else {
        let slide: usize = rng.below_at(4, Ghost(x), Ghost(k + 2));
        if slide == 0 {
            let unit: u64 = rng.unit_at(Ghost(x), Ghost(k + 3));
            Edit::DsmSlide { leg, unit }
        } else {
            let axis: usize = rng.below_at(3, Ghost(x), Ghost(k + 3));
            let unit: u64 = rng.unit_at(Ghost(x), Ghost(k + 4));
            Edit::DsmKick { leg, axis: 1 + axis, unit }
        }
    }
}

fn tour_edit_at(
    rng: &mut Rng,
    s: &GenomeShape,
    Ghost(x): Ghost<u64>,
    Ghost(k): Ghost<nat>,
) -> (r: Edit)
    requires
        s.legs > 0,
        old(rng).state() == register(x, k),
    ensures
        r == tour_edit(x, k, *s).edit,
        final(rng).state() == register(x, tour_edit(x, k, *s).next),
        fits(r, *s),
{
    let ghost mut j: nat = k;
    if s.branch > 0 {
        let coin: usize = rng.below_at(6, Ghost(x), Ghost(k));
        if coin == 0 {
            return arc_edit_at(rng, s, Ghost(x), Ghost(k + 1));
        }
        proof {
            j = k + 1;
        }
    }
    let ghost mut i: nat = j;
    if s.dsm > 0 {
        let coin: usize = rng.below_at(2, Ghost(x), Ghost(j));
        if coin == 0 {
            return burn_edit_at(rng, s, Ghost(x), Ghost(j + 1));
        }
        proof {
            i = j + 1;
        }
    }
    let leg: usize = rng.below_at(s.legs, Ghost(x), Ghost(i));
    let unit: u64 = rng.unit_at(Ghost(x), Ghost(i + 1));
    Edit::LegFine { leg, unit }
}

fn course_edit_at(
    rng: &mut Rng,
    s: &GenomeShape,
    tour: bool,
    Ghost(x): Ghost<u64>,
    Ghost(k): Ghost<nat>,
) -> (r: Edit)
    requires
        s.legs > 0,
        old(rng).state() == register(x, k),
    ensures
        r == course_edit(x, k, *s, tour).edit,
        final(rng).state() == register(x, course_edit(x, k, *s, tour).next),
        fits(r, *s),
{
    let kind: usize = rng.below_at(5, Ghost(x), Ghost(k));
    if kind == 0 {
        let unit: u64 = rng.unit_at(Ghost(x), Ghost(k + 1));
        Edit::Depart { unit }
    } else if kind == 1 {
        let leg: usize = rng.below_at(s.legs, Ghost(x), Ghost(k + 1));
        let unit: u64 = rng.unit_at(Ghost(x), Ghost(k + 2));
        Edit::LegCoarse { leg, unit }
    } else if kind == 2 && !tour {
        let axis: usize = rng.below_at(3, Ghost(x), Ghost(k + 1));
        let unit: u64 = rng.unit_at(Ghost(x), Ghost(k + 2));
        Edit::VinfAxis { axis, unit }
    } else if kind == 3 && !tour {
        let a: u64 = rng.unit_at(Ghost(x), Ghost(k + 1));
        let b: u64 = rng.unit_at(Ghost(x), Ghost(k + 2));
        let c: u64 = rng.unit_at(Ghost(x), Ghost(k + 3));
        Edit::VinfAll { x: a, y: b, z: c }
    } else if kind == 2 || kind == 3 {
        tour_edit_at(rng, s, Ghost(x), Ghost(k + 1))
    } else if tour {
        let leg: usize = rng.below_at(s.legs, Ghost(x), Ghost(k + 1));
        let unit: u64 = rng.unit_at(Ghost(x), Ghost(k + 2));
        Edit::LegResample { leg, unit }
    } else {
        Edit::Reaim
    }
}

pub(crate) fn mutate_at(
    rng: &mut Rng,
    s: &GenomeShape,
    tour: bool,
    Ghost(x): Ghost<u64>,
    Ghost(k): Ghost<nat>,
) -> (r: Vec<Edit>)
    requires
        s.legs > 0,
        old(rng).state() == register(x, k),
    ensures
        r@ == mutation(x, k, *s, tour).edits,
        final(rng).state() == register(x, mutation(x, k, *s, tour).next),
        forall|i: int| 0 <= i < r.len() ==> fits(#[trigger] r@[i], *s),
{
    let mut throttle: bool = false;
    let ghost mut c: nat = k;
    if s.thrust > 0 {
        let coin: usize = rng.below_at(2, Ghost(x), Ghost(k));
        throttle = coin == 0;
        proof {
            c = k + 1;
        }
    }
    let extra: usize = if throttle {
        rng.below_at(2, Ghost(x), Ghost(c))
    } else {
        rng.below_at(3, Ghost(x), Ghost(c))
    };
    let n: usize = 1 + extra;
    let mut edits: Vec<Edit> = Vec::new();
    let mut i: usize = 0;
    while i < n
        invariant
            i <= n,
            s.legs > 0,
            throttle ==> s.thrust > 0,
            edits.len() == i,
            rng.state() == register(x, after_edits(x, c + 1, *s, tour, throttle, i as nat)),
            forall|j: int|
                0 <= j < i ==> #[trigger] edits@[j] == one_edit(
                    x,
                    after_edits(x, c + 1, *s, tour, throttle, j as nat),
                    *s,
                    tour,
                    throttle,
                ).edit,
            forall|j: int| 0 <= j < i ==> fits(#[trigger] edits@[j], *s),
        decreases n - i,
    {
        let ghost at: nat = after_edits(x, c + 1, *s, tour, throttle, i as nat);
        let e: Edit = if throttle {
            thrust_edit_at(rng, s, Ghost(x), Ghost(at))
        } else {
            course_edit_at(rng, s, tour, Ghost(x), Ghost(at))
        };
        edits.push(e);
        i = i + 1;
    }
    assert(edits@ =~= mutation(x, k, *s, tour).edits);
    edits
}

/// Draws the edits of one mutation of a candidate: at least one and at most
/// three, each touching a gene that the candidate has.
pub fn mutate(rng: &mut Rng, s: &GenomeShape, tour: bool) -> (r: Vec<Edit>)
    requires
        s.legs > 0,
    ensures
        r@ == mutation(old(rng).state(), 0, *s, tour).edits,
        final(rng).state() == register(
            old(rng).state(),
            mutation(old(rng).state(), 0, *s, tour).next,
        ),
        forall|i: int| 0 <= i < r.len() ==> fits(#[trigger] r@[i], *s),
        1 <= r.len() <= 3,
{
    let ghost x = rng.state();
    mutate_at(rng, s, tour, Ghost(x), Ghost(0))
}

proof fn index_is_below(x: u64, k: nat, n: int)
    requires
        n > 0,
    ensures
        0 <= index_below(x, k, n) < n,
{
    vstd::arithmetic::div_mod::lemma_mod_bound(word(x, k) as int, n);
}

proof fn thrust_edit_fits(x: u64, k: nat, s: GenomeShape)
    requires
        s.thrust > 0,
    ensures
        fits(thrust_edit(x, k, s).edit, s),
        !redirects(thrust_edit(x, k, s).edit),
{
    index_is_below(x, k, s.thrust as int);
    index_is_below(x, k + 2, 3);
}

proof fn tour_edit_fits(x: u64, k: nat, s: GenomeShape)
    requires
        s.legs > 0,
    ensures
        fits(tour_edit(x, k, s).edit, s),
        !redirects(tour_edit(x, k, s).edit),
{
    let j = if s.branch > 0 {
        k + 1
    } else {
        k
    };
    let i = if s.dsm > 0 {
        j + 1
    } else {
        j
    };
    if s.branch > 0 {
        index_is_below(x, k + 1, s.branch as int);
        index_is_below(x, k + 3, 4);
    }
    if s.dsm > 0 {
        index_is_below(x, j + 1, s.dsm as int);
        index_is_below(x, j + 4, 3);
    }
    index_is_below(x, i, s.legs as int);
}

proof fn course_edit_fits(x: u64, k: nat, s: GenomeShape, tour: bool)
    requires
        s.legs > 0,
    ensures
        fits(course_edit(x, k, s, tour).edit, s),
        tour ==> !redirects(course_edit(x, k, s, tour).edit),
{
    index_is_below(x, k + 1, s.legs as int);
    index_is_below(x, k + 1, 3);
    tour_edit_fits(x, k + 1, s);
}

/// The edit touches the departure velocity.
pub open spec fn redirects(e: Edit) -> bool {
    e is VinfAxis || e is VinfAll || e is Reaim
}

/// Every edit of a mutation touches only genes that the candidate has, and none
/// touches the departure velocity of a tour.
pub proof fn drawn_edits_fit(x: u64, k: nat, s: GenomeShape, tour: bool, i: int)
    requires
        s.legs > 0,
        0 <= i < mutation(x, k, s, tour).edits.len(),
    ensures
        fits(mutation(x, k, s, tour).edits[i], s),
        tour ==> !redirects(mutation(x, k, s, tour).edits[i]),
{
    let throttle = s.thrust > 0 && index_below(x, k, 2) == 0;
    let c = if s.thrust > 0 {
        k + 1
    } else {
        k
    };
    let at = after_edits(x, c + 1, s, tour, throttle, i as nat);
    assert(mutation(x, k, s, tour).edits[i] == one_edit(x, at, s, tour, throttle).edit);
    if throttle {
        thrust_edit_fits(x, at, s);
    } else {
        course_edit_fits(x, at, s, tour);
    }
}

// ---------------------------------------------------------------- words

/// The index below `n` that a word of the stream stands for.
pub open spec fn picks(w: u64, n: int) -> int {
    w as int % n
}

/// How the words from `a` up to `b` give a throttle edit: the first picks the
/// segment, the second the kind, and the last is the numerator.
pub open spec fn throttle_words(e: Edit, s: GenomeShape, x: u64, a: nat, b: nat) -> bool {
    let seg = picks(word(x, a), s.thrust as int);
    let kind = picks(word(x, a + 1), 3);
    match e {
        Edit::ThrustNudge { seg: on, axis, unit } => b == a + 4 && kind == 0 && on == seg && axis
            == picks(word(x, a + 2), 3) && unit == word(x, a + 3) >> 11u64,
        Edit::ThrustScale { unit } => b == a + 3 && kind == 1 && unit == word(x, a + 2) >> 11u64,
        Edit::ThrustBurn { seg: on, forward, unit } => b == a + 4 && kind == 2 && on == seg && (
        forward <==> picks(word(x, a + 2), 2) == 0) && unit == word(x, a + 3) >> 11u64,
        _ => false,
    }
}

/// How the words from `a` up to `b` give a burn edit: the first picks the leg,
/// one in five switches its burn off, one in four of the rest slides it.
pub open spec fn burn_words(e: Edit, s: GenomeShape, x: u64, a: nat, b: nat) -> bool {
    let on = picks(word(x, a), s.dsm as int);
    let off = picks(word(x, a + 1), 5) == 0;
    let slides = picks(word(x, a + 2), 4) == 0;
    match e {
        Edit::DsmZero { leg } => b == a + 2 && leg == on && off,
        Edit::DsmSlide { leg, unit } => b == a + 4 && leg == on && !off && slides && unit == word(
            x,
            a + 3,
        ) >> 11u64,
        Edit::DsmKick { leg, axis, unit } => b == a + 5 && leg == on && !off && !slides && axis
            == 1 + picks(word(x, a + 3), 3) && unit == word(x, a + 4) >> 11u64,
        _ => false,
    }
}

/// How the words from `a` up to `b` give a course edit: the first picks one of
/// five kinds. A flight-time edit takes the leg from the word right before the
/// one that it takes its numerator from.
pub open spec fn course_words(e: Edit, s: GenomeShape, tour: bool, x: u64, a: nat, b: nat) -> bool {
    let kind = picks(word(x, a), 5);
    let on_leg = picks(word(x, (b - 2) as nat), s.legs as int);
    let last = word(x, (b - 1) as nat) >> 11u64;
    let arcs = if s.branch > 0 {
        1nat
    } else {
        0nat
    };
    let burns = if s.dsm > 0 {
        1nat
    } else {
        0nat
    };
    let no_arc = s.branch > 0 ==> picks(word(x, a + 1), 6) != 0;
    match e {
        Edit::Depart { unit } => b == a + 2 && kind == 0 && unit == last,
        Edit::LegCoarse { leg, unit } => b == a + 3 && kind == 1 && leg == on_leg && unit == last,
        Edit::LegResample { leg, unit } => b == a + 3 && kind == 4 && tour && leg == on_leg && unit
            == last,
        Edit::Reaim => b == a + 1 && kind == 4 && !tour,
        Edit::VinfAxis { axis, unit } => b == a + 3 && kind == 2 && !tour && axis == picks(
            word(x, a + 1),
            3,
        ) && unit == last,
        Edit::VinfAll { x: u, y: v, z: w } => b == a + 4 && kind == 3 && !tour && u == word(
            x,
            a + 1,
        ) >> 11u64 && v == word(x, a + 2) >> 11u64 && w == last,
        Edit::Branch { leg, branch } => {
            let first = picks(word(x, a + 3), 3) == 0;
            &&& tour && (kind == 2 || kind == 3) && s.branch > 0 && !no_arc
            &&& leg == picks(word(x, a + 2), s.branch as int)
            &&& first ==> b == a + 4 && branch == 0
            &&& !first ==> b == a + 5 && branch == picks(word(x, a + 4), 4)
        },
        Edit::LegFine { leg, unit } => {
            &&& tour && (kind == 2 || kind == 3) && no_arc && b == a + 3 + arcs + burns
            &&& s.dsm > 0 ==> picks(word(x, a + 1 + arcs), 2) != 0
            &&& leg == on_leg && unit == last
        },
        _ => {
            &&& tour && (kind == 2 || kind == 3) && no_arc && s.dsm > 0
            &&& picks(word(x, a + 1 + arcs), 2) == 0
            &&& burn_words(e, s, x, a + 2 + arcs, b)
        },
    }
}

/// How the words from `a` up to `b` give an edit.
#[verifier::opaque]
pub open spec fn edit_words(
    e: Edit,
    s: GenomeShape,
    tour: bool,
    throttle: bool,
    x: u64,
    a: nat,
    b: nat,
) -> bool {
    if throttle {
        throttle_words(e, s, x, a, b)
    } else {
        course_words(e, s, tour, x, a, b)
    }
}

/// Places in the stream between which the edits of a mutation are drawn, one
/// after the other and without a word between them.
pub open spec fn cuts(
    edits: Seq<Edit>,
    s: GenomeShape,
    tour: bool,
    throttle: bool,
    x: u64,
    p: Seq<nat>,
) -> bool {
    p.len() == edits.len() + 1 && forall|i: int|
        0 <= i < edits.len() ==> edit_words(
            #[trigger] edits[i],
            s,
            tour,
            throttle,
            x,
            p[i],
            p[i + 1],
        )
}

/// The edits are drawn one after the other from the words from `from` up to
/// `next`.
pub open spec fn drawn_between(
    edits: Seq<Edit>,
    s: GenomeShape,
    tour: bool,
    throttle: bool,
    x: u64,
    from: nat,
    next: nat,
) -> bool {
    exists|p: Seq<nat>| #[trigger]
        cuts(edits, s, tour, throttle, x, p) && p[0] == from && p.last() == next
}

#[verifier::rlimit(40)]
proof fn throttle_edit_words(x: u64, k: nat, s: GenomeShape)
    requires
        s.thrust > 0,
    ensures
        throttle_words(thrust_edit(x, k, s).edit, s, x, k, thrust_edit(x, k, s).next),
{
    index_is_below(x, k, s.thrust as int);
    index_is_below(x, k + 1, 3);
    index_is_below(x, k + 2, 3);
}

#[verifier::rlimit(40)]
proof fn tour_edit_words(x: u64, a: nat, s: GenomeShape)
    requires
        s.legs > 0,
        picks(word(x, a), 5) == 2 || picks(word(x, a), 5) == 3,
    ensures
        course_words(
            tour_edit(x, a + 1, s).edit,
            s,
            true,
            x,
            a,
            tour_edit(x, a + 1, s).next,
        ),
{
    let k = a + 1;
    let j = if s.branch > 0 {
        k + 1
    } else {
        k
    };
    let i = if s.dsm > 0 {
        j + 1
    } else {
        j
    };
    if s.branch > 0 {
        index_is_below(x, k + 1, s.branch as int);
        index_is_below(x, k + 3, 4);
    }
    if s.dsm > 0 {
        index_is_below(x, j + 1, s.dsm as int);
        index_is_below(x, j + 4, 3);
    }
    index_is_below(x, i, s.legs as int);
}

#[verifier::rlimit(40)]
proof fn course_edit_words(x: u64, k: nat, s: GenomeShape, tour: bool)
    requires
        s.legs > 0,
    ensures
        course_words(
            course_edit(x, k, s, tour).edit,
            s,
            tour,
            x,
            k,
            course_edit(x, k, s, tour).next,
        ),
{
    index_is_below(x, k, 5);
    index_is_below(x, k + 1, s.legs as int);
    index_is_below(x, k + 1, 3);
    let kind = index_below(x, k, 5);
    if tour && (kind == 2 || kind == 3) {
        tour_edit_words(x, k, s);
    }
}

#[verifier::rlimit(40)]
proof fn one_edit_words(x: u64, k: nat, s: GenomeShape, tour: bool, throttle: bool)
    requires
        s.legs > 0,
        throttle ==> s.thrust > 0,
    ensures
        ({
            let d = one_edit(x, k, s, tour, throttle);
            edit_words(d.edit, s, tour, throttle, x, k, d.next)
        }),
{
    reveal(edit_words);
    if throttle {
        throttle_edit_words(x, k, s);
    } else {
        course_edit_words(x, k, s, tour);
    }
}

/// The words of the stream decide a mutation, edit by edit. A candidate with
/// thrust has a coin thrown for its throttle; the next word picks how many
/// edits follow. Then every edit takes the words that come next: one picks its
/// kind, one the leg or the segment that it falls on, among all that there are,
/// and the last one how far it goes.
#[verifier::rlimit(40)]
pub proof fn words_decide_the_edits(x: u64, k: nat, s: GenomeShape, tour: bool)
    requires
        s.legs > 0,
    ensures
        ({
            let m = mutation(x, k, s, tour);
            let throttle = s.thrust > 0 && picks(word(x, k), 2) == 0;
            let c = if s.thrust > 0 {
                k + 1
            } else {
                k
            };
            &&& m.edits.len() == 1 + picks(
                word(x, c),
                if throttle {
                    2
                } else {
                    3
                },
            )
            &&& drawn_between(m.edits, s, tour, throttle, x, c + 1, m.next)
        }),
{
    let m = mutation(x, k, s, tour);
    let throttle = s.thrust > 0 && index_below(x, k, 2) == 0;
    let c = if s.thrust > 0 {
        k + 1
    } else {
        k
    };
    index_is_below(x, c, 2);
    index_is_below(x, c, 3);
    let n = m.edits.len();
    let p = Seq::new(n + 1, |i: int| after_edits(x, c + 1, s, tour, throttle, i as nat));
    assert forall|i: int| 0 <= i < n implies edit_words(
        #[trigger] m.edits[i],
        s,
        tour,
        throttle,
        x,
        p[i],
        p[i + 1],
    ) by {
        let at = after_edits(x, c + 1, s, tour, throttle, i as nat);
        assert(p[i] == at);
        assert(p[i + 1] == one_edit(x, at, s, tour, throttle).next);
        assert(m.edits[i] == one_edit(x, at, s, tour, throttle).edit);
        one_edit_words(x, at, s, tour, throttle);
    }
    assert(cuts(m.edits, s, tour, throttle, x, p));
}

/// A flight-time edit falls on the leg that the word right before its numerator
/// picks among all the legs, so every leg can be reached by every kind of it.
pub proof fn drawn_leg_is_edited(x: u64, k: nat, s: GenomeShape, tour: bool, i: int)
    requires
        s.legs > 0,
        0 <= i < mutation(x, k, s, tour).edits.len(),
    ensures
        match mutation(x, k, s, tour).edits[i] {
            Edit::LegCoarse { leg, unit } => exists|w: nat|
                leg == (#[trigger] word(x, w)) as int % s.legs as int && unit == word(x, w + 1)
                    >> 11u64 && word(x, (w - 1) as nat) as int % 5 == 1,
            Edit::LegFine { leg, unit } => exists|w: nat|
                leg == (#[trigger] word(x, w)) as int % s.legs as int && unit == word(x, w + 1)
                    >> 11u64,
            Edit::LegResample { leg, unit } => exists|w: nat|
                leg == (#[trigger] word(x, w)) as int % s.legs as int && unit == word(x, w + 1)
                    >> 11u64 && word(x, (w - 1) as nat) as int % 5 == 4,
            _ => true,
        },
{
    words_decide_the_edits(x, k, s, tour);
    let m = mutation(x, k, s, tour);
    let throttle = s.thrust > 0 && picks(word(x, k), 2) == 0;
    let p = choose|p: Seq<nat>| #[trigger] cuts(m.edits, s, tour, throttle, x, p);
    let e = m.edits[i];
    let w = (p[i + 1] - 2) as nat;
    assert(edit_words(e, s, tour, throttle, x, p[i], p[i + 1]));
    reveal(edit_words);
    if !throttle {
        let at = word(x, w);
        match e {
            Edit::LegCoarse { leg, unit } => {
                assert(w == p[i] + 1);
                assert(leg == at as int % s.legs as int);
            },
            Edit::LegFine { leg, unit } => {
                assert(leg == at as int % s.legs as int);
            },
            Edit::LegResample { leg, unit } => {
                assert(w == p[i] + 1);
                assert(leg == at as int % s.legs as int);
            },
            _ => {},
        }
    }
}

} // verus!
