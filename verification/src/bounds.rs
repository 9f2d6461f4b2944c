//! The ranges within which the genes of a candidate stay, and the edits and
//! nudges that keep them there. A caller works out where a gene would move to;
//! this module holds the move to its range and puts it in place.

use crate::mutation::{drawn_edits_fit, fits, mutation, redirects, Edit, GenomeShape};
use crate::problem::{Genes, Genome, Setup};
use crate::scalar::Scalar;
use crate::seeding::fresh_genes;
use vstd::prelude::*;

verus! {

/// The numbers from `lo` to `hi`.
#[derive(Clone, Copy, Debug, PartialEq, Eq, Structural)]
pub struct Range {
    pub lo: Scalar,
    pub hi: Scalar,
}

impl Range {
    /// Both ends are numbers, in order.
    pub open spec fn valid(self) -> bool {
        self.lo.le(self.hi)
    }

    pub open spec fn holds(self, x: Scalar) -> bool {
        self.lo.le(x) && x.le(self.hi)
    }

    /// Whether both ends are numbers, in order.
    pub fn is_valid(self) -> (r: bool)
        ensures
            r == self.valid(),
    {
        self.lo.at_most(self.hi)
    }

    /// The nearest number of the range; a NaN stays as it is.
    pub fn clamp(self, x: Scalar) -> (r: Scalar)
        requires
            self.valid(),
        ensures
            r == x.clamped(self.lo, self.hi),
            !x.nan() ==> self.holds(r),
    {
        x.clamp(self.lo, self.hi)
    }
}

/// Range of a throttle component: from -1 to 1.
#[verifier::allow_in_spec]
pub fn throttle_range() -> Range
    returns
        (Range {
            lo: Scalar { bits: 0xbff0_0000_0000_0000 },
            hi: Scalar { bits: 0x3ff0_0000_0000_0000 },
        }),
{
    Range {
        lo: Scalar { bits: 0xbff0_0000_0000_0000 },
        hi: Scalar { bits: 0x3ff0_0000_0000_0000 },
    }
}

/// Range of the place of a burn along its leg: from 0.05 to 0.95.
#[verifier::allow_in_spec]
pub fn burn_place_range() -> Range
    returns
        (Range {
            lo: Scalar { bits: 0x3fa9_9999_9999_999a },
            hi: Scalar { bits: 0x3fee_6666_6666_6666 },
        }),
{
    Range {
        lo: Scalar { bits: 0x3fa9_9999_9999_999a },
        hi: Scalar { bits: 0x3fee_6666_6666_6666 },
    }
}

/// Range of a component of a burn, km/s: from -2 to 2.
#[verifier::allow_in_spec]
pub fn burn_range() -> Range
    returns
        (Range {
            lo: Scalar { bits: 0xc000_0000_0000_0000 },
            hi: Scalar { bits: 0x4000_0000_0000_0000 },
        }),
{
    Range {
        lo: Scalar { bits: 0xc000_0000_0000_0000 },
        hi: Scalar { bits: 0x4000_0000_0000_0000 },
    }
}

/// Band of the finite-burn margin, as a share of a propulsive arrival burn:
/// from 0.03 to 0.15.
#[verifier::allow_in_spec]
pub fn burn_margin_range() -> Range
    returns
        (Range {
            lo: Scalar { bits: 0x3f9e_b851_eb85_1eb8 },
            hi: Scalar { bits: 0x3fc3_3333_3333_3333 },
        }),
{
    Range {
        lo: Scalar { bits: 0x3f9e_b851_eb85_1eb8 },
        hi: Scalar { bits: 0x3fc3_3333_3333_3333 },
    }
}

/// The ranges that a request sets: of the departure and of each leg.
pub struct Bounds {
    pub depart: Range,
    pub legs: Vec<Range>,
}

/// The ranges that a request sets.
pub struct Limits {
    pub depart: Range,
    pub legs: Seq<Range>,
}

impl View for Bounds {
    type V = Limits;

    open spec fn view(&self) -> Limits {
        Limits { depart: self.depart, legs: self.legs@ }
    }
}

impl Limits {
    /// Every range has its ends in order.
    pub open spec fn valid(self) -> bool {
        self.depart.valid() && forall|i: int|
            0 <= i < self.legs.len() ==> (#[trigger] self.legs[i]).valid()
    }
}

impl Bounds {
    /// The ranges of a departure window of so many days and of some legs.
    pub fn new(window_days: Scalar, legs: Vec<Range>) -> (r: Self)
        ensures
            r@ == (Limits { depart: Range { lo: Scalar { bits: 0 }, hi: window_days }, legs: legs@ }),
    {
        Bounds { depart: Range { lo: Scalar::zero(), hi: window_days }, legs }
    }

    /// Whether every range has its ends in order.
    pub fn is_valid(&self) -> (r: bool)
        ensures
            r == self@.valid(),
    {
        if !self.depart.is_valid() {
            return false;
        }
        let mut i: usize = 0;
        while i < self.legs.len()
            invariant
                i <= self.legs@.len(),
                self.depart.valid(),
                forall|j: int| 0 <= j < i ==> (#[trigger] self.legs@[j]).valid(),
            decreases self.legs@.len() - i,
        {
            if !self.legs[i].is_valid() {
                assert(!self@.legs[i as int].valid());
                return false;
            }
            i = i + 1;
        }
        true
    }
}

/// All genes lie in their ranges.
pub open spec fn within(g: Genes, b: Limits) -> bool {
    &&& b.depart.holds(g.depart_days)
    &&& g.legs.len() == b.legs.len()
    &&& forall|i: int| 0 <= i < g.legs.len() ==> b.legs[i].holds(#[trigger] g.legs[i])
    &&& forall|i: int, c: int|
        0 <= i < g.thrust.len() && 0 <= c < g.thrust[i].len() ==> throttle_range().holds(
            #[trigger] g.thrust[i][c],
        )
    &&& forall|i: int|
        0 <= i < g.dsm.len() ==> burn_place_range().holds((#[trigger] g.dsm[i])[0])
    &&& forall|i: int, c: int|
        0 <= i < g.dsm.len() && 1 <= c < 4 ==> burn_range().holds(#[trigger] g.dsm[i][c])
}

/// How many of each gene there are.
pub open spec fn shape_of(g: Genes) -> GenomeShape {
    GenomeShape {
        legs: g.legs.len() as usize,
        thrust: g.thrust.len() as usize,
        dsm: g.dsm.len() as usize,
        branch: g.branch.len() as usize,
    }
}

/// How many of each gene there are.
pub fn shape(g: &Genome) -> (r: GenomeShape)
    ensures
        r == shape_of(g@),
{
    GenomeShape {
        legs: g.legs.len(),
        thrust: g.thrust.len(),
        dsm: g.dsm.len(),
        branch: g.branch.len(),
    }
}

// ---------------------------------------------------------------- edits

/// Where the genes that an edit touches would move to.
pub enum Moved {
    /// The edit needs no number, or none was found.
    Nothing,
    Value { x: Scalar },
    Vector { v: [Scalar; 3] },
    /// One vector for each throttle segment.
    Profile { rows: Vec<[Scalar; 3]> },
}

/// Where the genes that an edit touches would move to.
pub enum Target {
    Nothing,
    Value { x: Scalar },
    Vector { v: Seq<Scalar> },
    Profile { rows: Seq<Seq<Scalar>> },
}

impl View for Moved {
    type V = Target;

    open spec fn view(&self) -> Target {
        match self {
            Moved::Nothing => Target::Nothing,
            Moved::Value { x } => Target::Value { x: *x },
            Moved::Vector { v } => Target::Vector { v: v@ },
            Moved::Profile { rows } => Target::Profile {
                rows: rows@.map_values(|u: [Scalar; 3]| u@),
            },
        }
    }
}

/// The numbers are those that the edit calls for.
pub open spec fn suits(e: Edit, m: Target, g: Genes) -> bool {
    match e {
        Edit::ThrustScale { .. } => m matches Target::Profile { rows } && rows.len()
            == g.thrust.len(),
        Edit::VinfAll { .. } => m is Vector,
        Edit::Branch { .. } => m is Nothing,
        Edit::DsmZero { .. } => m is Nothing,
        Edit::Reaim => m is Nothing || m is Vector,
        _ => m is Value,
    }
}

/// The edit finds what it touches.
pub open spec fn reaches(e: Edit, g: Genes, b: Limits) -> bool {
    fits(e, shape_of(g)) && g.legs.len() == b.legs.len()
}

/// The candidate after an edit: the genes that it touches are moved, held to
/// their ranges where they are nudged, and all others are left alone.
pub open spec fn applied(g: Genes, e: Edit, m: Target, b: Limits) -> Genes {
    match e {
        Edit::ThrustNudge { seg, axis, .. } => Genes {
            thrust: g.thrust.update(
                seg as int,
                g.thrust[seg as int].update(axis as int, into(m->Value_x, throttle_range())),
            ),
            ..g
        },
        Edit::ThrustScale { .. } => Genes {
            thrust: Seq::new(
                m->rows.len(),
                |i: int|
                    Seq::new(3, |c: int| into(m->rows[i][c], throttle_range())),
            ),
            ..g
        },
        Edit::ThrustBurn { seg, .. } => Genes {
            thrust: g.thrust.update(
                seg as int,
                seq![m->Value_x, Scalar { bits: 0 }, Scalar { bits: 0 }],
            ),
            ..g
        },
        Edit::Depart { .. } => Genes { depart_days: into(m->Value_x, b.depart), ..g },
        Edit::LegCoarse { leg, .. } => Genes {
            legs: g.legs.update(leg as int, into(m->Value_x, b.legs[leg as int])),
            ..g
        },
        Edit::LegFine { leg, .. } => Genes {
            legs: g.legs.update(leg as int, into(m->Value_x, b.legs[leg as int])),
            ..g
        },
        Edit::LegResample { leg, .. } => Genes {
            legs: g.legs.update(leg as int, m->Value_x),
            ..g
        },
        Edit::VinfAxis { axis, .. } => Genes {
            vinf_dep: g.vinf_dep.update(axis as int, m->Value_x),
            ..g
        },
        Edit::VinfAll { .. } => Genes { vinf_dep: m->v, ..g },
        Edit::Reaim => match m {
            Target::Vector { v } => Genes { vinf_dep: v, ..g },
            _ => g,
        },
        Edit::Branch { leg, branch } => Genes {
            branch: g.branch.update(leg as int, branch),
            ..g
        },
        Edit::DsmZero { leg } => Genes {
            dsm: g.dsm.update(
                leg as int,
                seq![
                    g.dsm[leg as int][0],
                    Scalar { bits: 0 },
                    Scalar { bits: 0 },
                    Scalar { bits: 0 },
                ],
            ),
            ..g
        },
        Edit::DsmSlide { leg, .. } => Genes {
            dsm: g.dsm.update(
                leg as int,
                g.dsm[leg as int].update(0, into(m->Value_x, burn_place_range())),
            ),
            ..g
        },
        Edit::DsmKick { leg, axis, .. } => Genes {
            dsm: g.dsm.update(
                leg as int,
                g.dsm[leg as int].update(axis as int, into(m->Value_x, burn_range())),
            ),
            ..g
        },
    }
}

/// A number held to a range.
pub open spec fn into(x: Scalar, r: Range) -> Scalar {
    x.clamped(r.lo, r.hi)
}

fn scaled_profile(rows: &Vec<[Scalar; 3]>) -> (r: Vec<[Scalar; 3]>)
    ensures
        r@.len() == rows@.len(),
        forall|i: int, c: int|
            0 <= i < r@.len() && 0 <= c < 3 ==> #[trigger] r@[i]@[c] == into(
                rows@[i]@[c],
                throttle_range(),
            ),
{
    let mut r: Vec<[Scalar; 3]> = Vec::new();
    let mut i: usize = 0;
    while i < rows.len()
        invariant
            i <= rows@.len(),
            r@.len() == i,
            forall|j: int, c: int|
                0 <= j < i && 0 <= c < 3 ==> #[trigger] r@[j]@[c] == into(
                    rows@[j]@[c],
                    throttle_range(),
                ),
        decreases rows@.len() - i,
    {
        let t: Range = throttle_range();
        let u: [Scalar; 3] = rows[i];
        let w: [Scalar; 3] = [t.clamp(u[0]), t.clamp(u[1]), t.clamp(u[2])];
        assert forall|c: int| 0 <= c < 3 implies #[trigger] w@[c] == into(
            rows@[i as int]@[c],
            throttle_range(),
        ) by {
            assert(c == 0 || c == 1 || c == 2);
        }
        r.push(w);
        i = i + 1;
    }
    r
}

/// Makes an edit, with the numbers that its caller worked out.
pub fn apply_edit(g: &mut Genome, e: &Edit, m: &Moved, b: &Bounds)
    requires
        reaches(*e, old(g)@, b@),
        suits(*e, m@, old(g)@),
        b@.valid(),
    ensures
        final(g)@ == applied(old(g)@, *e, m@, b@),
{
    let ghost before = g@;
    match (*e, m) {
        (Edit::ThrustNudge { seg, axis, .. }, Moved::Value { x }) => {
            let mut row: [Scalar; 3] = g.thrust[seg];
            row[axis] = throttle_range().clamp(*x);
            g.thrust.set(seg, row);
            assert(g@.thrust =~= applied(before, *e, m@, b@).thrust);
        },
        (Edit::ThrustScale { .. }, Moved::Profile { rows }) => {
            g.thrust = scaled_profile(rows);
            assert(g@.thrust =~= applied(before, *e, m@, b@).thrust) by {
                assert forall|i: int| 0 <= i < g@.thrust.len() implies g@.thrust[i]
                    == #[trigger] applied(before, *e, m@, b@).thrust[i] by {
                    assert(g@.thrust[i] == g.thrust@[i]@);
                    assert(m@->rows[i] == rows@[i]@);
                    assert(g@.thrust[i] =~= applied(before, *e, m@, b@).thrust[i]);
                }
            }
        },
        (Edit::ThrustBurn { seg, .. }, Moved::Value { x }) => {
            let row: [Scalar; 3] = [*x, Scalar::zero(), Scalar::zero()];
            g.thrust.set(seg, row);
            assert(row@ =~= seq![*x, Scalar { bits: 0 }, Scalar { bits: 0 }]);
            assert(g@.thrust =~= applied(before, *e, m@, b@).thrust);
        },
        (Edit::Depart { .. }, Moved::Value { x }) => {
            g.depart_days = b.depart.clamp(*x);
        },
        (Edit::LegCoarse { leg, .. }, Moved::Value { x }) => {
            assert(b@.legs[leg as int].valid());
            let days: Scalar = b.legs[leg].clamp(*x);
            g.legs.set(leg, days);
        },
        (Edit::LegFine { leg, .. }, Moved::Value { x }) => {
            assert(b@.legs[leg as int].valid());
            let days: Scalar = b.legs[leg].clamp(*x);
            g.legs.set(leg, days);
        },
        (Edit::LegResample { leg, .. }, Moved::Value { x }) => {
            g.legs.set(leg, *x);
        },
        (Edit::VinfAxis { axis, .. }, Moved::Value { x }) => {
            g.vinf_dep[axis] = *x;
        },
        (Edit::VinfAll { .. }, Moved::Vector { v }) => {
            g.vinf_dep = *v;
        },
        (Edit::Reaim, Moved::Vector { v }) => {
            g.vinf_dep = *v;
        },
        (Edit::Branch { leg, branch }, _) => {
            g.branch.set(leg, branch);
        },
        (Edit::DsmZero { leg }, _) => {
            let old_row: [Scalar; 4] = g.dsm[leg];
            let row: [Scalar; 4] = [old_row[0], Scalar::zero(), Scalar::zero(), Scalar::zero()];
            g.dsm.set(leg, row);
            assert(row@ =~= seq![
                before.dsm[leg as int][0],
                Scalar { bits: 0 },
                Scalar { bits: 0 },
                Scalar { bits: 0 },
            ]);
            assert(g@.dsm =~= applied(before, *e, m@, b@).dsm);
        },
        (Edit::DsmSlide { leg, .. }, Moved::Value { x }) => {
            let mut row: [Scalar; 4] = g.dsm[leg];
            row[0] = burn_place_range().clamp(*x);
            g.dsm.set(leg, row);
            assert(g@.dsm =~= applied(before, *e, m@, b@).dsm);
        },
        (Edit::DsmKick { leg, axis, .. }, Moved::Value { x }) => {
            let mut row: [Scalar; 4] = g.dsm[leg];
            row[axis] = burn_range().clamp(*x);
            g.dsm.set(leg, row);
            assert(g@.dsm =~= applied(before, *e, m@, b@).dsm);
        },
        _ => {},
    }
}

// ---------------------------------------------------------------- laws

/// A candidate as it is stored: three components for each throttle segment, four
/// for each burn, and counts that a machine holds.
pub open spec fn stored(g: Genes) -> bool {
    &&& forall|i: int| 0 <= i < g.thrust.len() ==> (#[trigger] g.thrust[i]).len() == 3
    &&& forall|i: int| 0 <= i < g.dsm.len() ==> (#[trigger] g.dsm[i]).len() == 4
    &&& g.vinf_dep.len() == 3
    &&& g.legs.len() <= usize::MAX && g.thrust.len() <= usize::MAX && g.dsm.len() <= usize::MAX
        && g.branch.len() <= usize::MAX
}

/// As many of each gene.
pub open spec fn same_shape(a: Genes, b: Genes) -> bool {
    a.legs.len() == b.legs.len() && a.thrust.len() == b.thrust.len() && a.dsm.len() == b.dsm.len()
        && a.branch.len() == b.branch.len()
}

/// What is nudged is nudged to a number, and what is drawn anew lies in its
/// range.
pub open spec fn sound(e: Edit, m: Target, b: Limits) -> bool {
    match e {
        Edit::ThrustScale { .. } => forall|i: int, c: int|
            0 <= i < m->rows.len() && 0 <= c < 3 ==> !(#[trigger] m->rows[i][c]).nan(),
        Edit::ThrustBurn { .. } => throttle_range().holds(m->Value_x),
        Edit::LegResample { leg, .. } => b.legs[leg as int].holds(m->Value_x),
        Edit::VinfAll { .. } => m->v.len() == 3,
        Edit::Reaim => m matches Target::Vector { v } ==> v.len() == 3,
        Edit::VinfAxis { .. } => true,
        Edit::Branch { .. } => true,
        Edit::DsmZero { .. } => true,
        _ => !m->Value_x.nan(),
    }
}

/// An edit keeps every gene in its range and adds and drops none; only an edit of
/// the departure velocity changes it.
pub proof fn edits_stay_within(g: Genes, e: Edit, m: Target, b: Limits)
    requires
        stored(g),
        within(g, b),
        b.valid(),
        reaches(e, g, b),
        suits(e, m, g),
        sound(e, m, b),
    ensures
        within(applied(g, e, m, b), b),
        stored(applied(g, e, m, b)),
        same_shape(applied(g, e, m, b), g),
        !redirects(e) ==> applied(g, e, m, b).vinf_dep == g.vinf_dep,
{
    let h = applied(g, e, m, b);
    match e {
        Edit::LegCoarse { leg, .. } => {
            assert(b.legs[leg as int].valid());
        },
        Edit::LegFine { leg, .. } => {
            assert(b.legs[leg as int].valid());
        },
        _ => {},
    }
    assert forall|i: int| 0 <= i < h.legs.len() implies b.legs[i].holds(#[trigger] h.legs[i]) by {
        assert(b.legs[i].holds(g.legs[i]));
    }
    assert forall|i: int, c: int|
        0 <= i < h.thrust.len() && 0 <= c < h.thrust[i].len() implies throttle_range().holds(
        #[trigger] h.thrust[i][c],
    ) by {
        assert(g.thrust[i].len() == 3);
        if 0 <= c < 3 {
            assert(throttle_range().holds(g.thrust[i][c]));
        }
        if e is ThrustScale {
            assert(!m->rows[i][c].nan());
        }
    }
    assert forall|i: int| 0 <= i < h.dsm.len() implies burn_place_range().holds(
        (#[trigger] h.dsm[i])[0],
    ) by {
        assert(burn_place_range().holds(g.dsm[i][0]));
        assert(g.dsm[i].len() == 4);
    }
    assert forall|i: int, c: int| 0 <= i < h.dsm.len() && 1 <= c < 4 implies burn_range().holds(
        #[trigger] h.dsm[i][c],
    ) by {
        assert(burn_range().holds(g.dsm[i][c]));
        assert(g.dsm[i].len() == 4);
    }
}

/// The candidate after some edits, in order.
pub open spec fn all_applied(
    g: Genes,
    edits: Seq<Edit>,
    moves: Seq<Target>,
    b: Limits,
) -> Genes
    decreases edits.len(),
{
    if edits.len() == 0 {
        g
    } else {
        applied(
            all_applied(g, edits.drop_last(), moves.drop_last(), b),
            edits.last(),
            moves.last(),
            b,
        )
    }
}

/// Every move is what its edit calls for, and sound.
pub open spec fn moves_answer(
    g: Genes,
    edits: Seq<Edit>,
    moves: Seq<Target>,
    b: Limits,
) -> bool {
    moves.len() == edits.len() && forall|i: int|
        0 <= i < edits.len() ==> suits(#[trigger] edits[i], moves[i], g) && sound(
            edits[i],
            moves[i],
            b,
        )
}

proof fn lists_stay_within(g: Genes, edits: Seq<Edit>, moves: Seq<Target>, b: Limits)
    requires
        stored(g),
        within(g, b),
        b.valid(),
        moves_answer(g, edits, moves, b),
        forall|i: int| 0 <= i < edits.len() ==> fits(#[trigger] edits[i], shape_of(g)),
    ensures
        within(all_applied(g, edits, moves, b), b),
        stored(all_applied(g, edits, moves, b)),
        same_shape(all_applied(g, edits, moves, b), g),
        (forall|i: int| 0 <= i < edits.len() ==> !redirects(#[trigger] edits[i])) ==> all_applied(
            g,
            edits,
            moves,
            b,
        ).vinf_dep == g.vinf_dep,
    decreases edits.len(),
{
    if edits.len() > 0 {
        let n = edits.len() - 1;
        let head = edits.drop_last();
        let tail = moves.drop_last();
        assert forall|i: int| 0 <= i < head.len() implies suits(#[trigger] head[i], tail[i], g)
            && sound(head[i], tail[i], b) && fits(head[i], shape_of(g)) by {
            assert(head[i] == edits[i]);
        }
        lists_stay_within(g, head, tail, b);
        let h = all_applied(g, head, tail, b);
        assert(edits[n] == edits.last());
        assert(shape_of(h) == shape_of(g));
        assert(suits(edits[n], moves[n], h));
        edits_stay_within(h, edits[n], moves[n], b);
        if forall|i: int| 0 <= i < edits.len() ==> !redirects(#[trigger] edits[i]) {
            assert forall|i: int| 0 <= i < head.len() implies !redirects(#[trigger] head[i]) by {
                assert(head[i] == edits[i]);
            }
        }
    }
}

/// A mutation keeps the departure, the flight times, the throttle and the burns
/// of a candidate in their ranges, adds and drops no gene, and leaves the
/// departure velocity of a tour alone.
pub proof fn mutants_stay_within(
    g: Genes,
    x: u64,
    k: nat,
    tour: bool,
    moves: Seq<Target>,
    b: Limits,
)
    requires
        stored(g),
        within(g, b),
        b.valid(),
        g.legs.len() > 0,
        moves_answer(g, mutation(x, k, shape_of(g), tour).edits, moves, b),
    ensures
        ({
            let h = all_applied(g, mutation(x, k, shape_of(g), tour).edits, moves, b);
            &&& within(h, b)
            &&& stored(h)
            &&& same_shape(h, g)
            &&& tour ==> h.vinf_dep == g.vinf_dep
        }),
{
    let s = shape_of(g);
    let edits = mutation(x, k, s, tour).edits;
    assert forall|i: int| 0 <= i < edits.len() implies fits(#[trigger] edits[i], s) && (tour
        ==> !redirects(edits[i])) by {
        drawn_edits_fit(x, k, s, tour, i);
    }
    lists_stay_within(g, edits, moves, b);
}

/// A fresh candidate whose timing and throttle lie in their ranges lies in
/// its ranges as a whole: what else it is given is in range.
pub proof fn fresh_candidates_start_within(
    s: Setup,
    depart_days: Scalar,
    legs: Seq<Scalar>,
    vinf_dep: Seq<Scalar>,
    brake: Scalar,
    b: Limits,
)
    requires
        b.depart.holds(depart_days),
        legs.len() == b.legs.len() <= usize::MAX,
        forall|i: int| 0 <= i < legs.len() ==> b.legs[i].holds(#[trigger] legs[i]),
        throttle_range().holds(brake),
        vinf_dep.len() == 3,
    ensures
        within(fresh_genes(s, depart_days, legs, vinf_dep, brake), b),
        stored(fresh_genes(s, depart_days, legs, vinf_dep, brake)),
{
    let g = fresh_genes(s, depart_days, legs, vinf_dep, brake);
    assert forall|i: int, c: int|
        0 <= i < g.dsm.len() && 1 <= c < 4 implies burn_range().holds(#[trigger] g.dsm[i][c]) by {
        assert(c == 1 || c == 2 || c == 3);
    }
    assert forall|i: int, c: int|
        0 <= i < g.thrust.len() && 0 <= c < g.thrust[i].len() implies throttle_range().holds(
        #[trigger] g.thrust[i][c],
    ) by {
        assert(c == 0 || c == 1 || c == 2);
    }
}

/// `v` is where a range lets a move to `x` come: there, if the range holds it, else
/// at the end that it would pass; a NaN is left as it is.
pub open spec fn comes_to(v: Scalar, x: Scalar, r: Range) -> bool {
    if x.nan() {
        v == x
    } else {
        &&& r.holds(v)
        &&& r.holds(x) ==> v == x
        &&& x.lt(r.lo) ==> v == r.lo
        &&& r.hi.lt(x) ==> v == r.hi
    }
}

/// An edit of the timing moves the departure or the one leg that it names, and
/// nothing else of the timing.
#[verifier::rlimit(40)]
pub proof fn edits_move_their_own_timing(g: Genes, e: Edit, m: Target, b: Limits, i: int)
    requires
        b.valid(),
        reaches(e, g, b),
        suits(e, m, g),
        stored(g),
    ensures
        ({
            let h = applied(g, e, m, b);
            let x = m->Value_x;
            &&& if e is Depart {
                comes_to(h.depart_days, x, b.depart)
            } else {
                h.depart_days == g.depart_days
            }
            &&& h.legs.len() == g.legs.len()
            &&& 0 <= i < g.legs.len() ==> match e {
                Edit::LegCoarse { leg, .. } => if leg == i {
                    comes_to(h.legs[i], x, b.legs[i])
                } else {
                    h.legs[i] == g.legs[i]
                },
                Edit::LegFine { leg, .. } => if leg == i {
                    comes_to(h.legs[i], x, b.legs[i])
                } else {
                    h.legs[i] == g.legs[i]
                },
                Edit::LegResample { leg, .. } => h.legs[i] == if leg == i {
                    x
                } else {
                    g.legs[i]
                },
                _ => h.legs[i] == g.legs[i],
            }
        }),
{
    if 0 <= i < g.legs.len() {
        assert(b.legs[i].valid());
    }
}

/// An edit of the throttle or of the departure velocity moves the components that it
/// names, and no others.
#[verifier::rlimit(40)]
pub proof fn edits_move_their_own_thrust(g: Genes, e: Edit, m: Target, b: Limits, i: int, c: int)
    requires
        b.valid(),
        reaches(e, g, b),
        suits(e, m, g),
        stored(g),
        0 <= c < 3,
    ensures
        ({
            let h = applied(g, e, m, b);
            let x = m->Value_x;
            &&& h.thrust.len() == g.thrust.len()
            &&& 0 <= i < g.thrust.len() ==> match e {
                Edit::ThrustNudge { seg, axis, .. } => if seg == i && axis == c {
                    comes_to(h.thrust[i][c], x, throttle_range())
                } else {
                    h.thrust[i][c] == g.thrust[i][c]
                },
                Edit::ThrustScale { .. } => comes_to(
                    h.thrust[i][c],
                    m->rows[i][c],
                    throttle_range(),
                ),
                Edit::ThrustBurn { seg, .. } => if seg == i {
                    h.thrust[i][c] == if c == 0 {
                        x
                    } else {
                        Scalar { bits: 0 }
                    }
                } else {
                    h.thrust[i] == g.thrust[i]
                },
                _ => h.thrust[i] == g.thrust[i],
            }
            &&& match e {
                Edit::VinfAxis { axis, .. } => h.vinf_dep[c] == if axis == c {
                    x
                } else {
                    g.vinf_dep[c]
                },
                Edit::VinfAll { .. } => h.vinf_dep == m->v,
                Edit::Reaim => h.vinf_dep == if m is Vector {
                    m->v
                } else {
                    g.vinf_dep
                },
                _ => h.vinf_dep == g.vinf_dep,
            }
        }),
{
    if 0 <= i < g.thrust.len() {
        assert(g.thrust[i].len() == 3);
    }
}

/// An edit of a burn or of a branch changes the leg that it names, and no other:
/// a slide its place, a kick the one component, and a burn that is switched off
/// keeps its place alone.
#[verifier::rlimit(40)]
pub proof fn edits_move_their_own_burns(g: Genes, e: Edit, m: Target, b: Limits, i: int, c: int)
    requires
        b.valid(),
        reaches(e, g, b),
        suits(e, m, g),
        stored(g),
        0 <= c < 4,
    ensures
        ({
            let h = applied(g, e, m, b);
            let x = m->Value_x;
            &&& h.dsm.len() == g.dsm.len()
            &&& 0 <= i < g.dsm.len() ==> match e {
                Edit::DsmZero { leg } => if leg == i && c > 0 {
                    h.dsm[i][c].magnitude() == 0
                } else {
                    h.dsm[i][c] == g.dsm[i][c]
                },
                Edit::DsmSlide { leg, .. } => if leg == i && c == 0 {
                    comes_to(h.dsm[i][0], x, burn_place_range())
                } else {
                    h.dsm[i][c] == g.dsm[i][c]
                },
                Edit::DsmKick { leg, axis, .. } => if leg == i && axis == c {
                    comes_to(h.dsm[i][c], x, burn_range())
                } else {
                    h.dsm[i][c] == g.dsm[i][c]
                },
                _ => h.dsm[i] == g.dsm[i],
            }
            &&& h.branch.len() == g.branch.len()
            &&& 0 <= i < g.branch.len() ==> h.branch[i] == match e {
                Edit::Branch { leg, branch } => if leg == i {
                    branch
                } else {
                    g.branch[i]
                },
                _ => g.branch[i],
            }
        }),
{
    if 0 <= i < g.dsm.len() {
        assert(g.dsm[i].len() == 4);
    }
}

/// The ranges lie evenly about their middle: throttle and burns about nothing, the
/// place of a burn about the middle of its leg.
pub proof fn ranges_are_centred()
    ensures
        throttle_range().lo.place() == -throttle_range().hi.place(),
        burn_range().lo.place() == -burn_range().hi.place(),
        throttle_range().valid() && burn_range().valid() && burn_place_range().valid()
            && burn_margin_range().valid(),
        burn_place_range().holds(Scalar { bits: 0x3fe0_0000_0000_0000 }),
        throttle_range().holds(Scalar { bits: 0 }) && burn_range().holds(Scalar { bits: 0 }),
{
}

} // verus!
