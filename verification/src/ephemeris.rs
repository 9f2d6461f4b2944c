//! Where body states come from: which kernel files are loaded and in which
//! order, which bodies they answer for, which bodies are tabulated, and what
//! stands in for the rest.

use crate::bodies::{system_of, BodyId, ALL_BODIES, BODY_COUNT};
use crate::dates::{midnight_utc, month_start, Date, Instant, CENTURY_NS, DAY_NS};
use crate::physical::elements_of;
use crate::scalar::Scalar;
use crate::text::{chars_of, decimal, decimal_of, extend, extend_str, join, joined, text_of, views};
use vstd::prelude::*;

verus! {

// ---------------------------------------------------------------- kernels

/// A kernel file: something, then `.bsp`.
pub open spec fn is_kernel_name(s: Seq<char>) -> bool {
    let n = s.len() as int;
    n > 4 && s[n - 4] == '.' && s[n - 3] == 'b' && s[n - 2] == 's' && s[n - 1] == 'p'
}

fn names_kernel(s: &Vec<char>) -> (r: bool)
    ensures
        r == is_kernel_name(s@),
{
    let n: usize = s.len();
    n > 4 && s[n - 4] == '.' && s[n - 3] == 'b' && s[n - 2] == 's' && s[n - 1] == 'p'
}

/// Earlier by code points.
pub open spec fn text_before(a: Seq<char>, b: Seq<char>) -> bool
    decreases a.len(),
{
    if b.len() == 0 {
        false
    } else if a.len() == 0 {
        true
    } else if a[0] != b[0] {
        a[0] < b[0]
    } else {
        text_before(a.drop_first(), b.drop_first())
    }
}

proof fn shared_prefix_is_passed_over(a: Seq<char>, b: Seq<char>, n: int)
    requires
        0 <= n <= a.len(),
        n <= b.len(),
        forall|i: int| 0 <= i < n ==> a[i] == b[i],
    ensures
        text_before(a, b) == text_before(a.skip(n), b.skip(n)),
    decreases n,
{
    if n == 0 {
        assert(a.skip(0) =~= a);
        assert(b.skip(0) =~= b);
    } else {
        let a1 = a.drop_first();
        let b1 = b.drop_first();
        assert forall|i: int| 0 <= i < n - 1 implies a1[i] == b1[i] by {
            assert(a[i + 1] == b[i + 1]);
        }
        shared_prefix_is_passed_over(a1, b1, n - 1);
        assert(a1.skip(n - 1) =~= a.skip(n));
        assert(b1.skip(n - 1) =~= b.skip(n));
    }
}

fn comes_before(a: &Vec<char>, b: &Vec<char>) -> (r: bool)
    ensures
        r == text_before(a@, b@),
{
    let mut i: usize = 0;
    while i < a.len() && i < b.len() && a[i] == b[i]
        invariant
            i <= a.len(),
            i <= b.len(),
            forall|j: int| 0 <= j < i ==> a@[j] == b@[j],
        decreases a.len() - i,
    {
        i = i + 1;
    }
    proof {
        shared_prefix_is_passed_over(a@, b@, i as int);
    }
    if i == b.len() {
        false
    } else if i == a.len() {
        true
    } else {
        a[i] < b[i]
    }
}

/// A name never comes before itself, and of two different names exactly one
/// comes before the other.
pub proof fn names_are_ordered(a: Seq<char>, b: Seq<char>)
    ensures
        !text_before(a, a),
        a != b ==> text_before(a, b) != text_before(b, a),
    decreases a.len(),
{
    if a.len() > 0 && b.len() > 0 && a[0] == b[0] {
        names_are_ordered(a.drop_first(), b.drop_first());
        if a.drop_first() == b.drop_first() {
            assert(a =~= seq![a[0]] + a.drop_first());
            assert(b =~= seq![b[0]] + b.drop_first());
        }
    } else if a.len() > 0 {
        names_are_ordered(a.drop_first(), a.drop_first());
    } else if b.len() == 0 {
        assert(a =~= b);
    }
}

proof fn before_is_transitive(a: Seq<char>, b: Seq<char>, c: Seq<char>)
    requires
        !text_before(b, a),
        !text_before(c, b),
    ensures
        !text_before(c, a),
    decreases a.len(),
{
    if c.len() > 0 && a.len() > 0 && b.len() > 0 {
        if a[0] == b[0] && b[0] == c[0] {
            before_is_transitive(a.drop_first(), b.drop_first(), c.drop_first());
        }
    }
}

/// File names as texts.
pub open spec fn file_texts(names: Seq<String>) -> Seq<Seq<char>> {
    names.map_values(|s: String| s@)
}

/// Places of the kernel files of a directory, in the order in which they are
/// loaded: by name.
pub open spec fn is_load_order(names: Seq<Seq<char>>, r: Seq<usize>) -> bool {
    &&& forall|p: int|
        0 <= p < r.len() ==> (#[trigger] r[p]) < names.len() && is_kernel_name(names[r[p] as int])
    &&& forall|i: usize|
        0 <= i < names.len() && is_kernel_name(names[i as int]) ==> #[trigger] r.contains(i)
    &&& forall|p: int, q: int|
        0 <= p < q < r.len() ==> #[trigger] r[p] != #[trigger] r[q] && !text_before(
            names[r[q] as int],
            names[r[p] as int],
        )
}

/// Places of the kernel files of a directory, in the order in which they are
/// loaded.
pub fn kernel_order(names: &Vec<String>) -> (r: Vec<usize>)
    ensures
        is_load_order(file_texts(names@), r@),
{
    let ghost all = file_texts(names@);
    let mut texts: Vec<Vec<char>> = Vec::new();
    let mut r: Vec<usize> = Vec::new();
    let mut i: usize = 0;
    while i < names.len()
        invariant
            i <= names.len(),
            all == file_texts(names@),
            texts.len() == i,
            forall|j: int| 0 <= j < i ==> (#[trigger] texts@[j])@ == all[j],
            forall|p: int|
                0 <= p < r@.len() ==> (#[trigger] r@[p]) < i && is_kernel_name(all[r@[p] as int]),
            forall|k: usize|
                0 <= k < i && is_kernel_name(all[k as int]) ==> #[trigger] r@.contains(k),
            forall|p: int, q: int|
                0 <= p < q < r@.len() ==> #[trigger] r@[p] != #[trigger] r@[q] && !text_before(
                    all[r@[q] as int],
                    all[r@[p] as int],
                ),
        decreases names.len() - i,
    {
        let name: Vec<char> = chars_of(names[i].as_str());
        assert(name@ == all[i as int]);
        let kernel: bool = names_kernel(&name);
        if kernel {
            let mut at: usize = 0;
            while at < r.len() && !comes_before(&name, &texts[r[at]])
                invariant
                    at <= r.len(),
                    i < names.len(),
                    all.len() == names.len(),
                    texts.len() == i,
                    name@ == all[i as int],
                    forall|j: int| 0 <= j < i ==> (#[trigger] texts@[j])@ == all[j],
                    forall|p: int| 0 <= p < r@.len() ==> (#[trigger] r@[p]) < i,
                    forall|p: int|
                        0 <= p < at ==> !text_before(name@, all[(#[trigger] r@[p]) as int]),
                decreases r.len() - at,
            {
                at = at + 1;
            }
            let ghost prev = r@;
            r.insert(at, i);
            proof {
                assert(r@ == prev.insert(at as int, i));
                assert forall|p: int| 0 <= p < r@.len() implies (#[trigger] r@[p]) < i + 1
                    && is_kernel_name(all[r@[p] as int]) by {
                    if p < at {
                        assert(r@[p] == prev[p]);
                    } else if p > at {
                        assert(r@[p] == prev[p - 1]);
                    }
                }
                assert forall|k: usize|
                    0 <= k < i + 1 && is_kernel_name(all[k as int]) implies #[trigger] r@.contains(
                    k,
                ) by {
                    if k == i {
                        assert(r@[at as int] == k);
                    } else {
                        assert(prev.contains(k));
                        let p = choose|p: int| 0 <= p < prev.len() && prev[p] == k;
                        if p < at {
                            assert(r@[p] == k);
                        } else {
                            assert(r@[p + 1] == k);
                        }
                    }
                }
                assert forall|p: int, q: int| 0 <= p < q < r@.len() implies #[trigger] r@[p]
                    != #[trigger] r@[q] && !text_before(all[r@[q] as int], all[r@[p] as int]) by {
                    if p < at {
                        assert(r@[p] == prev[p]);
                    } else if p > at {
                        assert(r@[p] == prev[p - 1]);
                    }
                    if q < at {
                        assert(r@[q] == prev[q]);
                    } else if q > at {
                        assert(r@[q] == prev[q - 1]);
                    }
                    if p == at {
                        // The new name comes before the one that stood here,
                        // which none of the later ones comes before.
                        let stood = all[prev[at as int] as int];
                        names_are_ordered(name@, stood);
                        if q - 1 > at {
                            before_is_transitive(name@, stood, all[r@[q] as int]);
                        }
                    }
                }
            }
        }
        texts.push(name);
        i = i + 1;
    }
    r
}

// ---------------------------------------------------------------- coverage

/// Bodies covered among the first `n`.
pub open spec fn covered_among(covered: Seq<bool>, n: int) -> int
    decreases n,
{
    if n <= 0 {
        0
    } else {
        covered_among(covered, n - 1) + if covered[n - 1] {
            1int
        } else {
            0
        }
    }
}

/// How many bodies the loaded kernels answer for.
pub fn coverage(covered: &[bool; BODY_COUNT]) -> (r: usize)
    ensures
        r == covered_among(covered@, BODY_COUNT as int),
        r <= BODY_COUNT,
{
    let mut r: usize = 0;
    let mut i: usize = 0;
    while i < BODY_COUNT
        invariant
            i <= BODY_COUNT,
            r <= i,
            r == covered_among(covered@, i as int),
        decreases BODY_COUNT - i,
    {
        if covered[i] {
            r = r + 1;
        }
        i = i + 1;
    }
    r
}

/// What is told of the states' source, once kernels were loaded.
pub open spec fn kernel_text(loaded: Seq<Seq<char>>, covered: int) -> Seq<char> {
    "SPICE: "@ + join(loaded, '+') + " ("@ + decimal(covered as nat) + "/"@ + decimal(
        BODY_COUNT as nat,
    ) + " bodies)"@
}

/// A text ends by telling how many of all the bodies are covered.
pub open spec fn tells_coverage(text: Seq<char>, covered: int) -> bool {
    exists|head: Seq<char>| #[trigger]
        (head + " ("@ + decimal(covered as nat) + "/"@ + decimal(BODY_COUNT as nat) + " bodies)"@)
            == text
}

/// What is told of the states' source.
pub open spec fn fidelity_text(loaded: Seq<Seq<char>>, covered: Seq<bool>) -> Seq<char> {
    if loaded.len() == 0 {
        "Keplerian approximation (place de440s.bsp in data/ for DE440)"@
    } else {
        kernel_text(loaded, covered_among(covered, BODY_COUNT as int))
    }
}

/// What is told of the states' source.
pub fn fidelity_label(loaded: &Vec<String>, covered: &[bool; BODY_COUNT]) -> (r: String)
    ensures
        r@ == (if loaded@.len() == 0 {
            "Keplerian approximation (place de440s.bsp in data/ for DE440)"@
        } else {
            kernel_text(file_texts(loaded@), covered_among(covered@, BODY_COUNT as int))
        }),
        r@ == fidelity_text(file_texts(loaded@), covered@),
        loaded@.len() > 0 ==> tells_coverage(r@, covered_among(covered@, BODY_COUNT as int)),
{
    if loaded.len() == 0 {
        return text_of(
            &chars_of("Keplerian approximation (place de440s.bsp in data/ for DE440)"),
        );
    }
    let mut parts: Vec<Vec<char>> = Vec::new();
    let mut i: usize = 0;
    while i < loaded.len()
        invariant
            i <= loaded.len(),
            parts.len() == i,
            forall|j: int| 0 <= j < i ==> (#[trigger] parts@[j])@ == loaded@[j]@,
        decreases loaded.len() - i,
    {
        parts.push(chars_of(loaded[i].as_str()));
        i = i + 1;
    }
    assert(views(parts@) =~= file_texts(loaded@));
    let mut s: Vec<char> = chars_of("SPICE: ");
    extend(&mut s, &joined(&parts, '+'));
    let ghost head = s@;
    extend_str(&mut s, " (");
    extend(&mut s, &decimal_of(coverage(covered) as u64));
    extend_str(&mut s, "/");
    extend(&mut s, &decimal_of(BODY_COUNT as u64));
    extend_str(&mut s, " bodies)");
    assert(head + " ("@ + decimal(covered_among(covered@, BODY_COUNT as int) as nat) + "/"@
        + decimal(BODY_COUNT as nat) + " bodies)"@ == s@);
    assert(tells_coverage(s@, covered_among(covered@, BODY_COUNT as int)));
    text_of(&s)
}

// ---------------------------------------------------------------- sources

/// What backs an ephemeris.
#[derive(Clone, Copy, Debug, PartialEq, Eq)]
pub enum Backing {
    /// Kernels that answer for some of the bodies.
    Kernels { covered: [bool; BODY_COUNT] },
    /// Nothing but the models.
    Models,
    /// Tables of some of the bodies.
    Tables { tabulated: [bool; BODY_COUNT] },
}

/// Where the state of a body is asked first.
#[derive(Clone, Copy, Debug, PartialEq, Eq, Structural)]
pub enum Source {
    /// The kernels; the model where they do not answer for the epoch.
    Kernel,
    Table,
    Model,
}

/// Where the state of a body is asked first.
pub open spec fn source_of(backing: Backing, body: BodyId) -> Source {
    match backing {
        Backing::Kernels { covered } => if covered@[body.index() as int] {
            Source::Kernel
        } else {
            Source::Model
        },
        Backing::Models => Source::Model,
        Backing::Tables { tabulated } => if tabulated@[body.index() as int] {
            Source::Table
        } else {
            Source::Model
        },
    }
}

impl Backing {
    /// Where the state of a body is asked first.
    pub fn source(&self, body: BodyId) -> (r: Source)
        ensures
            r == source_of(*self, body),
    {
        proof {
            crate::bodies::index_points_back(body);
        }
        match self {
            Backing::Kernels { covered } => if covered[body.index()] {
                Source::Kernel
            } else {
                Source::Model
            },
            Backing::Models => Source::Model,
            Backing::Tables { tabulated } => if tabulated[body.index()] {
                Source::Table
            } else {
                Source::Model
            },
        }
    }
}

/// The model that stands in for a body.
#[derive(Clone, Copy, Debug, PartialEq, Eq, Structural)]
pub enum Model {
    /// At rest in the origin.
    Origin,
    /// On a circle about its parent.
    Circle { parent: BodyId },
    /// On an ellipse given by its elements.
    Ellipse,
}

/// The model that stands in for a body.
#[verifier::allow_in_spec]
pub fn model(body: BodyId) -> Model
    returns
        (if body == BodyId::Sun {
            Model::Origin
        } else {
            match body.parent() {
                Some(parent) => Model::Circle { parent },
                None => Model::Ellipse,
            }
        }),
{
    if body == BodyId::Sun {
        Model::Origin
    } else {
        match body.parent() {
            Some(parent) => Model::Circle { parent },
            None => Model::Ellipse,
        }
    }
}

/// Every model can be worked out: an ellipse has elements, and a circle is
/// about a body that does not circle another one itself.
pub proof fn models_bottom_out(body: BodyId)
    ensures
        model(body) is Ellipse ==> elements_of(body) is Some,
        model(body) matches Model::Circle { parent } ==> !(model(parent) is Circle),
{
}

// ---------------------------------------------------------------- tables

/// The bodies asked for are tabulated, except that the moons never are.
pub open spec fn is_tabulation(mask: Seq<bool>, r: Seq<bool>) -> bool {
    forall|b: BodyId| #[trigger]
        r[b.index() as int] == (mask[b.index() as int] && b.parent() is None)
}

/// Which of the bodies asked for are tabulated: the moons never are.
pub fn tabulated(mask: &[bool; BODY_COUNT]) -> (r: [bool; BODY_COUNT])
    ensures
        is_tabulation(mask@, r@),
{
    let mut r: [bool; BODY_COUNT] = [false; BODY_COUNT];
    let mut i: usize = 0;
    while i < BODY_COUNT
        invariant
            i <= BODY_COUNT,
            forall|j: int|
                0 <= j < i ==> #[trigger] r@[j] == (mask@[j] && ALL_BODIES@[j].parent() is None),
        decreases BODY_COUNT - i,
    {
        r[i] = mask[i] && ALL_BODIES[i].parent().is_none();
        i = i + 1;
    }
    proof {
        assert forall|b: BodyId| #[trigger]
            r@[b.index() as int] == (mask@[b.index() as int] && b.parent() is None) by {
            crate::bodies::index_points_back(b);
        }
    }
    r
}

/// A body is looked up in the tables exactly where it was asked for and is no
/// moon. The moons and all others are worked out by their models; the model of
/// a moon asks for the state of its parent, which is looked up in turn.
pub proof fn tables_answer_for_what_was_asked(
    mask: [bool; BODY_COUNT],
    tabulated: [bool; BODY_COUNT],
    body: BodyId,
)
    requires
        is_tabulation(mask@, tabulated@),
    ensures
        source_of(Backing::Tables { tabulated }, body) == (if mask@[body.index() as int]
            && body.parent() is None {
            Source::Table
        } else {
            Source::Model
        }),
        body.parent() matches Some(parent) ==> source_of(Backing::Tables { tabulated }, body)
            == Source::Model && model(body) == (Model::Circle { parent }) && source_of(
            Backing::Tables { tabulated },
            parent,
        ) == (if mask@[parent.index() as int] {
            Source::Table
        } else {
            Source::Model
        }),
{
    assert(tabulated@[body.index() as int] == (mask@[body.index() as int]
        && body.parent() is None));
    if let Some(parent) = body.parent() {
        assert(tabulated@[parent.index() as int] == (mask@[parent.index() as int]
            && parent.parent() is None));
    }
}

/// Samples of a table whose span takes `steps` steps, the last of them perhaps
/// in part: enough for one step at least.
pub fn sample_count(steps: usize) -> (r: usize)
    requires
        steps < usize::MAX,
    ensures
        r == (if steps < 1 {
            2
        } else {
            steps + 1
        }),
        r >= 2,
{
    if steps < 1 {
        2
    } else {
        steps + 1
    }
}

/// The table segment for a query that lies `floor` whole steps after the start
/// of the table: queries outside the span use its ends.
pub open spec fn segment_of(floor: int, samples: int) -> int {
    if floor < 0 {
        0
    } else if floor <= samples - 2 {
        floor
    } else {
        samples - 2
    }
}

/// The table segment for a query that lies `floor` whole steps after the start
/// of the table.
pub fn segment(floor: i64, samples: usize) -> (r: usize)
    requires
        samples >= 2,
    ensures
        r + 1 < samples,
        r == segment_of(floor as int, samples as int),
{
    if floor < 0 {
        0
    } else if floor as u64 <= (samples - 2) as u64 {
        floor as usize
    } else {
        samples - 2
    }
}

/// Place of a query within its segment, from 0 at the first sample to 1 at the
/// second, by the steps that it lies behind the first.
pub open spec fn fraction_of(offset: Scalar) -> Scalar {
    offset.clamped(Scalar { bits: 0 }, Scalar { bits: 0x3ff0_0000_0000_0000 })
}

/// Place of a query within its segment.
pub fn fraction(offset: Scalar) -> (r: Scalar)
    ensures
        r == fraction_of(offset),
        !offset.nan() ==> (Scalar { bits: 0 }).le(r) && r.le(
            Scalar { bits: 0x3ff0_0000_0000_0000 },
        ),
{
    offset.clamp(Scalar::zero(), Scalar { bits: 0x3ff0_0000_0000_0000 })
}

/// Queries outside the span clamp to its ends: one before the first sample is
/// answered by the start of the first segment, one behind the last sample by
/// the end of the last. Every other query lies in the segment of its step.
pub proof fn queries_outside_use_the_ends(floor: int, samples: int, offset: Scalar)
    requires
        samples >= 2,
    ensures
        floor < 0 && offset.lt(Scalar { bits: 0 }) ==> segment_of(floor, samples) == 0
            && fraction_of(offset) == (Scalar { bits: 0 }),
        floor >= samples - 1 && (Scalar { bits: 0x3ff0_0000_0000_0000 }).le(offset) ==> segment_of(
            floor,
            samples,
        ) == samples - 2 && fraction_of(offset) == (Scalar { bits: 0x3ff0_0000_0000_0000 }),
        0 <= floor < samples - 1 ==> segment_of(floor, samples) == floor,
        (Scalar { bits: 0 }).le(offset) && offset.le(Scalar { bits: 0x3ff0_0000_0000_0000 })
            ==> fraction_of(offset) == offset,
{
}

/// When the kernels are asked which bodies they answer for.
pub fn coverage_epoch() -> (r: Instant)
    ensures
        r.nanoseconds < CENTURY_NS,
        r.total_ns() == (Date { year: 2026, month: 1, day: 1 }).day_number() * DAY_NS,
        r.total_ns() + 200 * DAY_NS == (Date { year: 2026, month: 7, day: 20 }).day_number()
            * DAY_NS,
{
    proof {
        assert((Date { year: 2026, month: 7, day: 20 }).day_number() == (Date {
            year: 2026,
            month: 1,
            day: 1,
        }).day_number() + 200) by {
            reveal_with_fuel(month_start, 8);
        }
    }
    midnight_utc(&Date { year: 2026, month: 1, day: 1 })
}

/// Every body counts once: the count goes up by one with each body covered, and
/// nothing covered counts nothing.
pub proof fn every_body_counts_once(covered: Seq<bool>, n: int, i: int)
    requires
        0 <= i < n <= covered.len(),
    ensures
        covered_among(covered.update(i, true), n) == covered_among(covered.update(i, false), n)
            + 1,
        (forall|j: int| 0 <= j < n ==> !#[trigger] covered[j]) ==> covered_among(covered, n) == 0,
    decreases n,
{
    let (a, b) = (covered.update(i, true), covered.update(i, false));
    if i < n - 1 {
        every_body_counts_once(covered, n - 1, i);
    } else {
        others_count_alike(covered, n - 1, i);
    }
    nothing_counts_nothing(covered, n);
}

proof fn others_count_alike(covered: Seq<bool>, n: int, i: int)
    requires
        0 <= n <= i < covered.len(),
    ensures
        covered_among(covered.update(i, true), n) == covered_among(covered.update(i, false), n),
    decreases n,
{
    if n > 0 {
        others_count_alike(covered, n - 1, i);
    }
}

proof fn nothing_counts_nothing(covered: Seq<bool>, n: int)
    requires
        0 <= n <= covered.len(),
    ensures
        (forall|j: int| 0 <= j < n ==> !#[trigger] covered[j]) ==> covered_among(covered, n) == 0,
    decreases n,
{
    if n > 0 {
        nothing_counts_nothing(covered, n - 1);
        if forall|j: int| 0 <= j < n ==> !#[trigger] covered[j] {
            assert(!covered[n - 1]);
        }
    }
}

/// A body is asked for where its own entry says so, and never in what is not there:
/// kernels have no tables, tables no kernels, and models neither.
pub proof fn sources_go_by_the_body(flags: [bool; BODY_COUNT], body: BodyId)
    ensures
        source_of(Backing::Kernels { covered: flags }, body) == Source::Kernel
            <==> flags@[body.index() as int],
        source_of(Backing::Tables { tabulated: flags }, body) == Source::Table
            <==> flags@[body.index() as int],
        source_of(Backing::Kernels { covered: flags }, body) != Source::Table,
        source_of(Backing::Tables { tabulated: flags }, body) != Source::Kernel,
        source_of(Backing::Models, body) == Source::Model,
{
}

/// The body in the origin is the Sun; a body with elements is on its ellipse; a moon
/// is on its circle, about the body whose system it belongs to.
pub proof fn models_go_by_the_tables(body: BodyId)
    ensures
        model(body) == Model::Origin <==> body.naif_id() == 10,
        model(body) == Model::Ellipse <==> elements_of(body) is Some,
        model(body) is Circle <==> body.moon_orbit_radius_km() > 0,
        model(body) matches Model::Circle { parent } ==> system_of(parent.naif_id() as int)
            == system_of(body.naif_id() as int) && parent != body,
{
}

/// A segment is one of the table, the nearest to the step asked for: going back or
/// forth past the ends changes nothing, and one step on is at most one segment on.
pub proof fn segments_follow_the_steps(floor: int, samples: int)
    requires
        samples >= 2,
    ensures
        0 <= segment_of(floor, samples) <= samples - 2,
        segment_of(floor, samples) <= segment_of(floor + 1, samples) <= segment_of(floor, samples)
            + 1,
        segment_of(0, samples) == 0 && segment_of(samples - 2, samples) == samples - 2,
{
}

/// Where kernels were loaded, what is told opens with their names, pluses between
/// them, and ends with how many of the bodies are covered.
pub proof fn fidelity_tells_names_and_coverage(loaded: Seq<Seq<char>>, covered: Seq<bool>)
    requires
        loaded.len() > 0,
    ensures
        tells_coverage(
            fidelity_text(loaded, covered),
            covered_among(covered, BODY_COUNT as int),
        ),
        ("SPICE: "@ + join(loaded, '+')).is_prefix_of(fidelity_text(loaded, covered)),
{
    let head = "SPICE: "@ + join(loaded, '+');
    let n = covered_among(covered, BODY_COUNT as int) as nat;
    let text = fidelity_text(loaded, covered);
    assert(head + " ("@ + decimal(n) + "/"@ + decimal(BODY_COUNT as nat) + " bodies)"@ == text);
    assert(head.is_prefix_of(text));
}

/// Every kernel of a directory is loaded. None goes by its name before the one that is
/// loaded first, and none after the last.
pub proof fn first_kernel_is_the_first_by_name(
    names: Seq<Seq<char>>,
    r: Seq<usize>,
    i: usize,
)
    requires
        is_load_order(names, r),
        i < names.len(),
        is_kernel_name(names[i as int]),
    ensures
        r.len() > 0,
        !text_before(names[i as int], names[r[0] as int]),
        !text_before(names[r.last() as int], names[i as int]),
        exists|p: int| 0 <= p < r.len() && #[trigger] r[p] == i,
{
    assert(r.contains(i));
    let p = choose|p: int| 0 <= p < r.len() && r[p] == i;
    names_are_ordered(names[i as int], names[i as int]);
    if p > 0 {
        assert(r[0] != r[p]);
    }
    if p < r.len() - 1 {
        assert(r[p] != r[r.len() - 1]);
    }
}

} // verus!
