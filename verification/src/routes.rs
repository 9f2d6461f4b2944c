//! Gravity-assist routes: which ones are worth screening, and how they are
//! named.

use crate::bodies::{is_letter, names_are_letters, BodyId};
use crate::problem::SolverConfig;
use crate::text::{chars_of, free_of, join, joined, split, split_undoes_join, text_of, views};
use vstd::prelude::*;

verus! {

// ---------------------------------------------------------------- alphabet

/// The orbit of `a` is more than 1.3 times as wide as that of `b`. By Kepler's
/// third law the cubes of the widths are as the squares of the periods.
pub open spec fn well_beyond(a: BodyId, b: BodyId) -> bool {
    1000 * (a.period_micro_days() * a.period_micro_days()) > 2197 * (b.period_micro_days()
        * b.period_micro_days())
}

fn is_well_beyond(a: BodyId, b: BodyId) -> (r: bool)
    ensures
        r == well_beyond(a, b),
{
    let ta: i128 = a.period_micro_days() as i128;
    let tb: i128 = b.period_micro_days() as i128;
    assert(0 <= ta * ta <= 1_000_000_000_000 * 1_000_000_000_000) by (nonlinear_arith)
        requires
            -1_000_000_000_000 <= ta <= 1_000_000_000_000,
    ;
    assert(0 <= tb * tb <= 1_000_000_000_000 * 1_000_000_000_000) by (nonlinear_arith)
        requires
            -1_000_000_000_000 <= tb <= 1_000_000_000_000,
    ;
    1000 * (ta * ta) > 2197 * (tb * tb)
}

/// Every assist body that may help a flight to `target`, whether or not the
/// target is among them.
pub open spec fn useful_bodies(target: BodyId) -> Seq<BodyId> {
    let inner = seq![BodyId::Venus, BodyId::Earth];
    let middle = if well_beyond(target, BodyId::Earth) {
        inner.push(BodyId::Mars)
    } else {
        inner
    };
    if well_beyond(target, BodyId::Jupiter) {
        middle.push(BodyId::Jupiter)
    } else {
        middle
    }
}

/// The first `n` of `s` that are not `x`.
pub open spec fn others(s: Seq<BodyId>, x: BodyId, n: int) -> Seq<BodyId>
    decreases n,
{
    if n <= 0 {
        Seq::empty()
    } else if s[n - 1] == x {
        others(s, x, n - 1)
    } else {
        others(s, x, n - 1).push(s[n - 1])
    }
}

/// Bodies worth flying past on the way to `target`.
pub open spec fn assist_bodies(target: BodyId) -> Seq<BodyId> {
    others(useful_bodies(target), target, useful_bodies(target).len() as int)
}

/// Bodies worth flying past on the way to `target`.
pub fn assist_alphabet(target: BodyId) -> (r: Vec<BodyId>)
    ensures
        r@ == assist_bodies(target),
{
    let mut all: Vec<BodyId> = Vec::new();
    all.push(BodyId::Venus);
    all.push(BodyId::Earth);
    if is_well_beyond(target, BodyId::Earth) {
        all.push(BodyId::Mars);
    }
    if is_well_beyond(target, BodyId::Jupiter) {
        all.push(BodyId::Jupiter);
    }
    assert(all@ =~= useful_bodies(target));
    let mut r: Vec<BodyId> = Vec::new();
    let mut i: usize = 0;
    while i < all.len()
        invariant
            i <= all.len(),
            r@ == others(all@, target, i as int),
        decreases all.len() - i,
    {
        if all[i] != target {
            r.push(all[i]);
        }
        i = i + 1;
    }
    r
}

// ---------------------------------------------------------------- routes

/// `a`, `b`, then each of the first `n` letters.
pub open spec fn triples(letters: Seq<BodyId>, a: BodyId, b: BodyId, n: int) -> Seq<Seq<BodyId>>
    decreases n,
{
    if n <= 0 {
        Seq::empty()
    } else {
        triples(letters, a, b, n - 1).push(seq![a, b, letters[n - 1]])
    }
}

/// `a`, then each of the first `n` letters, every pair followed by its
/// extensions.
pub open spec fn pairs(letters: Seq<BodyId>, a: BodyId, n: int) -> Seq<Seq<BodyId>>
    decreases n,
{
    if n <= 0 {
        Seq::empty()
    } else {
        pairs(letters, a, n - 1).push(seq![a, letters[n - 1]]) + triples(
            letters,
            a,
            letters[n - 1],
            letters.len() as int,
        )
    }
}

/// Each of the first `n` letters, followed by its extensions.
pub open spec fn singles(letters: Seq<BodyId>, n: int) -> Seq<Seq<BodyId>>
    decreases n,
{
    if n <= 0 {
        Seq::empty()
    } else {
        singles(letters, n - 1).push(seq![letters[n - 1]]) + pairs(
            letters,
            letters[n - 1],
            letters.len() as int,
        )
    }
}

/// The direct transfer, then every route of one to three assist bodies, each
/// route before its extensions.
pub open spec fn routes_to(target: BodyId) -> Seq<Seq<BodyId>> {
    seq![Seq::<BodyId>::empty()] + singles(
        assist_bodies(target),
        assist_bodies(target).len() as int,
    )
}

/// The bodies of each route.
pub open spec fn stops(routes: Seq<Vec<BodyId>>) -> Seq<Seq<BodyId>> {
    routes.map_values(|r: Vec<BodyId>| r@)
}

/// Candidate assist routes for a target, in the order in which they are
/// screened.
pub fn candidate_routes(target: BodyId) -> (r: Vec<Vec<BodyId>>)
    ensures
        stops(r@) == routes_to(target),
{
    let letters: Vec<BodyId> = assist_alphabet(target);
    let n: usize = letters.len();
    let ghost l = letters@;
    let mut r: Vec<Vec<BodyId>> = Vec::new();
    r.push(Vec::new());
    let ghost direct = seq![Seq::<BodyId>::empty()];
    assert(stops(r@) =~= direct + singles(l, 0));
    let mut i: usize = 0;
    while i < n
        invariant
            i <= n,
            n == letters.len(),
            l == letters@,
            stops(r@) == direct + singles(l, i as int),
        decreases n - i,
    {
        let a: BodyId = letters[i];
        let mut one: Vec<BodyId> = Vec::new();
        one.push(a);
        let ghost before = stops(r@);
        r.push(one);
        assert(one@ =~= seq![a]);
        let ghost head = before.push(seq![a]);
        assert(stops(r@) =~= head + pairs(l, a, 0));
        let mut j: usize = 0;
        while j < n
            invariant
                j <= n,
                n == letters.len(),
                l == letters@,
                stops(r@) == head + pairs(l, a, j as int),
            decreases n - j,
        {
            let b: BodyId = letters[j];
            let mut two: Vec<BodyId> = Vec::new();
            two.push(a);
            two.push(b);
            let ghost before2 = stops(r@);
            r.push(two);
            assert(two@ =~= seq![a, b]);
            let ghost head2 = before2.push(seq![a, b]);
            assert(stops(r@) =~= head2 + triples(l, a, b, 0));
            let mut k: usize = 0;
            while k < n
                invariant
                    k <= n,
                    n == letters.len(),
                    l == letters@,
                    stops(r@) == head2 + triples(l, a, b, k as int),
                decreases n - k,
            {
                let c: BodyId = letters[k];
                let mut three: Vec<BodyId> = Vec::new();
                three.push(a);
                three.push(b);
                three.push(c);
                let ghost before3 = stops(r@);
                r.push(three);
                assert(three@ =~= seq![a, b, c]);
                assert(stops(r@) =~= before3.push(three@));
                assert(before3.push(three@) =~= head2 + triples(l, a, b, k + 1));
                k = k + 1;
            }
            assert(head2 + triples(l, a, b, n as int) =~= head + pairs(l, a, j + 1));
            j = j + 1;
        }
        assert(head + pairs(l, a, n as int) =~= direct + singles(l, i + 1));
        i = i + 1;
    }
    r
}

// ---------------------------------------------------------------- names

/// First letters joined by hyphens; a route without stops is direct.
pub open spec fn short_name(route: Seq<BodyId>) -> Seq<char> {
    if route.len() == 0 {
        "direct"@
    } else {
        join(route.map_values(|b: BodyId| seq![b.name()@[0]]), '-')
    }
}

/// Short name of a route.
pub fn route_name(route: &Vec<BodyId>) -> (r: String)
    ensures
        r@ == short_name(route@),
{
    if route.len() == 0 {
        let plain: Vec<char> = chars_of("direct");
        return text_of(&plain);
    }
    let mut parts: Vec<Vec<char>> = Vec::new();
    let mut i: usize = 0;
    while i < route.len()
        invariant
            i <= route.len(),
            parts.len() == i,
            forall|j: int|
                0 <= j < i ==> (#[trigger] parts@[j])@ == seq![route@[j].name()@[0]],
        decreases route.len() - i,
    {
        let name: Vec<char> = chars_of(route[i].name());
        proof {
            names_are_letters(route@[i as int]);
        }
        let mut letter: Vec<char> = Vec::new();
        letter.push(name[0]);
        assert(letter@ =~= seq![route@[i as int].name()@[0]]);
        parts.push(letter);
        i = i + 1;
    }
    assert(views(parts@) =~= route@.map_values(|b: BodyId| seq![b.name()@[0]]));
    let whole: Vec<char> = joined(&parts, '-');
    text_of(&whole)
}

/// Names of the bodies.
pub open spec fn names(route: Seq<BodyId>) -> Seq<Seq<char>> {
    route.map_values(|b: BodyId| b.name()@)
}

/// Names of the bodies.
pub fn names_of(route: &Vec<BodyId>) -> (r: Vec<Vec<char>>)
    ensures
        views(r@) == names(route@),
{
    let mut r: Vec<Vec<char>> = Vec::new();
    let mut i: usize = 0;
    while i < route.len()
        invariant
            i <= route.len(),
            r.len() == i,
            forall|j: int| 0 <= j < i ==> (#[trigger] r@[j])@ == route@[j].name()@,
        decreases route.len() - i,
    {
        r.push(chars_of(route[i].name()));
        i = i + 1;
    }
    assert(views(r@) =~= names(route@));
    r
}

/// What is told of a request's route before the search starts.
pub open spec fn announced_route(auto_route: bool, route: Seq<BodyId>) -> Seq<char> {
    if auto_route {
        "auto (discovering)"@
    } else if route.len() == 0 {
        "direct"@
    } else {
        join(names(route), '-')
    }
}

/// What is told of a request's route before the search starts.
pub fn route_text(cfg: &SolverConfig) -> (r: String)
    ensures
        r@ == announced_route(cfg.auto_route, cfg.route@),
{
    let told: Vec<char> = if cfg.auto_route {
        chars_of("auto (discovering)")
    } else if cfg.route.len() == 0 {
        chars_of("direct")
    } else {
        let parts: Vec<Vec<char>> = names_of(&cfg.route);
        joined(&parts, '-')
    };
    text_of(&told)
}

// ---------------------------------------------------------------- laws

/// A sequence of one to three letters out of `letters`, or none.
pub open spec fn spelled(letters: Seq<BodyId>, r: Seq<BodyId>) -> bool {
    r.len() <= 3 && forall|i: int| 0 <= i < r.len() ==> letters.contains(#[trigger] r[i])
}

proof fn others_leave_out(s: Seq<BodyId>, x: BodyId, n: int)
    requires
        0 <= n <= s.len(),
    ensures
        forall|b: BodyId|
            #[trigger] others(s, x, n).contains(b) <==> b != x && s.take(n).contains(b),
        s.take(n).no_duplicates() ==> others(s, x, n).no_duplicates(),
        others(s, x, n).len() <= n,
    decreases n,
{
    if n > 0 {
        others_leave_out(s, x, n - 1);
        let prev = others(s, x, n - 1);
        let all = others(s, x, n);
        let last = s[n - 1];
        let head = s.take(n - 1);
        let full = s.take(n);
        assert(full =~= head.push(last));
        assert(full[n - 1] == last);
        assert forall|b: BodyId| #[trigger] all.contains(b) <==> b != x && full.contains(
            b,
        ) by {
            if head.contains(b) {
                let i = choose|i: int| 0 <= i < head.len() && head[i] == b;
                assert(full[i] == b);
            }
            if prev.contains(b) {
                let i = choose|i: int| 0 <= i < prev.len() && prev[i] == b;
                assert(all[i] == b);
            }
            if full.contains(b) && b != last {
                let i = choose|i: int| 0 <= i < full.len() && full[i] == b;
                assert(head[i] == b);
            }
            if last != x {
                assert(all[all.len() - 1] == last);
                if all.contains(b) && b != last {
                    let i = choose|i: int| 0 <= i < all.len() && all[i] == b;
                    assert(prev[i] == b);
                }
            }
        }
        if full.no_duplicates() {
            assert(head.no_duplicates()) by {
                assert forall|i: int, j: int| 0 <= i < n - 1 && 0 <= j < n - 1 && i
                    != j implies head[i] != head[j] by {
                    assert(full[i] != full[j]);
                }
            }
            assert(!prev.contains(last)) by {
                if head.contains(last) {
                    let i = choose|i: int| 0 <= i < head.len() && head[i] == last;
                    assert(full[i] == full[n - 1]);
                }
            }
        }
    } else {
        assert(others(s, x, n) =~= Seq::empty());
    }
}

/// The assist bodies of a target are one to four planets, none of them twice
/// and none of them the target itself.
pub proof fn assist_bodies_are_distinct_planets(target: BodyId)
    ensures
        assist_bodies(target).no_duplicates(),
        !assist_bodies(target).contains(target),
        1 <= assist_bodies(target).len() <= 4,
        forall|b: BodyId|
            #[trigger] assist_bodies(target).contains(b) ==> b == BodyId::Venus || b
                == BodyId::Earth || b == BodyId::Mars || b == BodyId::Jupiter,
{
    let u = useful_bodies(target);
    others_leave_out(u, target, u.len() as int);
    assert(u.take(u.len() as int) =~= u);
    assert(u.contains(BodyId::Venus)) by {
        assert(u[0] == BodyId::Venus);
    }
    assert(u.contains(BodyId::Earth)) by {
        assert(u[1] == BodyId::Earth);
    }
    let a = assist_bodies(target);
    assert(a.contains(BodyId::Venus) || a.contains(BodyId::Earth));
    assert forall|b: BodyId| #[trigger] a.contains(b) implies b == BodyId::Venus || b
        == BodyId::Earth || b == BodyId::Mars || b == BodyId::Jupiter by {
        assert(u.contains(b));
    }
}

proof fn member_of_spliced(s: Seq<Seq<BodyId>>, x: Seq<BodyId>, t: Seq<Seq<BodyId>>)
    ensures
        forall|r: Seq<BodyId>|
            #[trigger] (s.push(x) + t).contains(r) <==> s.contains(r) || r == x || t.contains(r),
        s.no_duplicates() && t.no_duplicates() && !s.contains(x) && !t.contains(x) && (forall|
            r: Seq<BodyId>,
        |
            !(#[trigger] s.contains(r) && t.contains(r))) ==> (s.push(x) + t).no_duplicates(),
{
    let all = s.push(x) + t;
    assert forall|r: Seq<BodyId>| #[trigger] all.contains(r) <==> s.contains(r) || r == x
        || t.contains(r) by {
        if s.contains(r) {
            let i = choose|i: int| 0 <= i < s.len() && s[i] == r;
            assert(all[i] == r);
        }
        if r == x {
            assert(all[s.len() as int] == r);
        }
        if t.contains(r) {
            let i = choose|i: int| 0 <= i < t.len() && t[i] == r;
            assert(all[s.len() + 1 + i] == r);
        }
        if all.contains(r) {
            let i = choose|i: int| 0 <= i < all.len() && all[i] == r;
            if i < s.len() {
                assert(s[i] == r);
            } else if i > s.len() {
                assert(t[i - s.len() - 1] == r);
            }
        }
    }
    if s.no_duplicates() && t.no_duplicates() && !s.contains(x) && !t.contains(x) && (forall|
        r: Seq<BodyId>,
    |
        !(#[trigger] s.contains(r) && t.contains(r))) {
        assert forall|i: int, j: int| 0 <= i < j < all.len() implies all[i] != all[j] by {
            if i < s.len() {
                assert(s.contains(s[i]));
                if j > s.len() {
                    assert(t.contains(t[j - s.len() - 1]));
                }
            } else if j > s.len() {
                assert(t.contains(t[j - s.len() - 1]));
            }
        }
    }
}

proof fn longer_prefix(l: Seq<BodyId>, n: int)
    requires
        0 < n <= l.len(),
    ensures
        forall|b: BodyId|
            #[trigger] l.take(n).contains(b) <==> l.take(n - 1).contains(b) || b == l[n - 1],
        l.no_duplicates() ==> !l.take(n - 1).contains(l[n - 1]),
{
    let full = l.take(n);
    let head = l.take(n - 1);
    assert forall|b: BodyId| #[trigger] full.contains(b) <==> head.contains(b) || b == l[n - 1] by {
        if full.contains(b) {
            let i = choose|i: int| 0 <= i < full.len() && full[i] == b;
            if i < n - 1 {
                assert(head[i] == b);
            }
        }
        if head.contains(b) {
            let i = choose|i: int| 0 <= i < head.len() && head[i] == b;
            assert(full[i] == b);
        }
        assert(full[n - 1] == l[n - 1]);
    }
    if l.no_duplicates() && head.contains(l[n - 1]) {
        let i = choose|i: int| 0 <= i < head.len() && head[i] == l[n - 1];
        assert(l[i] == l[n - 1]);
    }
}

proof fn triples_hold(l: Seq<BodyId>, a: BodyId, b: BodyId, n: int)
    requires
        0 <= n <= l.len(),
    ensures
        triples(l, a, b, n).len() == n,
        forall|r: Seq<BodyId>|
            #[trigger] triples(l, a, b, n).contains(r) <==> r.len() == 3 && r[0] == a && r[1] == b
                && l.take(n).contains(r[2]),
        l.no_duplicates() ==> triples(l, a, b, n).no_duplicates(),
    decreases n,
{
    if n > 0 {
        triples_hold(l, a, b, n - 1);
        let head = triples(l, a, b, n - 1);
        let x = seq![a, b, l[n - 1]];
        let none = Seq::<Seq<BodyId>>::empty();
        member_of_spliced(head, x, none);
        assert(head.push(x) + none =~= triples(l, a, b, n));
        longer_prefix(l, n);
        assert forall|r: Seq<BodyId>|
            #[trigger] triples(l, a, b, n).contains(r) <==> r.len() == 3 && r[0] == a && r[1] == b
                && l.take(n).contains(r[2]) by {
            if r.len() == 3 && r[0] == a && r[1] == b && r[2] == l[n - 1] {
                assert(r =~= x);
            }
            assert((head.push(x) + none).contains(r) <==> head.contains(r) || r == x
                || none.contains(r));
        }
    }
}

proof fn pairs_hold(l: Seq<BodyId>, a: BodyId, n: int)
    requires
        0 <= n <= l.len(),
    ensures
        pairs(l, a, n).len() == n * (1 + l.len()),
        forall|r: Seq<BodyId>|
            #[trigger] pairs(l, a, n).contains(r) <==> 2 <= r.len() <= 3 && r[0] == a && l.take(
                n,
            ).contains(r[1]) && (r.len() == 3 ==> l.contains(r[2])),
        l.no_duplicates() ==> pairs(l, a, n).no_duplicates(),
    decreases n,
{
    let len = l.len() as int;
    if n > 0 {
        pairs_hold(l, a, n - 1);
        let b = l[n - 1];
        triples_hold(l, a, b, len);
        assert(l.take(len) =~= l);
        let head = pairs(l, a, n - 1);
        let x = seq![a, b];
        let tail = triples(l, a, b, len);
        member_of_spliced(head, x, tail);
        longer_prefix(l, n);
        assert(n * (1 + len) == (n - 1) * (1 + len) + 1 + len) by (nonlinear_arith);
        assert forall|r: Seq<BodyId>|
            #[trigger] pairs(l, a, n).contains(r) <==> 2 <= r.len() <= 3 && r[0] == a && l.take(
                n,
            ).contains(r[1]) && (r.len() == 3 ==> l.contains(r[2])) by {
            if r.len() == 2 && r[0] == a && r[1] == b {
                assert(r =~= x);
            }
            assert((head.push(x) + tail).contains(r) <==> head.contains(r) || r == x
                || tail.contains(r));
        }
        if l.no_duplicates() {
            assert forall|r: Seq<BodyId>| !(#[trigger] head.contains(r) && tail.contains(r)) by {
            }
        }
    } else {
        assert(n * (1 + len) == 0) by (nonlinear_arith)
            requires
                n == 0,
        ;
    }
}

proof fn singles_hold(l: Seq<BodyId>, n: int)
    requires
        0 <= n <= l.len(),
    ensures
        singles(l, n).len() == n * (1 + l.len() * (1 + l.len())),
        forall|r: Seq<BodyId>|
            #[trigger] singles(l, n).contains(r) <==> 1 <= r.len() <= 3 && l.take(n).contains(r[0])
                && (r.len() >= 2 ==> l.contains(r[1])) && (r.len() == 3 ==> l.contains(r[2])),
        l.no_duplicates() ==> singles(l, n).no_duplicates(),
    decreases n,
{
    let len = l.len() as int;
    if n > 0 {
        singles_hold(l, n - 1);
        let a = l[n - 1];
        pairs_hold(l, a, len);
        assert(l.take(len) =~= l);
        let head = singles(l, n - 1);
        let x = seq![a];
        let tail = pairs(l, a, len);
        member_of_spliced(head, x, tail);
        longer_prefix(l, n);
        assert(n * (1 + len * (1 + len)) == (n - 1) * (1 + len * (1 + len)) + 1 + len * (1 + len))
            by (nonlinear_arith);
        assert forall|r: Seq<BodyId>|
            #[trigger] singles(l, n).contains(r) <==> 1 <= r.len() <= 3 && l.take(n).contains(r[0])
                && (r.len() >= 2 ==> l.contains(r[1])) && (r.len() == 3 ==> l.contains(r[2])) by {
            if r.len() == 1 && r[0] == a {
                assert(r =~= x);
            }
            assert((head.push(x) + tail).contains(r) <==> head.contains(r) || r == x
                || tail.contains(r));
        }
        if l.no_duplicates() {
            assert forall|r: Seq<BodyId>| !(#[trigger] head.contains(r) && tail.contains(r)) by {
            }
        }
    } else {
        assert(n * (1 + len * (1 + len)) == 0) by (nonlinear_arith)
            requires
                n == 0,
        ;
    }
}

/// The candidate routes are exactly the sequences of up to three assist
/// bodies: the direct transfer comes first and no route comes twice.
pub proof fn routes_are_the_short_sequences(target: BodyId)
    ensures
        routes_to(target)[0].len() == 0,
        routes_to(target).no_duplicates(),
        forall|r: Seq<BodyId>|
            #[trigger] routes_to(target).contains(r) <==> spelled(assist_bodies(target), r),
        ({
            let n = assist_bodies(target).len();
            routes_to(target).len() == 1 + n + n * n + n * n * n
        }),
{
    let l = assist_bodies(target);
    let n = l.len() as int;
    assist_bodies_are_distinct_planets(target);
    singles_hold(l, n);
    assert(l.take(n) =~= l);
    let none = Seq::<Seq<BodyId>>::empty();
    let x = Seq::<BodyId>::empty();
    let tail = singles(l, n);
    member_of_spliced(none, x, tail);
    assert(none.push(x) + tail =~= routes_to(target));
    assert forall|r: Seq<BodyId>| #[trigger] routes_to(target).contains(r) <==> spelled(l, r) by {
        assert((none.push(x) + tail).contains(r) <==> none.contains(r) || r == x || tail.contains(
            r,
        ));
        if r.len() == 0 {
            assert(r =~= x);
        }
        if tail.contains(r) {
            assert forall|i: int| 0 <= i < r.len() implies l.contains(#[trigger] r[i]) by {
                assert(i == 0 || i == 1 || i == 2);
            }
        }
    }
    assert(n * (1 + n * (1 + n)) == n + n * n + n * n * n) by (nonlinear_arith);
}

/// No candidate route flies past the target before arriving there.
pub proof fn no_route_visits_the_target(target: BodyId, k: int)
    requires
        0 <= k < routes_to(target).len(),
    ensures
        !routes_to(target)[k].contains(target),
        routes_to(target)[k].len() <= 3,
{
    routes_are_the_short_sequences(target);
    assist_bodies_are_distinct_planets(target);
    let r = routes_to(target)[k];
    assert(routes_to(target).contains(r));
    assert(spelled(assist_bodies(target), r));
    if r.contains(target) {
        let i = choose|i: int| 0 <= i < r.len() && r[i] == target;
        assert(assist_bodies(target).contains(r[i]));
    }
}

// ---------------------------------------------------------------- order

/// The place of stop `i` of a route among the letters, counted from one; nothing
/// past the end.
pub open spec fn stop_digit(l: Seq<BodyId>, r: Seq<BodyId>, i: int) -> int {
    if i < r.len() {
        l.index_of(r[i]) + 1
    } else {
        0
    }
}

/// A route read as a number of three digits: routes that come before others in a
/// dictionary have lower numbers, and a route comes before its extensions.
pub open spec fn entry_number(l: Seq<BodyId>, r: Seq<BodyId>) -> int {
    let m = l.len() + 1;
    stop_digit(l, r, 0) * (m * m) + stop_digit(l, r, 1) * m + stop_digit(l, r, 2)
}

/// The numbers of a list of routes rise, from `lo` to `hi` at most.
spec fn rise(l: Seq<BodyId>, s: Seq<Seq<BodyId>>, lo: int, hi: int) -> bool {
    &&& forall|p: int| 0 <= p < s.len() ==> lo <= #[trigger] entry_number(l, s[p]) <= hi
    &&& forall|p: int, q: int|
        0 <= p < q < s.len() ==> #[trigger] entry_number(l, s[p]) < #[trigger] entry_number(l, s[q])
}

proof fn rises_on(
    l: Seq<BodyId>,
    s: Seq<Seq<BodyId>>,
    x: Seq<BodyId>,
    t: Seq<Seq<BodyId>>,
    lo: int,
    mid: int,
    hi: int,
)
    requires
        rise(l, s, lo, mid),
        rise(l, t, entry_number(l, x) + 1, hi),
        mid < entry_number(l, x) <= hi,
        lo <= entry_number(l, x),
    ensures
        rise(l, s.push(x) + t, lo, hi),
{
    let all = s.push(x) + t;
    let n = s.len() as int;
    assert forall|p: int| 0 <= p < all.len() implies lo <= #[trigger] entry_number(l, all[p])
        <= hi by {
        if p < n {
            assert(all[p] == s[p]);
            assert(lo <= entry_number(l, s[p]) <= mid);
        } else if p > n {
            assert(all[p] == t[p - n - 1]);
            assert(entry_number(l, x) + 1 <= entry_number(l, t[p - n - 1]) <= hi);
        }
    }
    assert forall|p: int, q: int| 0 <= p < q < all.len() implies #[trigger] entry_number(
        l,
        all[p],
    ) < #[trigger] entry_number(l, all[q]) by {
        if p < n {
            assert(all[p] == s[p]);
            assert(entry_number(l, s[p]) <= mid);
        } else if p > n {
            assert(all[p] == t[p - n - 1]);
        }
        if q < n {
            assert(all[q] == s[q]);
        } else if q > n {
            assert(all[q] == t[q - n - 1]);
            assert(entry_number(l, x) + 1 <= entry_number(l, t[q - n - 1]));
        }
    }
}

proof fn letter_is_found(l: Seq<BodyId>, k: int)
    requires
        l.no_duplicates(),
        0 <= k < l.len(),
    ensures
        l.index_of(l[k]) == k,
{
}

proof fn triples_rise(l: Seq<BodyId>, a: int, b: int, n: int)
    requires
        l.no_duplicates(),
        0 <= a < l.len(),
        0 <= b < l.len(),
        0 <= n <= l.len(),
    ensures
        ({
            let m = l.len() + 1;
            let at = (a + 1) * (m * m) + (b + 1) * m;
            rise(l, triples(l, l[a], l[b], n), at + 1, at + n)
        }),
    decreases n,
{
    let m = l.len() + 1;
    let at = (a + 1) * (m * m) + (b + 1) * m;
    if n > 0 {
        triples_rise(l, a, b, n - 1);
        letter_is_found(l, a);
        letter_is_found(l, b);
        letter_is_found(l, n - 1);
        let head = triples(l, l[a], l[b], n - 1);
        let x = seq![l[a], l[b], l[n - 1]];
        let none = Seq::<Seq<BodyId>>::empty();
        assert(entry_number(l, x) == at + n);
        rises_on(l, head, x, none, at + 1, at + n - 1, at + n);
        assert(head.push(x) + none =~= triples(l, l[a], l[b], n));
    }
}

proof fn pairs_rise(l: Seq<BodyId>, a: int, n: int)
    requires
        l.no_duplicates(),
        0 <= a < l.len(),
        0 <= n <= l.len(),
    ensures
        ({
            let m = l.len() + 1;
            let at = (a + 1) * (m * m);
            rise(l, pairs(l, l[a], n), at + 1, at + n * m + m - 1)
        }),
    decreases n,
{
    let m = l.len() + 1;
    let at = (a + 1) * (m * m);
    if n > 0 {
        pairs_rise(l, a, n - 1);
        triples_rise(l, a, n - 1, l.len() as int);
        letter_is_found(l, a);
        letter_is_found(l, n - 1);
        let head = pairs(l, l[a], n - 1);
        let x = seq![l[a], l[n - 1]];
        let tail = triples(l, l[a], l[n - 1], l.len() as int);
        assert(entry_number(l, x) == at + n * m);
        assert((n - 1) * m + m == n * m) by (nonlinear_arith);
        assert(n * m >= m) by (nonlinear_arith)
            requires
                n >= 1,
                m >= 1,
        ;
        rises_on(l, head, x, tail, at + 1, at + (n - 1) * m + m - 1, at + n * m + m - 1);
    }
}

proof fn singles_rise(l: Seq<BodyId>, n: int)
    requires
        l.no_duplicates(),
        0 <= n <= l.len(),
    ensures
        ({
            let m = l.len() + 1;
            rise(l, singles(l, n), 1, n * (m * m) + m * m - 1)
        }),
    decreases n,
{
    let m = l.len() + 1;
    let len = l.len() as int;
    if n > 0 {
        singles_rise(l, n - 1);
        pairs_rise(l, n - 1, len);
        letter_is_found(l, n - 1);
        let head = singles(l, n - 1);
        let x = seq![l[n - 1]];
        let tail = pairs(l, l[n - 1], len);
        assert(entry_number(l, x) == n * (m * m));
        assert(len * m + m - 1 == m * m - 1) by (nonlinear_arith)
            requires
                len == m - 1,
        ;
        assert((n - 1) * (m * m) + m * m == n * (m * m)) by (nonlinear_arith);
        assert(n * (m * m) >= 1 && m * m >= 1) by (nonlinear_arith)
            requires
                n >= 1,
                m >= 1,
        ;
        rises_on(
            l,
            head,
            x,
            tail,
            1,
            (n - 1) * (m * m) + m * m - 1,
            n * (m * m) + m * m - 1,
        );
    }
}

/// The routes are screened in the order of a dictionary whose letters are the assist
/// bodies: each before its extensions, and all that open with one body before those
/// that open with the next.
pub proof fn routes_stand_in_dictionary_order(target: BodyId, p: int, q: int)
    requires
        0 <= p < q < routes_to(target).len(),
    ensures
        entry_number(assist_bodies(target), routes_to(target)[p]) < entry_number(
            assist_bodies(target),
            routes_to(target)[q],
        ),
{
    let l = assist_bodies(target);
    assist_bodies_are_distinct_planets(target);
    singles_rise(l, l.len() as int);
    let s = singles(l, l.len() as int);
    assert(routes_to(target)[q] == s[q - 1]);
    assert(1 <= entry_number(l, s[q - 1]));
    if p > 0 {
        assert(routes_to(target)[p] == s[p - 1]);
    } else {
        assert(entry_number(l, routes_to(target)[0]) == 0) by (nonlinear_arith)
            requires
                stop_digit(l, routes_to(target)[0], 0) == 0,
                stop_digit(l, routes_to(target)[0], 1) == 0,
                stop_digit(l, routes_to(target)[0], 2) == 0,
        ;
    }
}

/// The assist bodies stand by their distance from the Sun; the inner two serve every
/// target but themselves, Mars and Jupiter those whose orbits are wide enough.
pub proof fn assist_bodies_stand_outwards(target: BodyId, i: int, j: int)
    requires
        0 <= i < j < assist_bodies(target).len(),
    ensures
        assist_bodies(target)[i].period_micro_days() < assist_bodies(target)[j].period_micro_days(),
{
    let u = useful_bodies(target);
    reveal_with_fuel(others, 5);
    assert(u.len() == 2 || u.len() == 3 || u.len() == 4);
}

/// A route is named by as many letters as it has stops, hyphens between them, each
/// the first of its body's name; a route without stops is called direct.
pub proof fn short_names_spell_the_stops(route: Seq<BodyId>)
    ensures
        route.len() == 0 ==> short_name(route) == "direct"@,
        route.len() > 0 ==> split(short_name(route), '-').len() == route.len() && forall|i: int|
            0 <= i < route.len() ==> #[trigger] split(short_name(route), '-')[i] == seq![
                route[i].name()@[0],
            ],
{
    if route.len() > 0 {
        let parts = route.map_values(|b: BodyId| seq![b.name()@[0]]);
        assert forall|i: int| 0 <= i < parts.len() implies free_of(#[trigger] parts[i], '-') by {
            names_are_letters(route[i]);
        }
        split_undoes_join(parts, '-');
    }
}

/// What is told of a route names its bodies in full, hyphens between them, unless it
/// is still to be discovered.
pub proof fn announcements_name_the_bodies(route: Seq<BodyId>)
    ensures
        announced_route(true, route) == "auto (discovering)"@,
        route.len() == 0 ==> announced_route(false, route) == short_name(route),
        route.len() > 0 ==> split(announced_route(false, route), '-') == names(route),
{
    if route.len() > 0 {
        let parts = names(route);
        assert forall|i: int| 0 <= i < parts.len() implies free_of(#[trigger] parts[i], '-') by {
            names_are_letters(route[i]);
            assert forall|j: int| 0 <= j < parts[i].len() implies parts[i][j] != '-' by {
                assert(is_letter(route[i].name()@[j]));
            }
        }
        split_undoes_join(parts, '-');
    }
}

} // verus!
