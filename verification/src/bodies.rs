//! The bodies with a meaningful pull on a spacecraft: the Sun, the planets,
//! Earth's Moon, the Galilean moons, Titan, Triton, Pluto, and the four most
//! massive main-belt asteroids.

use crate::text::{
    chars_of, lower, same_ignoring_case, same_letters, spelling, spelling_adds_up, spelling_to,
};
use vstd::prelude::*;

verus! {

#[derive(Clone, Copy, Debug, PartialEq, Eq, Hash, Structural)]
pub enum BodyId {
    Sun,
    Mercury,
    Venus,
    Earth,
    Moon,
    Mars,
    Jupiter,
    Saturn,
    Uranus,
    Neptune,
    Pluto,
    Io,
    Europa,
    Ganymede,
    Callisto,
    Titan,
    Triton,
    Ceres,
    Vesta,
    Pallas,
    Hygiea,
}

/// How many bodies the catalogue holds.
pub const BODY_COUNT: usize = 21;

/// Every body, in catalogue order.
pub const ALL_BODIES: [BodyId; 21] = [
    BodyId::Sun,
    BodyId::Mercury,
    BodyId::Venus,
    BodyId::Earth,
    BodyId::Moon,
    BodyId::Mars,
    BodyId::Jupiter,
    BodyId::Saturn,
    BodyId::Uranus,
    BodyId::Neptune,
    BodyId::Pluto,
    BodyId::Io,
    BodyId::Europa,
    BodyId::Ganymede,
    BodyId::Callisto,
    BodyId::Titan,
    BodyId::Triton,
    BodyId::Ceres,
    BodyId::Vesta,
    BodyId::Pallas,
    BodyId::Hygiea,
];

impl BodyId {
    /// Position in [`ALL_BODIES`].
    #[verifier::allow_in_spec]
    pub fn index(self) -> usize
        returns
            (match self {
                BodyId::Sun => 0usize,
                BodyId::Mercury => 1usize,
                BodyId::Venus => 2usize,
                BodyId::Earth => 3usize,
                BodyId::Moon => 4usize,
                BodyId::Mars => 5usize,
                BodyId::Jupiter => 6usize,
                BodyId::Saturn => 7usize,
                BodyId::Uranus => 8usize,
                BodyId::Neptune => 9usize,
                BodyId::Pluto => 10usize,
                BodyId::Io => 11usize,
                BodyId::Europa => 12usize,
                BodyId::Ganymede => 13usize,
                BodyId::Callisto => 14usize,
                BodyId::Titan => 15usize,
                BodyId::Triton => 16usize,
                BodyId::Ceres => 17usize,
                BodyId::Vesta => 18usize,
                BodyId::Pallas => 19usize,
                BodyId::Hygiea => 20usize,
            }),
    {
        match self {
            BodyId::Sun => 0,
            BodyId::Mercury => 1,
            BodyId::Venus => 2,
            BodyId::Earth => 3,
            BodyId::Moon => 4,
            BodyId::Mars => 5,
            BodyId::Jupiter => 6,
            BodyId::Saturn => 7,
            BodyId::Uranus => 8,
            BodyId::Neptune => 9,
            BodyId::Pluto => 10,
            BodyId::Io => 11,
            BodyId::Europa => 12,
            BodyId::Ganymede => 13,
            BodyId::Callisto => 14,
            BodyId::Titan => 15,
            BodyId::Triton => 16,
            BodyId::Ceres => 17,
            BodyId::Vesta => 18,
            BodyId::Pallas => 19,
            BodyId::Hygiea => 20,
        }
    }

    #[verifier::allow_in_spec]
    pub fn name(self) -> &'static str
        returns
            (match self {
                BodyId::Sun => "Sun",
                BodyId::Mercury => "Mercury",
                BodyId::Venus => "Venus",
                BodyId::Earth => "Earth",
                BodyId::Moon => "Moon",
                BodyId::Mars => "Mars",
                BodyId::Jupiter => "Jupiter",
                BodyId::Saturn => "Saturn",
                BodyId::Uranus => "Uranus",
                BodyId::Neptune => "Neptune",
                BodyId::Pluto => "Pluto",
                BodyId::Io => "Io",
                BodyId::Europa => "Europa",
                BodyId::Ganymede => "Ganymede",
                BodyId::Callisto => "Callisto",
                BodyId::Titan => "Titan",
                BodyId::Triton => "Triton",
                BodyId::Ceres => "Ceres",
                BodyId::Vesta => "Vesta",
                BodyId::Pallas => "Pallas",
                BodyId::Hygiea => "Hygiea",
            }),
    {
        match self {
            BodyId::Sun => "Sun",
            BodyId::Mercury => "Mercury",
            BodyId::Venus => "Venus",
            BodyId::Earth => "Earth",
            BodyId::Moon => "Moon",
            BodyId::Mars => "Mars",
            BodyId::Jupiter => "Jupiter",
            BodyId::Saturn => "Saturn",
            BodyId::Uranus => "Uranus",
            BodyId::Neptune => "Neptune",
            BodyId::Pluto => "Pluto",
            BodyId::Io => "Io",
            BodyId::Europa => "Europa",
            BodyId::Ganymede => "Ganymede",
            BodyId::Callisto => "Callisto",
            BodyId::Titan => "Titan",
            BodyId::Triton => "Triton",
            BodyId::Ceres => "Ceres",
            BodyId::Vesta => "Vesta",
            BodyId::Pallas => "Pallas",
            BodyId::Hygiea => "Hygiea",
        }
    }

    /// Parent planet of a moon; `None` for a heliocentric body.
    #[verifier::allow_in_spec]
    pub fn parent(self) -> Option<BodyId>
        returns
            (match self {
                BodyId::Moon => Some(BodyId::Earth),
                BodyId::Io | BodyId::Europa | BodyId::Ganymede | BodyId::Callisto => Some(
                    BodyId::Jupiter,
                ),
                BodyId::Titan => Some(BodyId::Saturn),
                BodyId::Triton => Some(BodyId::Neptune),
                _ => None,
            }),
    {
        match self {
            BodyId::Moon => Some(BodyId::Earth),
            BodyId::Io | BodyId::Europa | BodyId::Ganymede | BodyId::Callisto => Some(
                BodyId::Jupiter,
            ),
            BodyId::Titan => Some(BodyId::Saturn),
            BodyId::Triton => Some(BodyId::Neptune),
            _ => None,
        }
    }

    /// NAIF integer identifier for SPICE queries.
    #[verifier::allow_in_spec]
    pub fn naif_id(self) -> i32
        returns
            (match self {
                BodyId::Sun => 10i32,
                BodyId::Mercury => 199i32,
                BodyId::Venus => 299i32,
                BodyId::Earth => 399i32,
                BodyId::Moon => 301i32,
                BodyId::Mars => 4i32,
                BodyId::Jupiter => 5i32,
                BodyId::Saturn => 6i32,
                BodyId::Uranus => 7i32,
                BodyId::Neptune => 8i32,
                BodyId::Pluto => 9i32,
                BodyId::Io => 501i32,
                BodyId::Europa => 502i32,
                BodyId::Ganymede => 503i32,
                BodyId::Callisto => 504i32,
                BodyId::Titan => 606i32,
                BodyId::Triton => 801i32,
                BodyId::Ceres => 2_000_001i32,
                BodyId::Vesta => 2_000_004i32,
                BodyId::Pallas => 2_000_002i32,
                BodyId::Hygiea => 2_000_010i32,
            }),
    {
        match self {
            BodyId::Sun => 10,
            BodyId::Mercury => 199,
            BodyId::Venus => 299,
            BodyId::Earth => 399,
            BodyId::Moon => 301,
            BodyId::Mars => 4,
            BodyId::Jupiter => 5,
            BodyId::Saturn => 6,
            BodyId::Uranus => 7,
            BodyId::Neptune => 8,
            BodyId::Pluto => 9,
            BodyId::Io => 501,
            BodyId::Europa => 502,
            BodyId::Ganymede => 503,
            BodyId::Callisto => 504,
            BodyId::Titan => 606,
            BodyId::Triton => 801,
            BodyId::Ceres => 2_000_001,
            BodyId::Vesta => 2_000_004,
            BodyId::Pallas => 2_000_002,
            BodyId::Hygiea => 2_000_010,
        }
    }
}

/// The body whose name is `s` up to ASCII case.
pub open spec fn body_named(s: Seq<char>) -> Option<BodyId> {
    if exists|b: BodyId| same_letters(#[trigger] b.name()@, s) {
        Some(choose|b: BodyId| same_letters(#[trigger] b.name()@, s))
    } else {
        None
    }
}

/// The body whose name is `s` up to ASCII case.
pub fn find_body(s: &Vec<char>) -> (r: Option<BodyId>)
    ensures
        r == body_named(s@),
{
    let mut i: usize = 0;
    while i < BODY_COUNT
        invariant
            i <= BODY_COUNT,
            forall|j: int|
                0 <= j < i ==> !same_letters((#[trigger] ALL_BODIES@[j]).name()@, s@),
        decreases BODY_COUNT - i,
    {
        let b: BodyId = ALL_BODIES[i];
        let name: Vec<char> = chars_of(b.name());
        if same_ignoring_case(&name, s) {
            proof {
                assert(same_letters(b.name()@, s@));
                let c = choose|c: BodyId| same_letters(#[trigger] c.name()@, s@);
                names_tell_bodies_apart(b, c, s@);
            }
            return Some(b);
        }
        i = i + 1;
    }
    proof {
        assert forall|b: BodyId| !same_letters(#[trigger] b.name()@, s@) by {
            index_points_back(b);
            assert(ALL_BODIES@[b.index() as int] == b);
        }
    }
    None
}

/// `index` and the catalogue array point at each other.
pub proof fn index_points_back(b: BodyId)
    ensures
        b.index() < BODY_COUNT,
        ALL_BODIES@[b.index() as int] == b,
{
}

/// Every place of the catalogue array is the index of the body there.
pub proof fn catalogue_is_in_index_order(i: int)
    requires
        0 <= i < BODY_COUNT,
    ensures
        ALL_BODIES@[i].index() == i,
{
}

/// A moon's parent is a planet, which has no parent of its own.
pub proof fn parents_are_heliocentric(b: BodyId)
    ensures
        b.parent() matches Some(p) ==> p.parent() is None && p != BodyId::Sun,
{
}

/// No two bodies share a NAIF identifier.
pub proof fn naif_ids_tell_bodies_apart(a: BodyId, b: BodyId)
    requires
        a.naif_id() == b.naif_id(),
    ensures
        a == b,
{
}

spec fn opening(b: BodyId) -> (int, char, char, char) {
    match b {
        BodyId::Sun => (3, 's', 'u', 'n'),
        BodyId::Mercury => (7, 'm', 'e', 'r'),
        BodyId::Venus => (5, 'v', 'e', 'n'),
        BodyId::Earth => (5, 'e', 'a', 'r'),
        BodyId::Moon => (4, 'm', 'o', 'o'),
        BodyId::Mars => (4, 'm', 'a', 'r'),
        BodyId::Jupiter => (7, 'j', 'u', 'p'),
        BodyId::Saturn => (6, 's', 'a', 't'),
        BodyId::Uranus => (6, 'u', 'r', 'a'),
        BodyId::Neptune => (7, 'n', 'e', 'p'),
        BodyId::Pluto => (5, 'p', 'l', 'u'),
        BodyId::Io => (2, 'i', 'o', '-'),
        BodyId::Europa => (6, 'e', 'u', 'r'),
        BodyId::Ganymede => (8, 'g', 'a', 'n'),
        BodyId::Callisto => (8, 'c', 'a', 'l'),
        BodyId::Titan => (5, 't', 'i', 't'),
        BodyId::Triton => (6, 't', 'r', 'i'),
        BodyId::Ceres => (5, 'c', 'e', 'r'),
        BodyId::Vesta => (5, 'v', 'e', 's'),
        BodyId::Pallas => (6, 'p', 'a', 'l'),
        BodyId::Hygiea => (6, 'h', 'y', 'g'),
    }
}

proof fn name_opens_so(b: BodyId)
    ensures
        b.name()@.len() == opening(b).0,
        lower(b.name()@[0]) == opening(b).1,
        lower(b.name()@[1]) == opening(b).2,
        b != BodyId::Io ==> lower(b.name()@[2]) == opening(b).3,
{
    reveal_strlit("Sun");
    reveal_strlit("Mercury");
    reveal_strlit("Venus");
    reveal_strlit("Earth");
    reveal_strlit("Moon");
    reveal_strlit("Mars");
    reveal_strlit("Jupiter");
    reveal_strlit("Saturn");
    reveal_strlit("Uranus");
    reveal_strlit("Neptune");
    reveal_strlit("Pluto");
    reveal_strlit("Io");
    reveal_strlit("Europa");
    reveal_strlit("Ganymede");
    reveal_strlit("Callisto");
    reveal_strlit("Titan");
    reveal_strlit("Triton");
    reveal_strlit("Ceres");
    reveal_strlit("Vesta");
    reveal_strlit("Pallas");
    reveal_strlit("Hygiea");
}

/// An ASCII letter.
pub open spec fn is_letter(c: char) -> bool {
    'a' <= c <= 'z' || 'A' <= c <= 'Z'
}

/// A name is two ASCII letters or more, and nothing else.
pub proof fn names_are_letters(b: BodyId)
    ensures
        b.name()@.len() >= 2,
        forall|i: int| 0 <= i < b.name()@.len() ==> is_letter(#[trigger] b.name()@[i]),
{
    reveal_strlit("Sun");
    reveal_strlit("Mercury");
    reveal_strlit("Venus");
    reveal_strlit("Earth");
    reveal_strlit("Moon");
    reveal_strlit("Mars");
    reveal_strlit("Jupiter");
    reveal_strlit("Saturn");
    reveal_strlit("Uranus");
    reveal_strlit("Neptune");
    reveal_strlit("Pluto");
    reveal_strlit("Io");
    reveal_strlit("Europa");
    reveal_strlit("Ganymede");
    reveal_strlit("Callisto");
    reveal_strlit("Titan");
    reveal_strlit("Triton");
    reveal_strlit("Ceres");
    reveal_strlit("Vesta");
    reveal_strlit("Pallas");
    reveal_strlit("Hygiea");
    assert forall|i: int| 0 <= i < b.name()@.len() implies is_letter(#[trigger] b.name()@[i]) by {
        let s = b.name()@;
        assert(s.len() <= 8);
        assert(i == 0 || i == 1 || i == 2 || i == 3 || i == 4 || i == 5 || i == 6 || i == 7);
    }
}

/// No text names two bodies.
pub proof fn names_tell_bodies_apart(a: BodyId, b: BodyId, s: Seq<char>)
    requires
        same_letters(a.name()@, s),
        same_letters(b.name()@, s),
    ensures
        a == b,
{
    name_opens_so(a);
    name_opens_so(b);
    assert(lower(a.name()@[0]) == lower(s[0]) && lower(b.name()@[0]) == lower(s[0]));
    assert(lower(a.name()@[1]) == lower(s[1]) && lower(b.name()@[1]) == lower(s[1]));
    if a != BodyId::Io && b != BodyId::Io {
        assert(lower(a.name()@[2]) == lower(s[2]) && lower(b.name()@[2]) == lower(s[2]));
    }
}

/// A body is found under its own name.
pub proof fn body_found_by_name(b: BodyId)
    ensures
        body_named(b.name()@) == Some(b),
{
    assert(same_letters(b.name()@, b.name()@));
    let c = choose|c: BodyId| same_letters(#[trigger] c.name()@, b.name()@);
    names_tell_bodies_apart(b, c, b.name()@);
}

/// No body is called by either word for a route without flybys.
pub proof fn no_body_is_a_route_word(b: BodyId)
    ensures
        b.name()@ != "direct"@,
        b.name()@ != "none"@,
{
    reveal_strlit("direct");
    reveal_strlit("none");
    name_opens_so(b);
    assert(lower("direct"@[0]) == 'd');
    assert(lower("none"@[0]) == 'n' && lower("none"@[1]) == 'o');
}

/// The number of the planetary system that an identifier of a planet or a moon
/// belongs to.
pub open spec fn system_of(id: int) -> int {
    if id < 10 {
        id
    } else {
        id / 100
    }
}

/// Identifiers follow the NAIF scheme: a moon has its planet's number and its own
/// place, 1 to 98; a planet has its number alone or its number and 99; the Sun
/// has 10, and minor planets are counted from 2,000,000.
#[verifier::rlimit(40)]
pub proof fn naif_ids_follow_the_scheme(b: BodyId)
    ensures
        b.naif_id() == 10 <==> b == BodyId::Sun,
        b.parent() matches Some(p) ==> {
            &&& system_of(b.naif_id() as int) == system_of(p.naif_id() as int)
            &&& 1 <= b.naif_id() % 100 <= 98
            &&& 300 < b.naif_id() < 900
        },
        b != BodyId::Sun && b.parent() is None && b.naif_id() < 2_000_000 ==> {
            &&& 1 <= system_of(b.naif_id() as int) <= 9
            &&& b.naif_id() < 10 || b.naif_id() % 100 == 99
            &&& b.naif_id() < 10 <==> system_of(b.naif_id() as int) >= 4
            &&& system_of(b.naif_id() as int) == if b.index() < 4 {
                b.index() as int
            } else {
                b.index() - 1
            }
        },
        b.naif_id() >= 2_000_000 <==> b.index() >= 17,
{
}

/// Moons of one planet are numbered outwards in catalogue order, and the four
/// asteroids by their discovery.
pub proof fn naif_ids_count(a: BodyId, b: BodyId)
    ensures
        a.parent() is Some && a.parent() == b.parent() ==> b.naif_id() - a.naif_id() == b.index()
            - a.index(),
        BodyId::Ceres.naif_id() + 1 == BodyId::Pallas.naif_id(),
        BodyId::Ceres.naif_id() + 3 == BodyId::Vesta.naif_id(),
        BodyId::Ceres.naif_id() + 9 == BodyId::Hygiea.naif_id(),
        BodyId::Ceres.naif_id() == 2_000_001,
        BodyId::Io.naif_id() % 100 == 1 && BodyId::Moon.naif_id() % 100 == 1,
        BodyId::Titan.naif_id() % 100 == 6 && BodyId::Triton.naif_id() % 100 == 1,
{
}

proof fn names_spelled()
    ensures
        spelling("Sun"@) == 647,
        spelling("Mercury"@) == 3_133,
        spelling("Venus"@) == 1_661,
        spelling("Earth"@) == 1_589,
        spelling("Moon"@) == 1_072,
        spelling("Mars"@) == 1_073,
        spelling("Jupiter"@) == 3_048,
        spelling("Saturn"@) == 2_323,
        spelling("Uranus"@) == 2_319,
        spelling("Neptune"@) == 3_032,
        spelling("Pluto"@) == 1_666,
        spelling("Io"@) == 295,
        spelling("Europa"@) == 2_231,
        spelling("Ganymede"@) == 3_738,
        spelling("Callisto"@) == 3_932,
        spelling("Titan"@) == 1_580,
        spelling("Triton"@) == 2_306,
        spelling("Ceres"@) == 1_590,
        spelling("Vesta"@) == 1_582,
        spelling("Pallas"@) == 2_205,
        spelling("Hygiea"@) == 2_130,
{
    reveal_with_fuel(spelling_to, 9);
    assert(spelling("Sun"@) == 647) by {
        reveal_strlit("Sun");
        spelling_adds_up("Sun"@);
    }
    assert(spelling("Mercury"@) == 3_133) by {
        reveal_strlit("Mercury");
        spelling_adds_up("Mercury"@);
    }
    assert(spelling("Venus"@) == 1_661) by {
        reveal_strlit("Venus");
        spelling_adds_up("Venus"@);
    }
    assert(spelling("Earth"@) == 1_589) by {
        reveal_strlit("Earth");
        spelling_adds_up("Earth"@);
    }
    assert(spelling("Moon"@) == 1_072) by {
        reveal_strlit("Moon");
        spelling_adds_up("Moon"@);
    }
    assert(spelling("Mars"@) == 1_073) by {
        reveal_strlit("Mars");
        spelling_adds_up("Mars"@);
    }
    assert(spelling("Jupiter"@) == 3_048) by {
        reveal_strlit("Jupiter");
        spelling_adds_up("Jupiter"@);
    }
    assert(spelling("Saturn"@) == 2_323) by {
        reveal_strlit("Saturn");
        spelling_adds_up("Saturn"@);
    }
    assert(spelling("Uranus"@) == 2_319) by {
        reveal_strlit("Uranus");
        spelling_adds_up("Uranus"@);
    }
    assert(spelling("Neptune"@) == 3_032) by {
        reveal_strlit("Neptune");
        spelling_adds_up("Neptune"@);
    }
    assert(spelling("Pluto"@) == 1_666) by {
        reveal_strlit("Pluto");
        spelling_adds_up("Pluto"@);
    }
    assert(spelling("Io"@) == 295) by {
        reveal_strlit("Io");
        spelling_adds_up("Io"@);
    }
    assert(spelling("Europa"@) == 2_231) by {
        reveal_strlit("Europa");
        spelling_adds_up("Europa"@);
    }
    assert(spelling("Ganymede"@) == 3_738) by {
        reveal_strlit("Ganymede");
        spelling_adds_up("Ganymede"@);
    }
    assert(spelling("Callisto"@) == 3_932) by {
        reveal_strlit("Callisto");
        spelling_adds_up("Callisto"@);
    }
    assert(spelling("Titan"@) == 1_580) by {
        reveal_strlit("Titan");
        spelling_adds_up("Titan"@);
    }
    assert(spelling("Triton"@) == 2_306) by {
        reveal_strlit("Triton");
        spelling_adds_up("Triton"@);
    }
    assert(spelling("Ceres"@) == 1_590) by {
        reveal_strlit("Ceres");
        spelling_adds_up("Ceres"@);
    }
    assert(spelling("Vesta"@) == 1_582) by {
        reveal_strlit("Vesta");
        spelling_adds_up("Vesta"@);
    }
    assert(spelling("Pallas"@) == 2_205) by {
        reveal_strlit("Pallas");
        spelling_adds_up("Pallas"@);
    }
    assert(spelling("Hygiea"@) == 2_130) by {
        reveal_strlit("Hygiea");
        spelling_adds_up("Hygiea"@);
    }
}

/// The names as they are spelled, body by body: the characters of each, by their
/// places, add up to this.
pub proof fn names_are_spelled(b: BodyId)
    ensures
        spelling(b.name()@) == (match b.index() {
            0 => 647int,
            1 => 3_133int,
            2 => 1_661int,
            3 => 1_589int,
            4 => 1_072int,
            5 => 1_073int,
            6 => 3_048int,
            7 => 2_323int,
            8 => 2_319int,
            9 => 3_032int,
            10 => 1_666int,
            11 => 295int,
            12 => 2_231int,
            13 => 3_738int,
            14 => 3_932int,
            15 => 1_580int,
            16 => 2_306int,
            17 => 1_590int,
            18 => 1_582int,
            19 => 2_205int,
            _ => 2_130int,
        }),
{
    names_spelled();
}

} // verus!
