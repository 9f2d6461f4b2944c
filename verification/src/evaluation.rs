//! How a candidate is flown and judged, apart from the flying: where it is
//! injected, and what its flight and its hardware make of it.

use crate::scalar::Scalar;
use vstd::prelude::*;

verus! {

/// Radius at which a flight leaves Earth, km.
pub const EARTH_SOI_KM: u32 = 925_000;

/// Samples of a trajectory while searching.
pub const SEARCH_SAMPLES: usize = 40;

/// Samples of a trajectory that is shown.
pub const PREVIEW_SAMPLES: usize = 240;

/// Samples of a trajectory that was saved.
pub const SAVED_SAMPLES: usize = 600;

/// Along what a flight leaves Earth's sphere of influence.
#[derive(Clone, Copy, Debug, PartialEq, Eq, Structural)]
pub enum Injection {
    AlongExcessVelocity,
    /// The excess velocity is too small to have a direction.
    AlongEarthVelocity,
}

/// Along what a flight leaves, by its excess speed: 0.05 km/s is too small.
pub fn injection(vinf_kms: Scalar) -> (r: Injection)
    ensures
        r == (if (Scalar { bits: 0x3fa9_9999_9999_999a }).lt(vinf_kms) {
            Injection::AlongExcessVelocity
        } else {
            Injection::AlongEarthVelocity
        }),
{
    if (Scalar { bits: 0x3fa9_9999_9999_999a }).less_than(vinf_kms) {
        Injection::AlongExcessVelocity
    } else {
        Injection::AlongEarthVelocity
    }
}

/// What a candidate's score stands for.
#[derive(Clone, Copy, Debug, PartialEq, Eq, Structural)]
pub enum Standing {
    /// The flight was cut short: there is no arrival to score.
    Truncated,
    /// The launcher or the tank cannot do it.
    BeyondHardware,
    Flyable,
}

/// What a candidate's score stands for, from whether its flight was complete
/// and by how much it overruns its hardware, km/s.
pub open spec fn standing_of(complete: bool, overrun_kms: Scalar) -> Standing {
    if !complete {
        Standing::Truncated
    } else if (Scalar { bits: 0 }).lt(overrun_kms) {
        Standing::BeyondHardware
    } else {
        Standing::Flyable
    }
}

/// What a candidate's score stands for.
pub fn standing(complete: bool, overrun_kms: Scalar) -> (r: Standing)
    ensures
        r == standing_of(complete, overrun_kms),
{
    if !complete {
        Standing::Truncated
    } else if Scalar::zero().less_than(overrun_kms) {
        Standing::BeyondHardware
    } else {
        Standing::Flyable
    }
}

/// Score from which on a candidate is beyond its hardware: 1e9.
#[verifier::allow_in_spec]
pub fn hardware_floor() -> Scalar
    returns
        (Scalar { bits: 0x41cd_cd65_0000_0000 }),
{
    Scalar { bits: 0x41cd_cd65_0000_0000 }
}

/// Score from which on a flight was cut short: 1e6.
#[verifier::allow_in_spec]
pub fn truncated_floor() -> Scalar
    returns
        (Scalar { bits: 0x412e_8480_0000_0000 }),
{
    Scalar { bits: 0x412e_8480_0000_0000 }
}

/// A score that is not below a floor.
pub open spec fn raised(score: Scalar, floor: Scalar) -> Scalar {
    if score.lt(floor) {
        floor
    } else {
        score
    }
}

/// The score that a candidate competes with, from what it would score as
/// flyable, as beyond its hardware and as cut short.
pub open spec fn competing(
    s: Standing,
    flyable: Scalar,
    penalised: Scalar,
    truncated: Scalar,
) -> Scalar {
    match s {
        Standing::Flyable => flyable,
        Standing::BeyondHardware => raised(penalised, hardware_floor()),
        Standing::Truncated => raised(truncated, truncated_floor()),
    }
}

/// The score that a candidate competes with, from what it would score as
/// flyable, as beyond its hardware and as cut short.
pub fn ranked_score(
    s: Standing,
    flyable: Scalar,
    penalised: Scalar,
    truncated: Scalar,
) -> (r: Scalar)
    ensures
        r == competing(s, flyable, penalised, truncated),
        s == Standing::BeyondHardware ==> !r.lt(hardware_floor()),
        s == Standing::Truncated ==> !r.lt(truncated_floor()),
{
    match s {
        Standing::Flyable => flyable,
        Standing::BeyondHardware => if penalised.less_than(hardware_floor()) {
            hardware_floor()
        } else {
            penalised
        },
        Standing::Truncated => if truncated.less_than(truncated_floor()) {
            truncated_floor()
        } else {
            truncated
        },
    }
}

/// No candidate beyond its hardware outranks a flyable one: a flyable score
/// below the floor stands before it in the order of the beam.
pub proof fn hardware_is_a_hard_bound(
    flyable: Scalar,
    other_flyable: Scalar,
    penalised: Scalar,
    truncated: Scalar,
)
    requires
        flyable.lt(hardware_floor()),
        !penalised.nan(),
    ensures
        competing(Standing::Flyable, flyable, penalised, truncated).lt(
            competing(Standing::BeyondHardware, other_flyable, penalised, truncated),
        ),
        competing(Standing::Flyable, flyable, penalised, truncated).rank() < competing(
            Standing::BeyondHardware,
            other_flyable,
            penalised,
            truncated,
        ).rank(),
{
}

/// Of a complete flight whose score as flyable lies below the floor: it scores
/// from the floor on exactly where it overruns its hardware, and otherwise what
/// it scores as flyable, whatever it would be penalised with.
pub proof fn hardware_alone_raises_to_the_floor(
    overrun_kms: Scalar,
    flyable: Scalar,
    penalised: Scalar,
    truncated: Scalar,
)
    requires
        flyable.lt(hardware_floor()),
        !penalised.nan(),
    ensures
        ({
            let score = competing(standing_of(true, overrun_kms), flyable, penalised, truncated);
            &&& hardware_floor().le(score) <==> (Scalar { bits: 0 }).lt(overrun_kms)
            &&& !(Scalar { bits: 0 }).lt(overrun_kms) ==> score == flyable
        }),
{
}

/// No flight that was cut short outranks a flyable one.
pub proof fn truncated_flights_rank_behind(
    flyable: Scalar,
    other_flyable: Scalar,
    penalised: Scalar,
    truncated: Scalar,
)
    requires
        flyable.lt(truncated_floor()),
        !truncated.nan(),
    ensures
        competing(Standing::Flyable, flyable, penalised, truncated).lt(
            competing(Standing::Truncated, other_flyable, penalised, truncated),
        ),
        competing(Standing::Flyable, flyable, penalised, truncated).rank() < competing(
            Standing::Truncated,
            other_flyable,
            penalised,
            truncated,
        ).rank(),
{
}

/// A flight that was cut short is judged by nothing else, and a complete one by its
/// overrun alone.
pub proof fn standings_are_decided(overrun_kms: Scalar, complete: bool)
    ensures
        standing_of(complete, overrun_kms) == Standing::Truncated <==> !complete,
        standing_of(complete, overrun_kms) == Standing::BeyondHardware ==> (Scalar {
            bits: 0,
        }).lt(overrun_kms),
        complete && overrun_kms.le(Scalar { bits: 0 }) ==> standing_of(complete, overrun_kms)
            == Standing::Flyable,
        complete && (Scalar { bits: 0 }).lt(overrun_kms) ==> standing_of(complete, overrun_kms)
            == Standing::BeyondHardware,
{
}

/// A penalty is raised to its floor and no further; a score as flyable is left as
/// it is. The floor of a flight cut short lies below that of the hardware.
pub proof fn floors_only_raise(s: Standing, a: Scalar, b: Scalar, c: Scalar)
    ensures
        competing(Standing::Flyable, a, b, c) == a,
        hardware_floor().le(b) ==> competing(Standing::BeyondHardware, a, b, c) == b,
        b.lt(hardware_floor()) ==> competing(Standing::BeyondHardware, a, b, c)
            == hardware_floor(),
        truncated_floor().le(c) ==> competing(Standing::Truncated, a, b, c) == c,
        c.lt(truncated_floor()) ==> competing(Standing::Truncated, a, b, c) == truncated_floor(),
        truncated_floor().lt(hardware_floor()),
{
}

/// A trajectory that is shown has six times the samples of one in a search, and a
/// saved one two and a half times those.
pub proof fn samples_grow()
    ensures
        PREVIEW_SAMPLES == 6 * SEARCH_SAMPLES,
        2 * SAVED_SAMPLES == 5 * PREVIEW_SAMPLES,
        SEARCH_SAMPLES + PREVIEW_SAMPLES + SAVED_SAMPLES == 880,
{
}

} // verus!
