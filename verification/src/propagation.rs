//! Rules of a propagation: which bodies pull, how far the integrator may go,
//! and when a flight counts as flown.

use crate::bodies::{BodyId, ALL_BODIES, BODY_COUNT};
use crate::scalar::Scalar;
use vstd::prelude::*;

verus! {

/// What the equations of motion hold, and how finely they are integrated.
#[derive(Clone, Copy, Debug, PartialEq, Eq)]
pub struct DynamicsConfig {
    /// Post-Newtonian terms.
    pub relativity: bool,
    /// Bodies whose gravity is felt, in catalogue order.
    pub perturbers: [bool; BODY_COUNT],
    /// Relative tolerance of a step.
    pub rel_tol: Scalar,
    /// Integrator steps at most.
    pub max_steps: usize,
}

/// Relativity is on, and every body but at most one pulls.
pub open spec fn forces(d: DynamicsConfig, left_out: Option<BodyId>) -> bool {
    &&& d.relativity == true
    &&& forall|b: BodyId|
        (#[trigger] d.perturbers@[b.index() as int] <==> Some(b) != left_out)
}

/// Every body pulls.
pub open spec fn all_pull(p: Seq<bool>) -> bool {
    p.len() == BODY_COUNT && forall|i: int| 0 <= i < p.len() ==> #[trigger] p[i]
}

impl Default for DynamicsConfig {
    /// Every body, relativity, and a tolerance of 1e-10.
    fn default() -> (r: Self)
        ensures
            r.relativity,
            all_pull(r.perturbers@),
            r.rel_tol == (Scalar { bits: 0x3ddb_7cdf_d9d7_bdbb }),
            r.max_steps == 2_000_000,
            forces(r, None),
    {
        DynamicsConfig {
            relativity: true,
            perturbers: [true; BODY_COUNT],
            rel_tol: Scalar { bits: 0x3ddb_7cdf_d9d7_bdbb },
            max_steps: 2_000_000,
        }
    }
}

/// Dynamics of a search: the same forces, a tolerance of 1e-8 and a budget of
/// steps.
pub fn solver_dynamics() -> (r: DynamicsConfig)
    ensures
        r.relativity,
        all_pull(r.perturbers@),
        r.rel_tol == (Scalar { bits: 0x3e45_798e_e230_8c3a }),
        r.max_steps == 30_000,
        forces(r, None),
{
    let mut r: DynamicsConfig = DynamicsConfig::default();
    r.rel_tol = Scalar { bits: 0x3e45_798e_e230_8c3a };
    r.max_steps = 30_000;
    r
}

/// Dynamics of one leg of a tour that is being refined: a tolerance of 1e-9,
/// and every body but the one the leg arrives at, whose pull belongs to the
/// flyby there.
pub fn leg_dynamics(arrival: BodyId) -> (r: DynamicsConfig)
    ensures
        r.relativity,
        r.rel_tol == (Scalar { bits: 0x3e11_2e0b_e826_d695 }),
        r.max_steps == 2_000_000,
        forall|b: BodyId| #[trigger] r.perturbers@[b.index() as int] == (b != arrival),
        forces(r, Some(arrival)),
        exists|d: DynamicsConfig|
            #[trigger] call_ensures(<DynamicsConfig as Default>::default, (), d) && r.max_steps
                == d.max_steps,
{
    let mut r: DynamicsConfig = DynamicsConfig::default();
    r.rel_tol = Scalar { bits: 0x3e11_2e0b_e826_d695 };
    let mut k: usize = 0;
    while k < BODY_COUNT
        invariant
            k <= BODY_COUNT,
            r.relativity,
            r.rel_tol == (Scalar { bits: 0x3e11_2e0b_e826_d695 }),
            r.max_steps == 2_000_000,
            forall|j: int|
                0 <= j < k ==> #[trigger] r.perturbers@[j] == (ALL_BODIES@[j] != arrival),
        decreases BODY_COUNT - k,
    {
        r.perturbers[k] = ALL_BODIES[k] != arrival;
        k = k + 1;
    }
    proof {
        assert forall|b: BodyId| #[trigger] r.perturbers@[b.index() as int] == (b != arrival) by {
            crate::bodies::index_points_back(b);
        }
    }
    r
}

// ---------------------------------------------------------------- flight

/// Whether a propagation takes another step.
#[derive(Clone, Copy, Debug, PartialEq, Eq, Structural)]
pub enum Advance {
    Step,
    /// The span is flown.
    Arrived,
    /// The budget of steps ran out first.
    Exhausted,
}

/// The steps of one propagation.
#[derive(Clone, Copy, Debug, PartialEq, Eq, Structural)]
pub struct Flight {
    pub taken: usize,
    pub max_steps: usize,
}

impl Flight {
    /// What follows at time `t` of a span that ends at `total`.
    pub open spec fn verdict(self, t: Scalar, total: Scalar) -> Advance {
        if !t.lt(total) {
            Advance::Arrived
        } else if self.taken < self.max_steps {
            Advance::Step
        } else {
            Advance::Exhausted
        }
    }

    pub fn new(max_steps: usize) -> (r: Self)
        ensures
            r == (Flight { taken: 0, max_steps }),
    {
        Flight { taken: 0, max_steps }
    }

    /// What follows at time `t` of a span that ends at `total`; a step is
    /// counted.
    pub fn advance(&mut self, t: Scalar, total: Scalar) -> (r: Advance)
        requires
            old(self).taken <= old(self).max_steps,
        ensures
            r == old(self).verdict(t, total),
            final(self).max_steps == old(self).max_steps,
            final(self).taken == old(self).taken + if r == Advance::Step {
                1int
            } else {
                0
            },
            final(self).taken <= final(self).max_steps,
    {
        if !t.less_than(total) {
            Advance::Arrived
        } else if self.taken < self.max_steps {
            self.taken = self.taken + 1;
            Advance::Step
        } else {
            Advance::Exhausted
        }
    }
}

/// Whether a step is kept: its scaled error is at most 1.
pub open spec fn step_kept(error: Scalar) -> bool {
    error.le(Scalar { bits: 0x3ff0_0000_0000_0000 })
}

/// Whether a step is kept: its scaled error is at most 1.
pub fn keeps_step(error: Scalar) -> (r: bool)
    ensures
        r == error.le(Scalar { bits: 0x3ff0_0000_0000_0000 }),
        r == step_kept(error),
        // The exponent of one is 1023, and nothing follows it.
        error.bits <= 1_023 * 0x10_0000_0000_0000 ==> r,
        1_023 * 0x10_0000_0000_0000 < error.bits < 0x8000_0000_0000_0000 ==> !r,
{
    error.at_most(Scalar { bits: 0x3ff0_0000_0000_0000 })
}

/// Whether a sample falls due within a step that reaches `t`: samples past the
/// end of the span never do.
pub fn sample_due(next_sample: Scalar, t: Scalar, total: Scalar) -> (r: bool)
    ensures
        r == (next_sample.le(t) && next_sample.le(total)),
{
    next_sample.at_most(t) && next_sample.at_most(total)
}

/// Which throttle segment applies, from the whole part of the profile's
/// progress times its length: the last one to the end.
pub fn throttle_segment(whole: usize, segments: usize) -> (r: usize)
    requires
        segments > 0,
    ensures
        r < segments,
        r == (if whole < segments {
            whole as int
        } else {
            segments - 1
        }),
{
    if whole < segments {
        whole
    } else {
        segments - 1
    }
}

/// A flight goes on only before its end and within its budget. It has run out of
/// steps only before its end; a time that is not a number ends it.
pub proof fn flights_end(f: Flight, t: Scalar, total: Scalar)
    ensures
        f.verdict(t, total) == Advance::Step <==> t.lt(total) && f.max_steps > f.taken,
        f.verdict(t, total) == Advance::Exhausted <==> t.lt(total) && f.max_steps <= f.taken,
        t.nan() || total.nan() || total.le(t) ==> f.verdict(t, total) == Advance::Arrived,
{
}

/// A step is kept up to an error of one and not beyond, and never with an error that
/// is not a number. The pattern of one is its exponent, 1023, and nothing else.
pub proof fn steps_are_kept_up_to_one(error: Scalar)
    ensures
        error.nan() ==> !step_kept(error),
        error.bits <= 1_023 * 0x10_0000_0000_0000 ==> step_kept(error),
        1_023 * 0x10_0000_0000_0000 < error.bits < 0x8000_0000_0000_0000 ==> !step_kept(error),
{
}

} // verus!
