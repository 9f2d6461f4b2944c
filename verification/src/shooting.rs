//! The damped Newton corrector that every shooting stage shares. This module
//! decides which shot is flown next and which iterate is kept; its caller
//! flies the shots, differences them and solves for the step.

use crate::problem::MissionType;
use crate::scalar::{Scalar, INFINITY_BITS};
use vstd::prelude::*;

verus! {

/// How hard a corrector tries.
#[derive(Clone, Copy, Debug, PartialEq, Eq, Structural)]
pub struct Rules {
    /// Newton steps at most.
    pub iterations: usize,
    /// Trials along one step: the whole step, then half of it, and so on.
    pub trials: usize,
    /// A residual below this is good enough.
    pub tolerance: Scalar,
}

/// Rules of a corrector with the usual number of trials.
pub fn newton_rules(iterations: usize, tolerance: Scalar) -> (r: Rules)
    ensures
        r == (Rules { iterations, trials: 6, tolerance }),
{
    Rules { iterations, trials: 6, tolerance }
}

/// Position at the arrival epoch against the target's centre: to 500 km.
#[verifier::allow_in_spec]
pub fn center_rules() -> Rules
    returns
        (Rules { iterations: 30, trials: 6, tolerance: Scalar { bits: 0x407f_4000_0000_0000 } }),
{
    Rules { iterations: 30, trials: 6, tolerance: Scalar { bits: 0x407f_4000_0000_0000 } }
}

/// Aim point and timing in the target's B-plane: to 1 km.
#[verifier::allow_in_spec]
pub fn bplane_rules() -> Rules
    returns
        (Rules { iterations: 15, trials: 6, tolerance: Scalar { bits: 0x3ff0_0000_0000_0000 } }),
{
    Rules { iterations: 15, trials: 6, tolerance: Scalar { bits: 0x3ff0_0000_0000_0000 } }
}

/// One leg of a tour onto its patch body: to 300 km.
#[verifier::allow_in_spec]
pub fn leg_rules() -> Rules
    returns
        (Rules { iterations: 5, trials: 6, tolerance: Scalar { bits: 0x4072_c000_0000_0000 } }),
{
    Rules { iterations: 5, trials: 6, tolerance: Scalar { bits: 0x4072_c000_0000_0000 } }
}

/// A conic leg with a deep-space burn: to a metre.
#[verifier::allow_in_spec]
pub fn burn_rules() -> Rules
    returns
        (Rules { iterations: 20, trials: 8, tolerance: Scalar { bits: 0x3f50_624d_d2f1_a9fc } }),
{
    Rules { iterations: 20, trials: 8, tolerance: Scalar { bits: 0x3f50_624d_d2f1_a9fc } }
}

/// How a correction ended.
#[derive(Clone, Copy, Debug, PartialEq, Eq, Structural)]
pub enum Outcome {
    /// The iterate in hand is the best there is.
    Settled,
    /// The first shot failed: there is no iterate.
    NoShot,
    /// A shot for the Jacobian failed.
    NoJacobian,
}

/// What the corrector waits for.
#[derive(Clone, Copy, Debug, PartialEq, Eq, Structural)]
pub enum Aim {
    /// The shot from the starting point.
    Base,
    /// The shots next to the iterate in hand, and the step they give.
    Columns,
    /// The shot a step away, the step halved so many times.
    Trial { halvings: usize },
    Closed { outcome: Outcome },
}

/// What the caller reports.
#[derive(Clone, Copy, Debug, PartialEq, Eq)]
pub enum Report {
    /// The shot from this point flew and left this residual.
    Shot { at: [Scalar; 3], residual: Scalar },
    /// The Jacobian gave a step.
    Solved,
    /// The Jacobian gave no step.
    Singular,
    /// A shot failed.
    Failed,
}

/// A correction in progress.
#[derive(Clone, Copy, Debug, PartialEq, Eq)]
pub struct Corrector {
    pub rules: Rules,
    /// Newton steps left.
    pub left: usize,
    pub aim: Aim,
    /// The iterate in hand.
    pub point: [Scalar; 3],
    /// Residual of the iterate in hand.
    pub residual: Scalar,
}

/// A correction from `start` about to fly its first shot.
pub open spec fn begun(rules: Rules, start: [Scalar; 3]) -> Corrector {
    Corrector {
        rules,
        left: rules.iterations,
        aim: Aim::Base,
        point: start,
        residual: Scalar { bits: INFINITY_BITS },
    }
}

impl Corrector {
    /// Whether another Newton step is tried.
    pub open spec fn resumed(self) -> Corrector {
        if self.left == 0 || self.residual.lt(self.rules.tolerance) {
            Corrector { aim: Aim::Closed { outcome: Outcome::Settled }, ..self }
        } else {
            Corrector { aim: Aim::Columns, left: (self.left - 1) as usize, ..self }
        }
    }

    /// A shorter step, while any is left to try.
    pub open spec fn backtracked(self, halvings: usize) -> Corrector {
        if halvings + 1 < self.rules.trials {
            Corrector { aim: Aim::Trial { halvings: (halvings + 1) as usize }, ..self }
        } else {
            Corrector { aim: Aim::Closed { outcome: Outcome::Settled }, ..self }
        }
    }

    /// The report answers what the corrector waits for.
    pub open spec fn expects(self, report: Report) -> bool {
        match self.aim {
            Aim::Base => (report matches Report::Shot { at, .. } && at == self.point)
                || report is Failed,
            Aim::Columns => report is Solved || report is Singular || report is Failed,
            Aim::Trial { .. } => report is Shot || report is Failed,
            Aim::Closed { .. } => false,
        }
    }

    /// The shot reported becomes the iterate in hand.
    pub open spec fn adopts(self, report: Report) -> bool {
        report matches Report::Shot { residual, .. } && (self.aim is Base || residual.lt(
            self.residual,
        ))
    }

    /// The correction after a report.
    pub open spec fn after(self, report: Report) -> Corrector {
        match self.aim {
            Aim::Base => match report {
                Report::Shot { at, residual } => Corrector {
                    point: at,
                    residual,
                    ..self
                }.resumed(),
                _ => Corrector { aim: Aim::Closed { outcome: Outcome::NoShot }, ..self },
            },
            Aim::Columns => match report {
                Report::Solved => if self.rules.trials > 0 {
                    Corrector { aim: Aim::Trial { halvings: 0 }, ..self }
                } else {
                    Corrector { aim: Aim::Closed { outcome: Outcome::Settled }, ..self }
                },
                Report::Singular => Corrector {
                    aim: Aim::Closed { outcome: Outcome::Settled },
                    ..self
                },
                _ => Corrector { aim: Aim::Closed { outcome: Outcome::NoJacobian }, ..self },
            },
            Aim::Trial { halvings } => if self.adopts(report) {
                Corrector { point: report->at, residual: report->residual, ..self }.resumed()
            } else {
                self.backtracked(halvings)
            },
            Aim::Closed { .. } => self,
        }
    }

    /// A correction from `start` about to fly its first shot.
    pub fn new(rules: Rules, start: [Scalar; 3]) -> (r: Self)
        ensures
            r == begun(rules, start),
    {
        Corrector {
            rules,
            left: rules.iterations,
            aim: Aim::Base,
            point: start,
            residual: Scalar::infinity(),
        }
    }

    fn resume(&mut self)
        ensures
            *final(self) == old(self).resumed(),
    {
        if self.left == 0 || self.residual.less_than(self.rules.tolerance) {
            self.aim = Aim::Closed { outcome: Outcome::Settled };
        } else {
            self.aim = Aim::Columns;
            self.left = self.left - 1;
        }
    }

    /// Takes in a report; whether the shot becomes the iterate in hand.
    pub fn advance(&mut self, report: Report) -> (r: bool)
        requires
            old(self).expects(report),
        ensures
            *final(self) == old(self).after(report),
            r == old(self).adopts(report),
    {
        match self.aim {
            Aim::Base => match report {
                Report::Shot { at, residual } => {
                    self.point = at;
                    self.residual = residual;
                    self.resume();
                    true
                },
                _ => {
                    self.aim = Aim::Closed { outcome: Outcome::NoShot };
                    false
                },
            },
            Aim::Columns => {
                match report {
                    Report::Solved => {
                        if self.rules.trials > 0 {
                            self.aim = Aim::Trial { halvings: 0 };
                        } else {
                            self.aim = Aim::Closed { outcome: Outcome::Settled };
                        }
                    },
                    Report::Singular => {
                        self.aim = Aim::Closed { outcome: Outcome::Settled };
                    },
                    _ => {
                        self.aim = Aim::Closed { outcome: Outcome::NoJacobian };
                    },
                }
                false
            },
            Aim::Trial { halvings } => {
                if let Report::Shot { at, residual } = report {
                    if residual.less_than(self.residual) {
                        self.point = at;
                        self.residual = residual;
                        self.resume();
                        return true;
                    }
                }
                if self.rules.trials > 0 && halvings < self.rules.trials - 1 {
                    self.aim = Aim::Trial { halvings: halvings + 1 };
                } else {
                    self.aim = Aim::Closed { outcome: Outcome::Settled };
                }
                false
            },
            Aim::Closed { .. } => false,
        }
    }
}

/// Whether a conic leg with a deep-space burn closes onto its arrival node: the
/// residual is not above 1 km.
pub open spec fn closes(c: Corrector) -> bool {
    c.aim == (Aim::Closed { outcome: Outcome::Settled }) && !(Scalar {
        bits: 0x3ff0_0000_0000_0000,
    }).lt(c.residual)
}

/// Whether a conic leg with a deep-space burn closes onto its arrival node.
pub fn leg_closes(c: &Corrector) -> (r: bool)
    ensures
        r == closes(*c),
{
    let limit: Scalar = Scalar { bits: 0x3ff0_0000_0000_0000 };
    if let Aim::Closed { outcome } = c.aim {
        outcome == Outcome::Settled && !limit.less_than(c.residual)
    } else {
        false
    }
}

// ---------------------------------------------------------------- laws

/// The corrections reachable by expected reports.
pub open spec fn run(c: Corrector, reports: Seq<Report>) -> Corrector
    decreases reports.len(),
{
    if reports.len() == 0 {
        c
    } else {
        run(c, reports.drop_last()).after(reports.last())
    }
}

/// Every report of the list answers what the corrector then waits for.
pub open spec fn answers(c: Corrector, reports: Seq<Report>) -> bool
    decreases reports.len(),
{
    reports.len() == 0 || (answers(c, reports.drop_last()) && run(
        c,
        reports.drop_last(),
    ).expects(reports.last()))
}

/// A trial is adopted exactly where it is strictly better, so the residual in
/// hand never rises after the first shot.
pub proof fn residual_never_rises(c: Corrector, report: Report)
    requires
        c.expects(report),
        !(c.aim is Base),
    ensures
        c.after(report).residual == (if c.adopts(report) {
            report->residual
        } else {
            c.residual
        }),
        c.after(report).point == (if c.adopts(report) {
            report->at
        } else {
            c.point
        }),
        c.adopts(report) ==> c.after(report).residual.lt(c.residual),
{
}

/// Every shot reported left the residual that `miss` gives its point.
pub open spec fn truthful(reports: Seq<Report>, miss: spec_fn([Scalar; 3]) -> Scalar) -> bool {
    forall|i: int|
        0 <= i < reports.len() ==> ((#[trigger] reports[i]) matches Report::Shot { at, residual }
            ==> residual == miss(at))
}

/// What a correction from `start` holds once its first shot has flown, where
/// every point has one residual: a point with its own residual, which is the
/// start or strictly better than it, and better than no shot that was flown.
/// Where no shot is strictly better than the start, the start is returned.
pub proof fn result_is_the_best_shot(
    rules: Rules,
    start: [Scalar; 3],
    miss: spec_fn([Scalar; 3]) -> Scalar,
    reports: Seq<Report>,
)
    requires
        answers(begun(rules, start), reports),
        truthful(reports, miss),
        reports.len() > 0,
        reports[0] is Shot,
    ensures
        ({
            let c = run(begun(rules, start), reports);
            &&& !(c.aim is Base)
            &&& c.residual == miss(c.point)
            &&& c.point == start || miss(c.point).lt(miss(start))
            &&& forall|i: int|
                0 <= i < reports.len() ==> ((#[trigger] reports[i]) matches Report::Shot {
                    at,
                    ..
                } ==> !miss(at).lt(c.residual))
        }),
    decreases reports.len(),
{
    let head = reports.drop_last();
    let b = begun(rules, start);
    let last = reports.last();
    assert(reports[reports.len() - 1] == last);
    if head.len() == 0 {
        assert(run(b, head) == b);
        assert(run(b, reports) == b.after(last));
    } else {
        assert(truthful(head, miss)) by {
            assert forall|i: int| 0 <= i < head.len() implies ((#[trigger] head[i]) matches
                Report::Shot { at, residual } ==> residual == miss(at)) by {
                assert(head[i] == reports[i]);
            }
        }
        assert(head[0] == reports[0]);
        result_is_the_best_shot(rules, start, miss, head);
        let c = run(b, head);
        let d = c.after(last);
        assert(run(b, reports) == d);
        assert forall|i: int| 0 <= i < reports.len() implies ((#[trigger] reports[i]) matches
            Report::Shot { at, .. } ==> !miss(at).lt(d.residual)) by {
            if i < head.len() {
                assert(head[i] == reports[i]);
            }
        }
    }
}

/// The iterate in hand is the best shot: no trial flown after the first shot
/// had a lower residual.
pub proof fn no_trial_beats_the_result(c: Corrector, reports: Seq<Report>, i: int)
    requires
        !(c.aim is Base),
        answers(c, reports),
        0 <= i < reports.len(),
        reports[i] is Shot,
    ensures
        !reports[i]->residual.lt(run(c, reports).residual),
        !(run(c, reports).aim is Base),
    decreases reports.len(),
{
    let head = reports.drop_last();
    never_back_to_base(c, head);
    if i < head.len() {
        assert(head[i] == reports[i]);
        no_trial_beats_the_result(c, head, i);
    }
}

proof fn never_back_to_base(c: Corrector, reports: Seq<Report>)
    requires
        !(c.aim is Base),
    ensures
        !(run(c, reports).aim is Base),
    decreases reports.len(),
{
    if reports.len() > 0 {
        never_back_to_base(c, reports.drop_last());
    }
}

/// A start that is good enough, or no step to take: the first shot is the only
/// one, and the start is returned with its residual.
pub proof fn good_start_is_returned(rules: Rules, start: [Scalar; 3], residual: Scalar)
    requires
        rules.iterations == 0 || residual.lt(rules.tolerance),
    ensures
        ({
            let c = begun(rules, start).after(Report::Shot { at: start, residual });
            &&& c.aim == (Aim::Closed { outcome: Outcome::Settled })
            &&& c.point == start && c.residual == residual
        }),
{
}

/// A first shot that fails: the start is returned with an infinite residual.
pub proof fn failed_start_is_returned(rules: Rules, start: [Scalar; 3])
    ensures
        ({
            let c = begun(rules, start).after(Report::Failed);
            &&& c.aim == (Aim::Closed { outcome: Outcome::NoShot })
            &&& c.point == start && c.residual.bits == INFINITY_BITS
        }),
{
}

/// A leg that closes was flown from the point in hand and misses by a kilometre
/// at most; one that misses by more, or was never flown, does not close.
pub proof fn closed_legs_arrive(
    rules: Rules,
    start: [Scalar; 3],
    miss: spec_fn([Scalar; 3]) -> Scalar,
    reports: Seq<Report>,
)
    requires
        answers(begun(rules, start), reports),
        truthful(reports, miss),
        forall|at: [Scalar; 3]| !(#[trigger] miss(at)).nan(),
    ensures
        ({
            let c = run(begun(rules, start), reports);
            let km = Scalar { bits: 0x3ff0_0000_0000_0000 };
            &&& closes(c) ==> miss(c.point).le(km) && c.residual == miss(c.point)
            &&& reports.len() == 0 || !(reports[0] is Shot) ==> !closes(c)
            &&& reports.len() > 0 && reports[0] is Shot && km.lt(miss(c.point)) ==> !closes(c)
        }),
{
    if reports.len() > 0 && reports[0] is Shot {
        result_is_the_best_shot(rules, start, miss, reports);
    } else {
        no_shot_no_answer(rules, start, reports);
    }
}

proof fn no_shot_no_answer(rules: Rules, start: [Scalar; 3], reports: Seq<Report>)
    requires
        answers(begun(rules, start), reports),
        reports.len() == 0 || !(reports[0] is Shot),
    ensures
        !closes(run(begun(rules, start), reports)),
        reports.len() > 0 ==> run(begun(rules, start), reports).aim == (Aim::Closed {
            outcome: Outcome::NoShot,
        }),
    decreases reports.len(),
{
    if reports.len() > 0 {
        let head = reports.drop_last();
        if head.len() == 0 {
            assert(run(begun(rules, start), head) == begun(rules, start));
            assert(reports.last() == reports[0]);
        } else {
            assert(head[0] == reports[0]);
            no_shot_no_answer(rules, start, head);
        }
    }
}

impl Corrector {
    /// Reports that the correction still takes at most.
    pub open spec fn reports_left(self) -> int {
        let round = 1 + self.rules.trials;
        match self.aim {
            Aim::Base => 1 + self.left * round,
            Aim::Columns => round + self.left * round,
            Aim::Trial { halvings } => (self.rules.trials - halvings) + self.left * round,
            Aim::Closed { .. } => 0,
        }
    }

    /// The step in hand has not been halved too often.
    pub open spec fn wf(self) -> bool {
        self.aim matches Aim::Trial { halvings } ==> halvings < self.rules.trials
    }
}

/// Every expected report lowers the number still to come: a correction of `n`
/// steps takes at most one shot and `n` rounds of a Jacobian and its trials.
pub proof fn correction_ends(c: Corrector, report: Report)
    requires
        c.wf(),
        c.expects(report),
    ensures
        c.after(report).wf(),
        0 <= c.after(report).reports_left() < c.reports_left(),
{
    let round = 1 + c.rules.trials;
    let n = c.left as int;
    assert(n * round >= 0) by (nonlinear_arith)
        requires
            n >= 0,
            round >= 1,
    ;
    assert((n - 1) * round + round == n * round) by (nonlinear_arith);
    if n > 0 {
        assert((n - 1) * round >= 0) by (nonlinear_arith)
            requires
                n > 0,
                round >= 1,
        ;
    }
}

// ---------------------------------------------------------------- direct

/// Outcome of the two-stage correction of a direct transfer.
#[derive(Clone, Copy, Debug, PartialEq, Eq)]
pub struct DirectCorrection {
    pub vinf_dep: [Scalar; 3],
    /// Distance from the target's centre at the arrival epoch, km.
    pub center_miss_km: Scalar,
    /// Miss in the B-plane, km, where the arc reached the target's sphere of
    /// influence.
    pub bplane_err_km: Option<Scalar>,
    /// Periapsis altitude achieved, km.
    pub periapsis_alt_km: Option<Scalar>,
    /// Arrival excess speed of the corrected arc, km/s.
    pub vinf_arr_kms: Option<Scalar>,
    /// Arrival velocity change of the corrected arc, km/s.
    pub arrival_dv_kms: Option<Scalar>,
}

/// The stage-two residual of a shot that reached no hyperbola: a residual as
/// large means that nothing was retargeted.
#[verifier::allow_in_spec]
pub fn lost_shot_km() -> Scalar
    returns
        (Scalar { bits: 0x41cd_cd65_0000_0000 }),
{
    Scalar { bits: 0x41cd_cd65_0000_0000 }
}

/// How the insertion at the achieved periapsis is charged.
#[derive(Clone, Copy, Debug, PartialEq, Eq, Structural)]
pub enum Insertion {
    Free,
    /// The burn at the periapsis that was achieved.
    AtPeriapsis,
    /// As for any landing at the arrival speed that was achieved.
    AsLanding,
}

/// How the insertion at the achieved periapsis is charged.
#[verifier::allow_in_spec]
pub fn insertion(mission: MissionType) -> Insertion
    returns
        (match mission {
            MissionType::Flyby => Insertion::Free,
            MissionType::Orbit => Insertion::AtPeriapsis,
            MissionType::Land => Insertion::AsLanding,
        }),
{
    match mission {
        MissionType::Flyby => Insertion::Free,
        MissionType::Orbit => Insertion::AtPeriapsis,
        MissionType::Land => Insertion::AsLanding,
    }
}

/// What an arc achieves at the target.
#[derive(Clone, Copy, Debug, PartialEq, Eq, Structural)]
pub struct Arrival {
    pub periapsis_alt_km: Scalar,
    pub vinf_kms: Scalar,
    /// Velocity change of the insertion, km/s, where there is one.
    pub insertion_kms: Scalar,
}

/// What stage two came to.
#[derive(Clone, Copy, Debug, PartialEq, Eq)]
pub struct SecondStage {
    pub vinf_dep: [Scalar; 3],
    pub bplane_err_km: Scalar,
    /// The arrival of the corrected arc, where it meets a hyperbola.
    pub arrival: Option<Arrival>,
}

/// The velocity change charged at an arrival: none for a flyby.
pub open spec fn charged(mission: MissionType, a: Arrival) -> Scalar {
    match insertion(mission) {
        Insertion::Free => Scalar { bits: 0 },
        _ => a.insertion_kms,
    }
}

/// A stage-two residual stands for an answer: it is finite and below that of a
/// shot that reached no hyperbola.
pub open spec fn is_answer(bplane_err_km: Scalar) -> bool {
    bplane_err_km.magnitude() < INFINITY_BITS && !lost_shot_km().le(bplane_err_km)
}

impl DirectCorrection {
    /// The three arrival values come together, and only with a B-plane error.
    pub open spec fn wf(self) -> bool {
        &&& self.periapsis_alt_km is Some <==> self.vinf_arr_kms is Some
        &&& self.periapsis_alt_km is Some <==> self.arrival_dv_kms is Some
        &&& self.periapsis_alt_km is Some ==> self.bplane_err_km is Some
    }

    /// Stage one alone.
    pub open spec fn only_stage_one(self, vinf_dep: [Scalar; 3], center_miss_km: Scalar) -> bool {
        &&& self.vinf_dep == vinf_dep
        &&& self.center_miss_km == center_miss_km
        &&& self.bplane_err_km is None
        &&& self.periapsis_alt_km is None
        &&& self.vinf_arr_kms is None
        &&& self.arrival_dv_kms is None
    }

    /// Stage one alone.
    pub fn coarse(vinf_dep: [Scalar; 3], center_miss_km: Scalar) -> (r: Self)
        ensures
            r.only_stage_one(vinf_dep, center_miss_km),
            r.wf(),
    {
        DirectCorrection {
            vinf_dep,
            center_miss_km,
            bplane_err_km: None,
            periapsis_alt_km: None,
            vinf_arr_kms: None,
            arrival_dv_kms: None,
        }
    }

    /// Whether stage two is tried: not where the arc passes outside the
    /// target's sphere of influence.
    pub fn wants_bplane(&self, soi_km: Scalar) -> (r: bool)
        ensures
            r == !soi_km.lt(self.center_miss_km),
    {
        !soi_km.less_than(self.center_miss_km)
    }

    /// Takes over the stage-two departure, if stage two hit a hyperbola at
    /// all; whether it did.
    pub fn retarget(&mut self, vinf_dep: [Scalar; 3], bplane_err_km: Scalar) -> (r: bool)
        requires
            old(self).wf(),
            old(self).bplane_err_km is None,
        ensures
            r == is_answer(bplane_err_km),
            !r ==> *final(self) == *old(self),
            r ==> *final(self) == (DirectCorrection {
                vinf_dep,
                bplane_err_km: Some(bplane_err_km),
                ..*old(self)
            }),
            final(self).wf(),
    {
        if !bplane_err_km.is_finite() || lost_shot_km().at_most(bplane_err_km) {
            return false;
        }
        self.vinf_dep = vinf_dep;
        self.bplane_err_km = Some(bplane_err_km);
        true
    }

    /// Records the arrival that the retargeted arc achieves.
    pub fn observe(&mut self, mission: MissionType, arrival: Arrival)
        requires
            old(self).wf(),
            old(self).bplane_err_km is Some,
        ensures
            *final(self) == (DirectCorrection {
                periapsis_alt_km: Some(arrival.periapsis_alt_km),
                vinf_arr_kms: Some(arrival.vinf_kms),
                arrival_dv_kms: Some(charged(mission, arrival)),
                ..*old(self)
            }),
            mission == MissionType::Flyby ==> final(self).arrival_dv_kms == Some(
                Scalar { bits: 0 },
            ),
            mission == MissionType::Orbit || mission == MissionType::Land ==> final(self).arrival_dv_kms == Some(arrival.insertion_kms),
            final(self).wf(),
    {
        self.periapsis_alt_km = Some(arrival.periapsis_alt_km);
        self.vinf_arr_kms = Some(arrival.vinf_kms);
        self.arrival_dv_kms = Some(
            match insertion(mission) {
                Insertion::Free => Scalar::zero(),
                _ => arrival.insertion_kms,
            },
        );
    }

    /// The whole correction, from stage one and from what stage two came to,
    /// where it was tried.
    pub fn conclude(
        mission: MissionType,
        vinf_dep: [Scalar; 3],
        center_miss_km: Scalar,
        soi_km: Scalar,
        second: Option<SecondStage>,
    ) -> (r: Self)
        ensures
            r.wf(),
            r.center_miss_km == center_miss_km,
            match second {
                Some(s) => if soi_km.lt(center_miss_km) || !is_answer(s.bplane_err_km) {
                    r.only_stage_one(vinf_dep, center_miss_km)
                } else {
                    &&& r.vinf_dep == s.vinf_dep
                    &&& r.bplane_err_km == Some(s.bplane_err_km)
                    &&& match s.arrival {
                        Some(a) => r.periapsis_alt_km == Some(a.periapsis_alt_km)
                            && r.vinf_arr_kms == Some(a.vinf_kms) && r.arrival_dv_kms == Some(
                            charged(mission, a),
                        ),
                        None => r.periapsis_alt_km is None && r.vinf_arr_kms is None
                            && r.arrival_dv_kms is None,
                    }
                },
                None => r.only_stage_one(vinf_dep, center_miss_km),
            },
            mission == MissionType::Flyby && r.arrival_dv_kms is Some ==> r.arrival_dv_kms == Some(
                Scalar { bits: 0 },
            ),
            r.arrival_dv_kms is Some && (mission == MissionType::Orbit || mission
                == MissionType::Land) ==> r.arrival_dv_kms == Some(
                second->0.arrival->0.insertion_kms,
            ),
    {
        let mut r: DirectCorrection = DirectCorrection::coarse(vinf_dep, center_miss_km);
        if !r.wants_bplane(soi_km) {
            return r;
        }
        if let Some(s) = second {
            if r.retarget(s.vinf_dep, s.bplane_err_km) {
                if let Some(a) = s.arrival {
                    r.observe(mission, a);
                }
            }
        }
        r
    }
}

/// An arrival is charged for what the mission does there: nothing to fly past,
/// and the whole insertion to stay, in orbit or on the ground. Two missions that
/// both stay are charged alike for the same insertion.
pub proof fn staying_is_charged(mission: MissionType, a: Arrival)
    ensures
        mission == MissionType::Flyby ==> charged(mission, a).magnitude() == 0,
        mission != MissionType::Flyby ==> charged(mission, a) == a.insertion_kms,
        charged(MissionType::Orbit, a) == charged(MissionType::Land, a),
{
}

/// A corrector goes on while it may: after a better shot it takes another step as
/// long as one is left and the residual is not below the tolerance; after a worse
/// one it halves the step as long as a trial is left.
pub proof fn corrector_goes_on(c: Corrector, at: [Scalar; 3], residual: Scalar)
    requires
        c.aim is Trial,
        c.wf(),
    ensures
        ({
            let d = c.after(Report::Shot { at, residual });
            let better = residual.lt(c.residual);
            let more = c.left > 0 && !residual.lt(c.rules.tolerance);
            &&& better && more ==> d.aim == Aim::Columns && d.left == c.left - 1
            &&& better && !more ==> d.aim == (Aim::Closed { outcome: Outcome::Settled })
            &&& !better && c.aim->halvings < c.rules.trials - 1 ==> d.aim == (Aim::Trial {
                halvings: (c.aim->halvings + 1) as usize,
            })
            &&& !better && c.aim->halvings >= c.rules.trials - 1 ==> d.aim == (Aim::Closed {
                outcome: Outcome::Settled,
            })
            &&& d.rules == c.rules && (d.left < c.left ==> better)
        }),
        c.after(Report::Failed).aim == c.after(Report::Shot { at, residual: c.residual }).aim,
{
}

/// A stage-two residual counts where it is a finite number below a million million
/// metres, whatever its sign.
pub proof fn answers_are_finite(err: Scalar)
    ensures
        is_answer(err) ==> err.magnitude() < INFINITY_BITS && err.lt(lost_shot_km()),
        err.lt(lost_shot_km()) && err.magnitude() < INFINITY_BITS ==> is_answer(err),
        err.nan() ==> !is_answer(err),
{
}

} // verus!
