//! The Dormand-Prince 5(4) pair: the coefficients of an integrator step, as
//! exact fractions.

use vstd::prelude::*;

verus! {

/// The number `num / den`, worked out in one division.
#[derive(Clone, Copy, Debug, PartialEq, Eq, Structural)]
pub struct Ratio {
    pub num: i32,
    pub den: u32,
}

/// Stages after the first.
pub const STAGES: usize = 6;

/// What the slope of stage `j` weighs in the point of stage `stage + 1`.
#[verifier::allow_in_spec]
pub fn weight(stage: usize, j: usize) -> Ratio
    returns
        (match (stage, j) {
            (0, 0) => Ratio { num: 1, den: 5 },
            (1, 0) => Ratio { num: 3, den: 40 },
            (1, 1) => Ratio { num: 9, den: 40 },
            (2, 0) => Ratio { num: 44, den: 45 },
            (2, 1) => Ratio { num: (-56i32) as i32, den: 15 },
            (2, 2) => Ratio { num: 32, den: 9 },
            (3, 0) => Ratio { num: 19372, den: 6561 },
            (3, 1) => Ratio { num: (-25360i32) as i32, den: 2187 },
            (3, 2) => Ratio { num: 64448, den: 6561 },
            (3, 3) => Ratio { num: (-212i32) as i32, den: 729 },
            (4, 0) => Ratio { num: 9017, den: 3168 },
            (4, 1) => Ratio { num: (-355i32) as i32, den: 33 },
            (4, 2) => Ratio { num: 46732, den: 5247 },
            (4, 3) => Ratio { num: 49, den: 176 },
            (4, 4) => Ratio { num: (-5103i32) as i32, den: 18656 },
            (5, 0) => Ratio { num: 35, den: 384 },
            (5, 2) => Ratio { num: 500, den: 1113 },
            (5, 3) => Ratio { num: 125, den: 192 },
            (5, 4) => Ratio { num: (-2187i32) as i32, den: 6784 },
            (5, 5) => Ratio { num: 11, den: 84 },
            _ => Ratio { num: 0, den: 1 },
        }),
{
    match (stage, j) {
        (0, 0) => Ratio { num: 1, den: 5 },
        (1, 0) => Ratio { num: 3, den: 40 },
        (1, 1) => Ratio { num: 9, den: 40 },
        (2, 0) => Ratio { num: 44, den: 45 },
        (2, 1) => Ratio { num: (-56i32) as i32, den: 15 },
        (2, 2) => Ratio { num: 32, den: 9 },
        (3, 0) => Ratio { num: 19372, den: 6561 },
        (3, 1) => Ratio { num: (-25360i32) as i32, den: 2187 },
        (3, 2) => Ratio { num: 64448, den: 6561 },
        (3, 3) => Ratio { num: (-212i32) as i32, den: 729 },
        (4, 0) => Ratio { num: 9017, den: 3168 },
        (4, 1) => Ratio { num: (-355i32) as i32, den: 33 },
        (4, 2) => Ratio { num: 46732, den: 5247 },
        (4, 3) => Ratio { num: 49, den: 176 },
        (4, 4) => Ratio { num: (-5103i32) as i32, den: 18656 },
        (5, 0) => Ratio { num: 35, den: 384 },
        (5, 2) => Ratio { num: 500, den: 1113 },
        (5, 3) => Ratio { num: 125, den: 192 },
        (5, 4) => Ratio { num: (-2187i32) as i32, den: 6784 },
        (5, 5) => Ratio { num: 11, den: 84 },
        _ => Ratio { num: 0, den: 1 },
    }
}

/// How far into the step stage `stage + 1` lies.
#[verifier::allow_in_spec]
pub fn node(stage: usize) -> Ratio
    returns
        (match stage {
            0 => Ratio { num: 1, den: 5 },
            1 => Ratio { num: 3, den: 10 },
            2 => Ratio { num: 4, den: 5 },
            3 => Ratio { num: 8, den: 9 },
            _ => Ratio { num: 1, den: 1 },
        }),
{
    match stage {
        0 => Ratio { num: 1, den: 5 },
        1 => Ratio { num: 3, den: 10 },
        2 => Ratio { num: 4, den: 5 },
        3 => Ratio { num: 8, den: 9 },
        _ => Ratio { num: 1, den: 1 },
    }
}

/// What the slope of stage `j` weighs in the step that is taken.
#[verifier::allow_in_spec]
pub fn fifth(j: usize) -> Ratio
    returns
        (match j {
            0 => Ratio { num: 35, den: 384 },
            2 => Ratio { num: 500, den: 1113 },
            3 => Ratio { num: 125, den: 192 },
            4 => Ratio { num: (-2187i32) as i32, den: 6784 },
            5 => Ratio { num: 11, den: 84 },
            _ => Ratio { num: 0, den: 1 },
        }),
{
    match j {
        0 => Ratio { num: 35, den: 384 },
        2 => Ratio { num: 500, den: 1113 },
        3 => Ratio { num: 125, den: 192 },
        4 => Ratio { num: (-2187i32) as i32, den: 6784 },
        5 => Ratio { num: 11, den: 84 },
        _ => Ratio { num: 0, den: 1 },
    }
}

/// What the slope of stage `j` weighs in the step that it is held against.
#[verifier::allow_in_spec]
pub fn fourth(j: usize) -> Ratio
    returns
        (match j {
            0 => Ratio { num: 5179, den: 57600 },
            2 => Ratio { num: 7571, den: 16695 },
            3 => Ratio { num: 393, den: 640 },
            4 => Ratio { num: (-92097i32) as i32, den: 339200 },
            5 => Ratio { num: 187, den: 2100 },
            6 => Ratio { num: 1, den: 40 },
            _ => Ratio { num: 0, den: 1 },
        }),
{
    match j {
        0 => Ratio { num: 5179, den: 57600 },
        2 => Ratio { num: 7571, den: 16695 },
        3 => Ratio { num: 393, den: 640 },
        4 => Ratio { num: (-92097i32) as i32, den: 339200 },
        5 => Ratio { num: 187, den: 2100 },
        6 => Ratio { num: 1, den: 40 },
        _ => Ratio { num: 0, den: 1 },
    }
}

impl Ratio {
    /// The fraction as a count of `whole`ths.
    pub open spec fn of(self, whole: int) -> int {
        self.num * (whole / self.den as int)
    }

    /// `whole` can be counted in this fraction's parts.
    pub open spec fn divides(self, whole: int) -> bool {
        whole % self.den as int == 0
    }
}

proof fn counts(r: Ratio, whole: int, num: int, den: int, n: int)
    requires
        r.num == num,
        r.den == den,
        den > 0,
        num * whole == n * den,
        whole % den == 0,
    ensures
        r.of(whole) == n,
{
    assert(num * (whole / den) == n) by (nonlinear_arith)
        requires
            den > 0,
            num * whole == n * den,
            whole % den == 0,
    ;
}

/// Every stage lies where its weights put it: they add up to its node.
pub proof fn weights_add_up_to_the_node(stage: usize, whole: int)
    requires
        stage < STAGES,
        whole == 171_362_822_400,
    ensures
        node(stage).divides(whole),
        forall|j: usize| #![trigger weight(stage, j)] weight(stage, j).divides(whole),
        weight(stage, 0).of(whole) + weight(stage, 1).of(whole) + weight(stage, 2).of(whole)
            + weight(stage, 3).of(whole) + weight(stage, 4).of(whole) + weight(stage, 5).of(whole)
            == node(stage).of(whole),
{
    if stage == 0 {
        counts(weight(0, 0), whole, 1, 5, 34272564480);
        counts(weight(0, 1), whole, 0, 1, 0);
        counts(weight(0, 2), whole, 0, 1, 0);
        counts(weight(0, 3), whole, 0, 1, 0);
        counts(weight(0, 4), whole, 0, 1, 0);
        counts(weight(0, 5), whole, 0, 1, 0);
        counts(node(0), whole, 1, 5, 34272564480);
    } else if stage == 1 {
        counts(weight(1, 0), whole, 3, 40, 12852211680);
        counts(weight(1, 1), whole, 9, 40, 38556635040);
        counts(weight(1, 2), whole, 0, 1, 0);
        counts(weight(1, 3), whole, 0, 1, 0);
        counts(weight(1, 4), whole, 0, 1, 0);
        counts(weight(1, 5), whole, 0, 1, 0);
        counts(node(1), whole, 3, 10, 51408846720);
    } else if stage == 2 {
        counts(weight(2, 0), whole, 44, 45, 167554759680);
        counts(weight(2, 1), whole, -56, 15, -639754536960);
        counts(weight(2, 2), whole, 32, 9, 609290035200);
        counts(weight(2, 3), whole, 0, 1, 0);
        counts(weight(2, 4), whole, 0, 1, 0);
        counts(weight(2, 5), whole, 0, 1, 0);
        counts(node(2), whole, 4, 5, 137090257920);
    } else if stage == 3 {
        counts(weight(3, 0), whole, 19372, 6561, 505965644800);
        counts(weight(3, 1), whole, -25360, 2187, -1987087872000);
        counts(weight(3, 2), whole, 64448, 6561, 1683278643200);
        counts(weight(3, 3), whole, -212, 729, -49833907200);
        counts(weight(3, 4), whole, 0, 1, 0);
        counts(weight(3, 5), whole, 0, 1, 0);
        counts(node(3), whole, 8, 9, 152322508800);
    } else if stage == 4 {
        counts(weight(4, 0), whole, 9017, 3168, 487745760600);
        counts(weight(4, 1), whole, -355, 33, -1843448544000);
        counts(weight(4, 2), whole, 46732, 5247, 1526229734400);
        counts(weight(4, 3), whole, 49, 176, 47708967600);
        counts(weight(4, 4), whole, -5103, 18656, -46873096200);
        counts(weight(4, 5), whole, 0, 1, 0);
        counts(node(4), whole, 1, 1, 171362822400);
    } else {
        counts(weight(5, 0), whole, 35, 384, 15619007250);
        counts(weight(5, 1), whole, 0, 1, 0);
        counts(weight(5, 2), whole, 500, 1113, 76982400000);
        counts(weight(5, 3), whole, 125, 192, 111564337500);
        counts(weight(5, 4), whole, -2187, 6784, -55243291950);
        counts(weight(5, 5), whole, 11, 84, 22440369600);
        counts(node(5), whole, 1, 1, 171362822400);
    }
}

/// The slopes of a step weigh one together, and its error estimate is the
/// difference of two such steps.
pub proof fn step_weights_add_up_to_one(whole: int)
    requires
        whole == 171_362_822_400,
    ensures
        forall|j: usize| #![trigger fifth(j)] fifth(j).divides(whole),
        forall|j: usize| #![trigger fourth(j)] fourth(j).divides(whole),
        fifth(0).of(whole) + fifth(1).of(whole) + fifth(2).of(whole) + fifth(3).of(whole) + fifth(
            4,
        ).of(whole) + fifth(5).of(whole) + fifth(6).of(whole) == whole,
        fourth(0).of(whole) + fourth(1).of(whole) + fourth(2).of(whole) + fourth(3).of(whole)
            + fourth(4).of(whole) + fourth(5).of(whole) + fourth(6).of(whole) == whole,
{
    counts(fifth(0), whole, 35, 384, 15619007250);
    counts(fifth(1), whole, 0, 1, 0);
    counts(fifth(2), whole, 500, 1113, 76982400000);
    counts(fifth(3), whole, 125, 192, 111564337500);
    counts(fifth(4), whole, -2187, 6784, -55243291950);
    counts(fifth(5), whole, 11, 84, 22440369600);
    counts(fifth(6), whole, 0, 1, 0);
    counts(fourth(0), whole, 5179, 57600, 15407778771);
    counts(fourth(1), whole, 0, 1, 0);
    counts(fourth(2), whole, 7571, 16695, 77711166720);
    counts(fourth(3), whole, 393, 640, 105227483130);
    counts(fourth(4), whole, -92097, 339200, -46527128109);
    counts(fourth(5), whole, 187, 2100, 15259451328);
    counts(fourth(6), whole, 1, 40, 4284070560);
}

/// The last stage is the step that is taken.
pub proof fn last_stage_is_the_step(j: usize)
    requires
        j < STAGES,
    ensures
        weight(5, j) == fifth(j),
{
}

/// Where stage `j` lies in a step, in ninetieths.
pub open spec fn place(j: usize) -> int {
    if j == 0 {
        0
    } else {
        node((j - 1) as usize).of(90)
    }
}

/// `b` to the `p`-th power.
pub open spec fn power(b: int, p: nat) -> int
    decreases p,
{
    if p == 0 {
        1
    } else {
        b * power(b, (p - 1) as nat)
    }
}

/// What weights at the seven stages make of the `p`-th power of the time.
pub open spec fn moment(w: spec_fn(usize) -> Ratio, whole: int, p: nat) -> int {
    w(0).of(whole) * power(place(0), p) + w(1).of(whole) * power(place(1), p) + w(2).of(whole)
        * power(place(2), p) + w(3).of(whole) * power(place(3), p) + w(4).of(whole) * power(
        place(4),
        p,
    ) + w(5).of(whole) * power(place(5), p) + w(6).of(whole) * power(place(6), p)
}

proof fn stages_are_placed()
    ensures
        place(0) == 0,
        place(1) == 18,
        place(2) == 27,
        place(3) == 72,
        place(4) == 80,
        place(5) == 90,
        place(6) == 90,
{
    counts(node(0), 90, 1, 5, 18);
    counts(node(1), 90, 3, 10, 27);
    counts(node(2), 90, 4, 5, 72);
    counts(node(3), 90, 8, 9, 80);
    counts(node(4), 90, 1, 1, 90);
    counts(node(5), 90, 1, 1, 90);
}

proof fn powers_1()
    ensures
        power(0, 1) == 0,
        power(18, 1) == 18,
        power(27, 1) == 27,
        power(72, 1) == 72,
        power(80, 1) == 80,
        power(90, 1) == 90,
{
    reveal_with_fuel(power, 2);
    assert(power(0, 1) == 0) by (nonlinear_arith)
        requires
            power(0, 1) == 0 * power(0, 0),
            power(0, 0) == 1,
    ;
    assert(power(18, 1) == 18) by (nonlinear_arith)
        requires
            power(18, 1) == 18 * power(18, 0),
            power(18, 0) == 1,
    ;
    assert(power(27, 1) == 27) by (nonlinear_arith)
        requires
            power(27, 1) == 27 * power(27, 0),
            power(27, 0) == 1,
    ;
    assert(power(72, 1) == 72) by (nonlinear_arith)
        requires
            power(72, 1) == 72 * power(72, 0),
            power(72, 0) == 1,
    ;
    assert(power(80, 1) == 80) by (nonlinear_arith)
        requires
            power(80, 1) == 80 * power(80, 0),
            power(80, 0) == 1,
    ;
    assert(power(90, 1) == 90) by (nonlinear_arith)
        requires
            power(90, 1) == 90 * power(90, 0),
            power(90, 0) == 1,
    ;
}

proof fn powers_2()
    ensures
        power(0, 2) == 0,
        power(18, 2) == 324,
        power(27, 2) == 729,
        power(72, 2) == 5184,
        power(80, 2) == 6400,
        power(90, 2) == 8100,
{
    reveal_with_fuel(power, 3);
    assert(power(0, 1) == 0) by (nonlinear_arith)
        requires
            power(0, 1) == 0 * power(0, 0),
            power(0, 0) == 1,
    ;
    assert(power(0, 2) == 0) by (nonlinear_arith)
        requires
            power(0, 2) == 0 * power(0, 1),
            power(0, 1) == 0,
    ;
    assert(power(18, 1) == 18) by (nonlinear_arith)
        requires
            power(18, 1) == 18 * power(18, 0),
            power(18, 0) == 1,
    ;
    assert(power(18, 2) == 324) by (nonlinear_arith)
        requires
            power(18, 2) == 18 * power(18, 1),
            power(18, 1) == 18,
    ;
    assert(power(27, 1) == 27) by (nonlinear_arith)
        requires
            power(27, 1) == 27 * power(27, 0),
            power(27, 0) == 1,
    ;
    assert(power(27, 2) == 729) by (nonlinear_arith)
        requires
            power(27, 2) == 27 * power(27, 1),
            power(27, 1) == 27,
    ;
    assert(power(72, 1) == 72) by (nonlinear_arith)
        requires
            power(72, 1) == 72 * power(72, 0),
            power(72, 0) == 1,
    ;
    assert(power(72, 2) == 5184) by (nonlinear_arith)
        requires
            power(72, 2) == 72 * power(72, 1),
            power(72, 1) == 72,
    ;
    assert(power(80, 1) == 80) by (nonlinear_arith)
        requires
            power(80, 1) == 80 * power(80, 0),
            power(80, 0) == 1,
    ;
    assert(power(80, 2) == 6400) by (nonlinear_arith)
        requires
            power(80, 2) == 80 * power(80, 1),
            power(80, 1) == 80,
    ;
    assert(power(90, 1) == 90) by (nonlinear_arith)
        requires
            power(90, 1) == 90 * power(90, 0),
            power(90, 0) == 1,
    ;
    assert(power(90, 2) == 8100) by (nonlinear_arith)
        requires
            power(90, 2) == 90 * power(90, 1),
            power(90, 1) == 90,
    ;
}

proof fn powers_3()
    ensures
        power(0, 3) == 0,
        power(18, 3) == 5832,
        power(27, 3) == 19683,
        power(72, 3) == 373248,
        power(80, 3) == 512000,
        power(90, 3) == 729000,
{
    reveal_with_fuel(power, 4);
    assert(power(0, 1) == 0) by (nonlinear_arith)
        requires
            power(0, 1) == 0 * power(0, 0),
            power(0, 0) == 1,
    ;
    assert(power(0, 2) == 0) by (nonlinear_arith)
        requires
            power(0, 2) == 0 * power(0, 1),
            power(0, 1) == 0,
    ;
    assert(power(0, 3) == 0) by (nonlinear_arith)
        requires
            power(0, 3) == 0 * power(0, 2),
            power(0, 2) == 0,
    ;
    assert(power(18, 1) == 18) by (nonlinear_arith)
        requires
            power(18, 1) == 18 * power(18, 0),
            power(18, 0) == 1,
    ;
    assert(power(18, 2) == 324) by (nonlinear_arith)
        requires
            power(18, 2) == 18 * power(18, 1),
            power(18, 1) == 18,
    ;
    assert(power(18, 3) == 5832) by (nonlinear_arith)
        requires
            power(18, 3) == 18 * power(18, 2),
            power(18, 2) == 324,
    ;
    assert(power(27, 1) == 27) by (nonlinear_arith)
        requires
            power(27, 1) == 27 * power(27, 0),
            power(27, 0) == 1,
    ;
    assert(power(27, 2) == 729) by (nonlinear_arith)
        requires
            power(27, 2) == 27 * power(27, 1),
            power(27, 1) == 27,
    ;
    assert(power(27, 3) == 19683) by (nonlinear_arith)
        requires
            power(27, 3) == 27 * power(27, 2),
            power(27, 2) == 729,
    ;
    assert(power(72, 1) == 72) by (nonlinear_arith)
        requires
            power(72, 1) == 72 * power(72, 0),
            power(72, 0) == 1,
    ;
    assert(power(72, 2) == 5184) by (nonlinear_arith)
        requires
            power(72, 2) == 72 * power(72, 1),
            power(72, 1) == 72,
    ;
    assert(power(72, 3) == 373248) by (nonlinear_arith)
        requires
            power(72, 3) == 72 * power(72, 2),
            power(72, 2) == 5184,
    ;
    assert(power(80, 1) == 80) by (nonlinear_arith)
        requires
            power(80, 1) == 80 * power(80, 0),
            power(80, 0) == 1,
    ;
    assert(power(80, 2) == 6400) by (nonlinear_arith)
        requires
            power(80, 2) == 80 * power(80, 1),
            power(80, 1) == 80,
    ;
    assert(power(80, 3) == 512000) by (nonlinear_arith)
        requires
            power(80, 3) == 80 * power(80, 2),
            power(80, 2) == 6400,
    ;
    assert(power(90, 1) == 90) by (nonlinear_arith)
        requires
            power(90, 1) == 90 * power(90, 0),
            power(90, 0) == 1,
    ;
    assert(power(90, 2) == 8100) by (nonlinear_arith)
        requires
            power(90, 2) == 90 * power(90, 1),
            power(90, 1) == 90,
    ;
    assert(power(90, 3) == 729000) by (nonlinear_arith)
        requires
            power(90, 3) == 90 * power(90, 2),
            power(90, 2) == 8100,
    ;
}

proof fn powers_4()
    ensures
        power(0, 4) == 0,
        power(18, 4) == 104976,
        power(27, 4) == 531441,
        power(72, 4) == 26873856,
        power(80, 4) == 40960000,
        power(90, 4) == 65610000,
{
    reveal_with_fuel(power, 5);
    assert(power(0, 1) == 0) by (nonlinear_arith)
        requires
            power(0, 1) == 0 * power(0, 0),
            power(0, 0) == 1,
    ;
    assert(power(0, 2) == 0) by (nonlinear_arith)
        requires
            power(0, 2) == 0 * power(0, 1),
            power(0, 1) == 0,
    ;
    assert(power(0, 3) == 0) by (nonlinear_arith)
        requires
            power(0, 3) == 0 * power(0, 2),
            power(0, 2) == 0,
    ;
    assert(power(0, 4) == 0) by (nonlinear_arith)
        requires
            power(0, 4) == 0 * power(0, 3),
            power(0, 3) == 0,
    ;
    assert(power(18, 1) == 18) by (nonlinear_arith)
        requires
            power(18, 1) == 18 * power(18, 0),
            power(18, 0) == 1,
    ;
    assert(power(18, 2) == 324) by (nonlinear_arith)
        requires
            power(18, 2) == 18 * power(18, 1),
            power(18, 1) == 18,
    ;
    assert(power(18, 3) == 5832) by (nonlinear_arith)
        requires
            power(18, 3) == 18 * power(18, 2),
            power(18, 2) == 324,
    ;
    assert(power(18, 4) == 104976) by (nonlinear_arith)
        requires
            power(18, 4) == 18 * power(18, 3),
            power(18, 3) == 5832,
    ;
    assert(power(27, 1) == 27) by (nonlinear_arith)
        requires
            power(27, 1) == 27 * power(27, 0),
            power(27, 0) == 1,
    ;
    assert(power(27, 2) == 729) by (nonlinear_arith)
        requires
            power(27, 2) == 27 * power(27, 1),
            power(27, 1) == 27,
    ;
    assert(power(27, 3) == 19683) by (nonlinear_arith)
        requires
            power(27, 3) == 27 * power(27, 2),
            power(27, 2) == 729,
    ;
    assert(power(27, 4) == 531441) by (nonlinear_arith)
        requires
            power(27, 4) == 27 * power(27, 3),
            power(27, 3) == 19683,
    ;
    assert(power(72, 1) == 72) by (nonlinear_arith)
        requires
            power(72, 1) == 72 * power(72, 0),
            power(72, 0) == 1,
    ;
    assert(power(72, 2) == 5184) by (nonlinear_arith)
        requires
            power(72, 2) == 72 * power(72, 1),
            power(72, 1) == 72,
    ;
    assert(power(72, 3) == 373248) by (nonlinear_arith)
        requires
            power(72, 3) == 72 * power(72, 2),
            power(72, 2) == 5184,
    ;
    assert(power(72, 4) == 26873856) by (nonlinear_arith)
        requires
            power(72, 4) == 72 * power(72, 3),
            power(72, 3) == 373248,
    ;
    assert(power(80, 1) == 80) by (nonlinear_arith)
        requires
            power(80, 1) == 80 * power(80, 0),
            power(80, 0) == 1,
    ;
    assert(power(80, 2) == 6400) by (nonlinear_arith)
        requires
            power(80, 2) == 80 * power(80, 1),
            power(80, 1) == 80,
    ;
    assert(power(80, 3) == 512000) by (nonlinear_arith)
        requires
            power(80, 3) == 80 * power(80, 2),
            power(80, 2) == 6400,
    ;
    assert(power(80, 4) == 40960000) by (nonlinear_arith)
        requires
            power(80, 4) == 80 * power(80, 3),
            power(80, 3) == 512000,
    ;
    assert(power(90, 1) == 90) by (nonlinear_arith)
        requires
            power(90, 1) == 90 * power(90, 0),
            power(90, 0) == 1,
    ;
    assert(power(90, 2) == 8100) by (nonlinear_arith)
        requires
            power(90, 2) == 90 * power(90, 1),
            power(90, 1) == 90,
    ;
    assert(power(90, 3) == 729000) by (nonlinear_arith)
        requires
            power(90, 3) == 90 * power(90, 2),
            power(90, 2) == 8100,
    ;
    assert(power(90, 4) == 65610000) by (nonlinear_arith)
        requires
            power(90, 4) == 90 * power(90, 3),
            power(90, 3) == 729000,
    ;
}

proof fn fifth_counted(whole: int)
    requires
        whole == 171_362_822_400,
    ensures
        fifth(0).of(whole) == 15619007250,
        fifth(1).of(whole) == 0,
        fifth(2).of(whole) == 76982400000,
        fifth(3).of(whole) == 111564337500,
        fifth(4).of(whole) == -55243291950,
        fifth(5).of(whole) == 22440369600,
        fifth(6).of(whole) == 0,
{
    counts(fifth(0), whole, 35, 384, 15619007250);
    counts(fifth(1), whole, 0, 1, 0);
    counts(fifth(2), whole, 500, 1113, 76982400000);
    counts(fifth(3), whole, 125, 192, 111564337500);
    counts(fifth(4), whole, -2187, 6784, -55243291950);
    counts(fifth(5), whole, 11, 84, 22440369600);
    counts(fifth(6), whole, 0, 1, 0);
}

proof fn fourth_counted(whole: int)
    requires
        whole == 171_362_822_400,
    ensures
        fourth(0).of(whole) == 15407778771,
        fourth(1).of(whole) == 0,
        fourth(2).of(whole) == 77711166720,
        fourth(3).of(whole) == 105227483130,
        fourth(4).of(whole) == -46527128109,
        fourth(5).of(whole) == 15259451328,
        fourth(6).of(whole) == 4284070560,
{
    counts(fourth(0), whole, 5179, 57600, 15407778771);
    counts(fourth(1), whole, 0, 1, 0);
    counts(fourth(2), whole, 7571, 16695, 77711166720);
    counts(fourth(3), whole, 393, 640, 105227483130);
    counts(fourth(4), whole, -92097, 339200, -46527128109);
    counts(fourth(5), whole, 187, 2100, 15259451328);
    counts(fourth(6), whole, 1, 40, 4284070560);
}

/// The step that is taken integrates powers of the time exactly up to the fourth,
/// and the one that it is held against up to the third: the orders of the pair.
#[verifier::rlimit(40)]
pub proof fn steps_have_their_order(whole: int)
    requires
        whole == 171_362_822_400,
    ensures
        2 * moment(|j: usize| fifth(j), whole, 1) == whole * 90,
        3 * moment(|j: usize| fifth(j), whole, 2) == whole * 8_100,
        4 * moment(|j: usize| fifth(j), whole, 3) == whole * 729_000,
        5 * moment(|j: usize| fifth(j), whole, 4) == whole * 65_610_000,
        2 * moment(|j: usize| fourth(j), whole, 1) == whole * 90,
        3 * moment(|j: usize| fourth(j), whole, 2) == whole * 8_100,
        4 * moment(|j: usize| fourth(j), whole, 3) == whole * 729_000,
{
    stages_are_placed();
    fifth_counted(whole);
    fourth_counted(whole);
    assert(moment(|j: usize| fifth(j), whole, 1) == 7711327008000) by {
        powers_1();
        let w = |j: usize| fifth(j);
        assert(w(0).of(whole) * power(place(0), 1) == 0) by (nonlinear_arith)
            requires
                w(0).of(whole) == 15619007250,
                power(place(0), 1) == 0,
        ;
        assert(w(1).of(whole) * power(place(1), 1) == 0) by (nonlinear_arith)
            requires
                w(1).of(whole) == 0,
                power(place(1), 1) == 18,
        ;
        assert(w(2).of(whole) * power(place(2), 1) == 2078524800000) by (nonlinear_arith)
            requires
                w(2).of(whole) == 76982400000,
                power(place(2), 1) == 27,
        ;
        assert(w(3).of(whole) * power(place(3), 1) == 8032632300000) by (nonlinear_arith)
            requires
                w(3).of(whole) == 111564337500,
                power(place(3), 1) == 72,
        ;
        assert(w(4).of(whole) * power(place(4), 1) == -4419463356000) by (nonlinear_arith)
            requires
                w(4).of(whole) == -55243291950,
                power(place(4), 1) == 80,
        ;
        assert(w(5).of(whole) * power(place(5), 1) == 2019633264000) by (nonlinear_arith)
            requires
                w(5).of(whole) == 22440369600,
                power(place(5), 1) == 90,
        ;
        assert(w(6).of(whole) * power(place(6), 1) == 0) by (nonlinear_arith)
            requires
                w(6).of(whole) == 0,
                power(place(6), 1) == 90,
        ;
    }
    assert(moment(|j: usize| fifth(j), whole, 2) == 462679620480000) by {
        powers_2();
        let w = |j: usize| fifth(j);
        assert(w(0).of(whole) * power(place(0), 2) == 0) by (nonlinear_arith)
            requires
                w(0).of(whole) == 15619007250,
                power(place(0), 2) == 0,
        ;
        assert(w(1).of(whole) * power(place(1), 2) == 0) by (nonlinear_arith)
            requires
                w(1).of(whole) == 0,
                power(place(1), 2) == 324,
        ;
        assert(w(2).of(whole) * power(place(2), 2) == 56120169600000) by (nonlinear_arith)
            requires
                w(2).of(whole) == 76982400000,
                power(place(2), 2) == 729,
        ;
        assert(w(3).of(whole) * power(place(3), 2) == 578349525600000) by (nonlinear_arith)
            requires
                w(3).of(whole) == 111564337500,
                power(place(3), 2) == 5184,
        ;
        assert(w(4).of(whole) * power(place(4), 2) == -353557068480000) by (nonlinear_arith)
            requires
                w(4).of(whole) == -55243291950,
                power(place(4), 2) == 6400,
        ;
        assert(w(5).of(whole) * power(place(5), 2) == 181766993760000) by (nonlinear_arith)
            requires
                w(5).of(whole) == 22440369600,
                power(place(5), 2) == 8100,
        ;
        assert(w(6).of(whole) * power(place(6), 2) == 0) by (nonlinear_arith)
            requires
                w(6).of(whole) == 0,
                power(place(6), 2) == 8100,
        ;
    }
    assert(moment(|j: usize| fifth(j), whole, 3) == 31230874382400000) by {
        powers_3();
        let w = |j: usize| fifth(j);
        assert(w(0).of(whole) * power(place(0), 3) == 0) by (nonlinear_arith)
            requires
                w(0).of(whole) == 15619007250,
                power(place(0), 3) == 0,
        ;
        assert(w(1).of(whole) * power(place(1), 3) == 0) by (nonlinear_arith)
            requires
                w(1).of(whole) == 0,
                power(place(1), 3) == 5832,
        ;
        assert(w(2).of(whole) * power(place(2), 3) == 1515244579200000) by (nonlinear_arith)
            requires
                w(2).of(whole) == 76982400000,
                power(place(2), 3) == 19683,
        ;
        assert(w(3).of(whole) * power(place(3), 3) == 41641165843200000) by (nonlinear_arith)
            requires
                w(3).of(whole) == 111564337500,
                power(place(3), 3) == 373248,
        ;
        assert(w(4).of(whole) * power(place(4), 3) == -28284565478400000) by (nonlinear_arith)
            requires
                w(4).of(whole) == -55243291950,
                power(place(4), 3) == 512000,
        ;
        assert(w(5).of(whole) * power(place(5), 3) == 16359029438400000) by (nonlinear_arith)
            requires
                w(5).of(whole) == 22440369600,
                power(place(5), 3) == 729000,
        ;
        assert(w(6).of(whole) * power(place(6), 3) == 0) by (nonlinear_arith)
            requires
                w(6).of(whole) == 0,
                power(place(6), 3) == 729000,
        ;
    }
    assert(moment(|j: usize| fifth(j), whole, 4) == 2248622955532800000) by {
        powers_4();
        let w = |j: usize| fifth(j);
        assert(w(0).of(whole) * power(place(0), 4) == 0) by (nonlinear_arith)
            requires
                w(0).of(whole) == 15619007250,
                power(place(0), 4) == 0,
        ;
        assert(w(1).of(whole) * power(place(1), 4) == 0) by (nonlinear_arith)
            requires
                w(1).of(whole) == 0,
                power(place(1), 4) == 104976,
        ;
        assert(w(2).of(whole) * power(place(2), 4) == 40911603638400000) by (nonlinear_arith)
            requires
                w(2).of(whole) == 76982400000,
                power(place(2), 4) == 531441,
        ;
        assert(w(3).of(whole) * power(place(3), 4) == 2998163940710400000) by (nonlinear_arith)
            requires
                w(3).of(whole) == 111564337500,
                power(place(3), 4) == 26873856,
        ;
        assert(w(4).of(whole) * power(place(4), 4) == -2262765238272000000) by (nonlinear_arith)
            requires
                w(4).of(whole) == -55243291950,
                power(place(4), 4) == 40960000,
        ;
        assert(w(5).of(whole) * power(place(5), 4) == 1472312649456000000) by (nonlinear_arith)
            requires
                w(5).of(whole) == 22440369600,
                power(place(5), 4) == 65610000,
        ;
        assert(w(6).of(whole) * power(place(6), 4) == 0) by (nonlinear_arith)
            requires
                w(6).of(whole) == 0,
                power(place(6), 4) == 65610000,
        ;
    }
    assert(moment(|j: usize| fourth(j), whole, 1) == 7711327008000) by {
        powers_1();
        let w = |j: usize| fourth(j);
        assert(w(0).of(whole) * power(place(0), 1) == 0) by (nonlinear_arith)
            requires
                w(0).of(whole) == 15407778771,
                power(place(0), 1) == 0,
        ;
        assert(w(1).of(whole) * power(place(1), 1) == 0) by (nonlinear_arith)
            requires
                w(1).of(whole) == 0,
                power(place(1), 1) == 18,
        ;
        assert(w(2).of(whole) * power(place(2), 1) == 2098201501440) by (nonlinear_arith)
            requires
                w(2).of(whole) == 77711166720,
                power(place(2), 1) == 27,
        ;
        assert(w(3).of(whole) * power(place(3), 1) == 7576378785360) by (nonlinear_arith)
            requires
                w(3).of(whole) == 105227483130,
                power(place(3), 1) == 72,
        ;
        assert(w(4).of(whole) * power(place(4), 1) == -3722170248720) by (nonlinear_arith)
            requires
                w(4).of(whole) == -46527128109,
                power(place(4), 1) == 80,
        ;
        assert(w(5).of(whole) * power(place(5), 1) == 1373350619520) by (nonlinear_arith)
            requires
                w(5).of(whole) == 15259451328,
                power(place(5), 1) == 90,
        ;
        assert(w(6).of(whole) * power(place(6), 1) == 385566350400) by (nonlinear_arith)
            requires
                w(6).of(whole) == 4284070560,
                power(place(6), 1) == 90,
        ;
    }
    assert(moment(|j: usize| fourth(j), whole, 2) == 462679620480000) by {
        powers_2();
        let w = |j: usize| fourth(j);
        assert(w(0).of(whole) * power(place(0), 2) == 0) by (nonlinear_arith)
            requires
                w(0).of(whole) == 15407778771,
                power(place(0), 2) == 0,
        ;
        assert(w(1).of(whole) * power(place(1), 2) == 0) by (nonlinear_arith)
            requires
                w(1).of(whole) == 0,
                power(place(1), 2) == 324,
        ;
        assert(w(2).of(whole) * power(place(2), 2) == 56651440538880) by (nonlinear_arith)
            requires
                w(2).of(whole) == 77711166720,
                power(place(2), 2) == 729,
        ;
        assert(w(3).of(whole) * power(place(3), 2) == 545499272545920) by (nonlinear_arith)
            requires
                w(3).of(whole) == 105227483130,
                power(place(3), 2) == 5184,
        ;
        assert(w(4).of(whole) * power(place(4), 2) == -297773619897600) by (nonlinear_arith)
            requires
                w(4).of(whole) == -46527128109,
                power(place(4), 2) == 6400,
        ;
        assert(w(5).of(whole) * power(place(5), 2) == 123601555756800) by (nonlinear_arith)
            requires
                w(5).of(whole) == 15259451328,
                power(place(5), 2) == 8100,
        ;
        assert(w(6).of(whole) * power(place(6), 2) == 34700971536000) by (nonlinear_arith)
            requires
                w(6).of(whole) == 4284070560,
                power(place(6), 2) == 8100,
        ;
    }
    assert(moment(|j: usize| fourth(j), whole, 3) == 31230874382400000) by {
        powers_3();
        let w = |j: usize| fourth(j);
        assert(w(0).of(whole) * power(place(0), 3) == 0) by (nonlinear_arith)
            requires
                w(0).of(whole) == 15407778771,
                power(place(0), 3) == 0,
        ;
        assert(w(1).of(whole) * power(place(1), 3) == 0) by (nonlinear_arith)
            requires
                w(1).of(whole) == 0,
                power(place(1), 3) == 5832,
        ;
        assert(w(2).of(whole) * power(place(2), 3) == 1529588894549760) by (nonlinear_arith)
            requires
                w(2).of(whole) == 77711166720,
                power(place(2), 3) == 19683,
        ;
        assert(w(3).of(whole) * power(place(3), 3) == 39275947623306240) by (nonlinear_arith)
            requires
                w(3).of(whole) == 105227483130,
                power(place(3), 3) == 373248,
        ;
        assert(w(4).of(whole) * power(place(4), 3) == -23821889591808000) by (nonlinear_arith)
            requires
                w(4).of(whole) == -46527128109,
                power(place(4), 3) == 512000,
        ;
        assert(w(5).of(whole) * power(place(5), 3) == 11124140018112000) by (nonlinear_arith)
            requires
                w(5).of(whole) == 15259451328,
                power(place(5), 3) == 729000,
        ;
        assert(w(6).of(whole) * power(place(6), 3) == 3123087438240000) by (nonlinear_arith)
            requires
                w(6).of(whole) == 4284070560,
                power(place(6), 3) == 729000,
        ;
    }
}

/// Every stage after the second sits on the parabola: its weights make half the
/// square of its place out of the places before it.
#[verifier::rlimit(40)]
pub proof fn stages_are_of_second_order(stage: usize, whole: int)
    requires
        1 <= stage < STAGES,
        whole == 171_362_822_400,
    ensures
        180 * (weight(stage, 0).of(whole) * place(0) + weight(stage, 1).of(whole) * place(1)
            + weight(stage, 2).of(whole) * place(2) + weight(stage, 3).of(whole) * place(3)
            + weight(stage, 4).of(whole) * place(4) + weight(stage, 5).of(whole) * place(5))
            == whole * (place((stage + 1) as usize) * place((stage + 1) as usize)),
{
    stages_are_placed();
    if stage == 1 {
        counts(weight(1, 0), whole, 3, 40, 12852211680);
        counts(weight(1, 1), whole, 9, 40, 38556635040);
        counts(weight(1, 2), whole, 0, 1, 0);
        counts(weight(1, 3), whole, 0, 1, 0);
        counts(weight(1, 4), whole, 0, 1, 0);
        counts(weight(1, 5), whole, 0, 1, 0);
        assert(weight(1, 0).of(whole) * place(0) == 0) by (nonlinear_arith)
            requires
                weight(1, 0).of(whole) == 12852211680,
                place(0) == 0,
        ;
        assert(weight(1, 1).of(whole) * place(1) == 694019430720) by (nonlinear_arith)
            requires
                weight(1, 1).of(whole) == 38556635040,
                place(1) == 18,
        ;
        assert(weight(1, 2).of(whole) * place(2) == 0) by (nonlinear_arith)
            requires
                weight(1, 2).of(whole) == 0,
                place(2) == 27,
        ;
        assert(weight(1, 3).of(whole) * place(3) == 0) by (nonlinear_arith)
            requires
                weight(1, 3).of(whole) == 0,
                place(3) == 72,
        ;
        assert(weight(1, 4).of(whole) * place(4) == 0) by (nonlinear_arith)
            requires
                weight(1, 4).of(whole) == 0,
                place(4) == 80,
        ;
        assert(weight(1, 5).of(whole) * place(5) == 0) by (nonlinear_arith)
            requires
                weight(1, 5).of(whole) == 0,
                place(5) == 90,
        ;
        assert(place(2) * place(2) == 729) by (nonlinear_arith)
            requires
                place(2) == 27,
        ;
    } else if stage == 2 {
        counts(weight(2, 0), whole, 44, 45, 167554759680);
        counts(weight(2, 1), whole, -56, 15, -639754536960);
        counts(weight(2, 2), whole, 32, 9, 609290035200);
        counts(weight(2, 3), whole, 0, 1, 0);
        counts(weight(2, 4), whole, 0, 1, 0);
        counts(weight(2, 5), whole, 0, 1, 0);
        assert(weight(2, 0).of(whole) * place(0) == 0) by (nonlinear_arith)
            requires
                weight(2, 0).of(whole) == 167554759680,
                place(0) == 0,
        ;
        assert(weight(2, 1).of(whole) * place(1) == -11515581665280) by (nonlinear_arith)
            requires
                weight(2, 1).of(whole) == -639754536960,
                place(1) == 18,
        ;
        assert(weight(2, 2).of(whole) * place(2) == 16450830950400) by (nonlinear_arith)
            requires
                weight(2, 2).of(whole) == 609290035200,
                place(2) == 27,
        ;
        assert(weight(2, 3).of(whole) * place(3) == 0) by (nonlinear_arith)
            requires
                weight(2, 3).of(whole) == 0,
                place(3) == 72,
        ;
        assert(weight(2, 4).of(whole) * place(4) == 0) by (nonlinear_arith)
            requires
                weight(2, 4).of(whole) == 0,
                place(4) == 80,
        ;
        assert(weight(2, 5).of(whole) * place(5) == 0) by (nonlinear_arith)
            requires
                weight(2, 5).of(whole) == 0,
                place(5) == 90,
        ;
        assert(place(3) * place(3) == 5184) by (nonlinear_arith)
            requires
                place(3) == 72,
        ;
    } else if stage == 3 {
        counts(weight(3, 0), whole, 19372, 6561, 505965644800);
        counts(weight(3, 1), whole, -25360, 2187, -1987087872000);
        counts(weight(3, 2), whole, 64448, 6561, 1683278643200);
        counts(weight(3, 3), whole, -212, 729, -49833907200);
        counts(weight(3, 4), whole, 0, 1, 0);
        counts(weight(3, 5), whole, 0, 1, 0);
        assert(weight(3, 0).of(whole) * place(0) == 0) by (nonlinear_arith)
            requires
                weight(3, 0).of(whole) == 505965644800,
                place(0) == 0,
        ;
        assert(weight(3, 1).of(whole) * place(1) == -35767581696000) by (nonlinear_arith)
            requires
                weight(3, 1).of(whole) == -1987087872000,
                place(1) == 18,
        ;
        assert(weight(3, 2).of(whole) * place(2) == 45448523366400) by (nonlinear_arith)
            requires
                weight(3, 2).of(whole) == 1683278643200,
                place(2) == 27,
        ;
        assert(weight(3, 3).of(whole) * place(3) == -3588041318400) by (nonlinear_arith)
            requires
                weight(3, 3).of(whole) == -49833907200,
                place(3) == 72,
        ;
        assert(weight(3, 4).of(whole) * place(4) == 0) by (nonlinear_arith)
            requires
                weight(3, 4).of(whole) == 0,
                place(4) == 80,
        ;
        assert(weight(3, 5).of(whole) * place(5) == 0) by (nonlinear_arith)
            requires
                weight(3, 5).of(whole) == 0,
                place(5) == 90,
        ;
        assert(place(4) * place(4) == 6400) by (nonlinear_arith)
            requires
                place(4) == 80,
        ;
    } else if stage == 4 {
        counts(weight(4, 0), whole, 9017, 3168, 487745760600);
        counts(weight(4, 1), whole, -355, 33, -1843448544000);
        counts(weight(4, 2), whole, 46732, 5247, 1526229734400);
        counts(weight(4, 3), whole, 49, 176, 47708967600);
        counts(weight(4, 4), whole, -5103, 18656, -46873096200);
        counts(weight(4, 5), whole, 0, 1, 0);
        assert(weight(4, 0).of(whole) * place(0) == 0) by (nonlinear_arith)
            requires
                weight(4, 0).of(whole) == 487745760600,
                place(0) == 0,
        ;
        assert(weight(4, 1).of(whole) * place(1) == -33182073792000) by (nonlinear_arith)
            requires
                weight(4, 1).of(whole) == -1843448544000,
                place(1) == 18,
        ;
        assert(weight(4, 2).of(whole) * place(2) == 41208202828800) by (nonlinear_arith)
            requires
                weight(4, 2).of(whole) == 1526229734400,
                place(2) == 27,
        ;
        assert(weight(4, 3).of(whole) * place(3) == 3435045667200) by (nonlinear_arith)
            requires
                weight(4, 3).of(whole) == 47708967600,
                place(3) == 72,
        ;
        assert(weight(4, 4).of(whole) * place(4) == -3749847696000) by (nonlinear_arith)
            requires
                weight(4, 4).of(whole) == -46873096200,
                place(4) == 80,
        ;
        assert(weight(4, 5).of(whole) * place(5) == 0) by (nonlinear_arith)
            requires
                weight(4, 5).of(whole) == 0,
                place(5) == 90,
        ;
        assert(place(5) * place(5) == 8100) by (nonlinear_arith)
            requires
                place(5) == 90,
        ;
    } else if stage == 5 {
        counts(weight(5, 0), whole, 35, 384, 15619007250);
        counts(weight(5, 1), whole, 0, 1, 0);
        counts(weight(5, 2), whole, 500, 1113, 76982400000);
        counts(weight(5, 3), whole, 125, 192, 111564337500);
        counts(weight(5, 4), whole, -2187, 6784, -55243291950);
        counts(weight(5, 5), whole, 11, 84, 22440369600);
        assert(weight(5, 0).of(whole) * place(0) == 0) by (nonlinear_arith)
            requires
                weight(5, 0).of(whole) == 15619007250,
                place(0) == 0,
        ;
        assert(weight(5, 1).of(whole) * place(1) == 0) by (nonlinear_arith)
            requires
                weight(5, 1).of(whole) == 0,
                place(1) == 18,
        ;
        assert(weight(5, 2).of(whole) * place(2) == 2078524800000) by (nonlinear_arith)
            requires
                weight(5, 2).of(whole) == 76982400000,
                place(2) == 27,
        ;
        assert(weight(5, 3).of(whole) * place(3) == 8032632300000) by (nonlinear_arith)
            requires
                weight(5, 3).of(whole) == 111564337500,
                place(3) == 72,
        ;
        assert(weight(5, 4).of(whole) * place(4) == -4419463356000) by (nonlinear_arith)
            requires
                weight(5, 4).of(whole) == -55243291950,
                place(4) == 80,
        ;
        assert(weight(5, 5).of(whole) * place(5) == 2019633264000) by (nonlinear_arith)
            requires
                weight(5, 5).of(whole) == 22440369600,
                place(5) == 90,
        ;
        assert(place(6) * place(6) == 8100) by (nonlinear_arith)
            requires
                place(6) == 90,
        ;
    }
}

} // verus!
