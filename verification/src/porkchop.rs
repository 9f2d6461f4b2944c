//! The grid of a porkchop plot: departure along one axis, flight time along the
//! other, two speeds in every cell.

use crate::dates::Instant;
use crate::scalar::Scalar;
use crate::words::{big_endian, little_endian, words_of};
use vstd::prelude::*;

verus! {

/// Cells along the departure axis.
pub const NX: usize = 256;

/// Cells along the flight-time axis.
pub const NY: usize = 192;

/// Cells that one group of shader invocations works on, along each axis.
pub const GROUP: usize = 8;

/// Bytes of a cell: two single-precision speeds.
pub const CELL_BYTES: usize = 8;

/// Bit pattern of 1e8 in single precision: a speed as large marks a cell
/// without a solution.
pub const NO_SOLUTION_BITS: u32 = 0x4cbe_bc20;

/// Bit pattern of the single-precision sign.
pub const SIGN: u32 = 0x8000_0000;

/// Bit pattern of the single-precision infinity.
pub const INFINITE: u32 = 0x7f80_0000;

/// Departure and arrival speed of a cell, km/s, as single-precision patterns.
#[derive(Clone, Copy, Debug, PartialEq, Eq, Structural)]
pub struct Cell {
    pub departure: u32,
    pub arrival: u32,
}

/// The number of a single-precision pattern is below 1e8: it is negative and
/// not a NaN, or its pattern is the smaller one.
pub open spec fn below_limit(bits: u32) -> bool {
    bits < NO_SOLUTION_BITS || SIGN <= bits <= SIGN + INFINITE
}

/// How far along an axis a cell lies: `part` of `whole` of the way.
#[derive(Clone, Copy, Debug, PartialEq, Eq, Structural)]
pub struct Fraction {
    pub part: usize,
    pub whole: usize,
}

/// Extent of a grid in departures and flight times.
#[derive(Clone, Copy, Debug, PartialEq, Eq, Structural)]
pub struct GridSpec {
    pub start: Instant,
    pub window_days: Scalar,
    pub tof_min_days: Scalar,
    pub tof_max_days: Scalar,
}

/// The words of some cells: two of each.
pub open spec fn cell_words(cells: Seq<Cell>) -> Seq<u32> {
    Seq::new(
        2 * cells.len(),
        |k: int|
            if k % 2 == 0 {
                cells[k / 2].departure
            } else {
                cells[k / 2].arrival
            },
    )
}

/// The cells that some words hold, two words each.
pub fn cells_of(words: &Vec<u32>) -> (r: Vec<Cell>)
    ensures
        r@.len() == words@.len() / 2,
        cell_words(r@) == words@.take(2 * (words@.len() / 2) as int),
{
    let len: usize = words.len();
    let n: usize = len / 2;
    let mut r: Vec<Cell> = Vec::new();
    let mut i: usize = 0;
    while i < n
        invariant
            i <= n,
            n == words@.len() / 2,
            words@.len() <= usize::MAX,
            r@.len() == i,
            forall|j: int|
                0 <= j < i ==> (#[trigger] r@[j]).departure == words@[2 * j] && r@[j].arrival
                    == words@[2 * j + 1],
        decreases n - i,
    {
        r.push(Cell { departure: words[2 * i], arrival: words[2 * i + 1] });
        i = i + 1;
    }
    assert(cell_words(r@) =~= words@.take(2 * (words@.len() / 2) as int)) by {
        assert forall|k: int| 0 <= k < 2 * r@.len() implies #[trigger] cell_words(r@)[k]
            == words@[k] by {
            assert(r@[k / 2].departure == words@[2 * (k / 2)]);
        }
    }
    r
}

/// One computed grid, row by row: a row holds the departures of one flight
/// time.
pub struct Porkchop {
    pub start: Instant,
    pub window_days: Scalar,
    pub tof_min_days: Scalar,
    pub tof_max_days: Scalar,
    pub grid: Vec<Cell>,
}

impl Porkchop {
    /// The grid is complete.
    pub open spec fn wf(&self) -> bool {
        self.grid@.len() == NX * NY
    }

    /// The extent that the grid covers.
    pub open spec fn extent(&self) -> GridSpec {
        GridSpec {
            start: self.start,
            window_days: self.window_days,
            tof_min_days: self.tof_min_days,
            tof_max_days: self.tof_max_days,
        }
    }

    /// The grid of an extent, from its cells.
    pub fn new(spec: GridSpec, grid: Vec<Cell>) -> (r: Option<Porkchop>)
        ensures
            r is Some <==> grid@.len() == NX * NY,
            r matches Some(p) ==> p.wf() && p.start == spec.start && p.window_days
                == spec.window_days && p.tof_min_days == spec.tof_min_days && p.tof_max_days
                == spec.tof_max_days && p.grid == grid,
            r matches Some(p) ==> p.extent() == spec,
    {
        if grid.len() == NX * NY {
            Some(
                Porkchop {
                    start: spec.start,
                    window_days: spec.window_days,
                    tof_min_days: spec.tof_min_days,
                    tof_max_days: spec.tof_max_days,
                    grid,
                },
            )
        } else {
            None
        }
    }

    /// The grid of an extent, from the bytes that its cells are stored in: the
    /// departure of each cell, then its arrival.
    pub fn read(spec: GridSpec, bytes: &Vec<u8>) -> (r: Option<Porkchop>)
        ensures
            r is Some <==> bytes@.len() == NX * NY * CELL_BYTES,
            r matches Some(p) ==> p.wf() && p.start == spec.start && p.window_days
                == spec.window_days && p.tof_min_days == spec.tof_min_days && p.tof_max_days
                == spec.tof_max_days && (little_endian(cell_words(p.grid@), bytes@)
                || big_endian(cell_words(p.grid@), bytes@)),
            r matches Some(p) ==> p.extent() == spec,
    {
        match words_of(bytes) {
            Some(words) => {
                if words.len() != 2 * NX * NY {
                    return None;
                }
                let grid: Vec<Cell> = cells_of(&words);
                assert(cell_words(grid@) =~= words@);
                Porkchop::new(spec, grid)
            },
            None => None,
        }
    }

    /// The cell of departure `i` and flight time `j`.
    pub fn cell(&self, i: usize, j: usize) -> (r: Cell)
        requires
            j * NX + i < self.grid@.len(),
        ensures
            r == self.grid@[j * NX + i],
    {
        assert(self.grid.len() <= usize::MAX);
        self.grid[j * NX + i]
    }

    /// How far into the window, and into the range of flight times, a cell
    /// lies: the axes run from end to end.
    pub fn cell_time(&self, i: usize, j: usize) -> (r: (Fraction, Fraction))
        ensures
            r == (Fraction { part: i, whole: 255 }, Fraction { part: j, whole: 191 }),
    {
        (Fraction { part: i, whole: NX - 1 }, Fraction { part: j, whole: NY - 1 })
    }

    /// Whether a cell holds a solution: neither speed is marked.
    pub fn is_valid(cell: Cell) -> (r: bool)
        ensures
            r == (below_limit(cell.departure) && below_limit(cell.arrival)),
    {
        (cell.departure < NO_SOLUTION_BITS || (SIGN <= cell.departure && cell.departure <= SIGN
            + INFINITE)) && (cell.arrival < NO_SOLUTION_BITS || (SIGN <= cell.arrival
            && cell.arrival <= SIGN + INFINITE))
    }
}

/// Groups that cover `cells` cells.
pub fn groups(cells: usize) -> (r: usize)
    ensures
        r == (cells + GROUP - 1) / GROUP as int,
        r * GROUP >= cells,
        (r - 1) * GROUP < cells || cells == 0,
{
    if cells % GROUP == 0 {
        cells / GROUP
    } else {
        cells / GROUP + 1
    }
}

/// Samples of the target over a span of `steps` steps.
pub fn span_samples(steps: usize) -> (r: usize)
    requires
        steps <= usize::MAX - 2,
    ensures
        r == steps + 2,
{
    steps + 2
}

/// Two cells share a place in the grid only if they are the same cell, and every
/// cell has a place.
pub proof fn cells_do_not_overlap(i: int, j: int, k: int, l: int)
    requires
        0 <= i < NX && 0 <= j < NY,
        0 <= k < NX && 0 <= l < NY,
    ensures
        0 <= j * NX + i < NX * NY,
        j * NX + i == l * NX + k ==> i == k && j == l,
{
}

/// The limit is a hundred million: its exponent is 26 and its 24 digits are those of an
/// eighth of it. What is not below it has no solution, and no number above it has one.
pub proof fn limit_is_a_hundred_million(a: u32, b: u32)
    ensures
        NO_SOLUTION_BITS == (26 + 127) * 0x80_0000 + (100_000_000int / 8 - 0x80_0000),
        !below_limit(NO_SOLUTION_BITS),
        a <= b < SIGN && below_limit(b) ==> below_limit(a),
        SIGN <= a <= SIGN + INFINITE ==> below_limit(a),
        SIGN + INFINITE < a ==> !below_limit(a),
        INFINITE <= a < SIGN ==> !below_limit(a),
{
}

/// A cell is its departure and then its arrival, and the words of cells one after the
/// other are the words of each, one after the other.
pub proof fn cells_follow_each_other(a: Seq<Cell>, c: Cell)
    ensures
        cell_words(a.push(c)) == cell_words(a) + seq![c.departure, c.arrival],
{
    let all = cell_words(a.push(c));
    let parts = cell_words(a) + seq![c.departure, c.arrival];
    assert forall|k: int| 0 <= k < all.len() implies #[trigger] all[k] == parts[k] by {
        assert(0 <= k / 2 <= a.len());
        if k < 2 * a.len() {
            assert(k / 2 < a.len());
        }
    }
    assert(all =~= parts);
}

} // verus!
