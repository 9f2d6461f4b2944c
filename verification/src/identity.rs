//! The identity of a candidate for the beam: candidates whose quantized genes
//! agree are the same idea.

use vstd::prelude::*;

verus! {

/// FNV-1a offset basis, 64 bits.
pub const FNV_OFFSET: u64 = 0xcbf2_9ce4_8422_2325;

/// FNV-1a prime, 64 bits.
pub const FNV_PRIME: u64 = 0x100_0000_01b3;

/// The genes of a candidate in whole buckets.
pub struct Buckets {
    /// Departure, tenths of a day.
    pub depart: i64,
    /// Flight time of each leg, tenths of a day.
    pub legs: Vec<i64>,
    /// Departure v-infinity, 10 m/s.
    pub vinf_dep: [i64; 3],
    /// Throttle components, twentieths.
    pub thrust: Vec<[i64; 3]>,
    /// Per leg: burn position in fiftieths of the leg, burn in 10 m/s.
    pub dsm: Vec<[i64; 4]>,
    /// Lambert branch of each leg.
    pub branch: Vec<u32>,
}

/// The entries of all rows, row after row.
pub open spec fn flat<const N: usize>(rows: Seq<[i64; N]>) -> Seq<i64>
    decreases rows.len(),
{
    if rows.len() == 0 {
        Seq::empty()
    } else {
        flat(rows.drop_last()) + rows.last()@
    }
}

impl Buckets {
    /// Every gene, in a fixed order.
    pub open spec fn words(&self) -> Seq<i64> {
        seq![self.depart] + self.legs@ + self.vinf_dep@ + flat(self.thrust@) + flat(self.dsm@)
            + self.branch@.map_values(|b: u32| b as i64)
    }
}

/// One byte stirred into an FNV-1a hash.
pub open spec fn stir(h: u64, b: u64) -> u64 {
    (h ^ b).wrapping_mul(FNV_PRIME)
}

/// The low `n` bytes of `w`, lowest first, stirred into a hash.
pub open spec fn stir_bytes(h: u64, w: u64, n: nat) -> u64
    decreases n,
{
    if n == 0 {
        h
    } else {
        stir_bytes(stir(h, w & 0xff), w >> 8u64, (n - 1) as nat)
    }
}

/// A run of words stirred into a hash, each as its eight little-endian bytes.
pub open spec fn stir_words(h: u64, s: Seq<i64>) -> u64
    decreases s.len(),
{
    if s.len() == 0 {
        h
    } else {
        stir_bytes(stir_words(h, s.drop_last()), s.last() as u64, 8)
    }
}

/// The FNV-1a hash of a run of words.
pub open spec fn fnv(s: Seq<i64>) -> u64 {
    stir_words(FNV_OFFSET, s)
}

fn stir_word(h: u64, v: i64) -> (r: u64)
    ensures
        r == stir_bytes(h, v as u64, 8),
{
    let mut acc: u64 = h;
    let mut w: u64 = v as u64;
    let mut left: u8 = 8;
    while left > 0
        invariant
            stir_bytes(acc, w, left as nat) == stir_bytes(h, v as u64, 8),
        decreases left,
    {
        acc = (acc ^ (w & 0xff)).wrapping_mul(FNV_PRIME);
        w = w >> 8u64;
        left = left - 1;
    }
    acc
}

proof fn stir_one_more(h: u64, s: Seq<i64>, v: i64)
    ensures
        stir_words(h, s.push(v)) == stir_bytes(stir_words(h, s), v as u64, 8),
{
    assert(s.push(v).drop_last() =~= s);
}

/// Identity for beam selection: the FNV-1a hash of the quantized genes.
pub fn genome_key(g: &Buckets) -> (r: u64)
    ensures
        r == fnv(g.words()),
{
    let mut h: u64 = stir_word(FNV_OFFSET, g.depart);
    let ghost mut s: Seq<i64> = Seq::<i64>::empty().push(g.depart);
    proof {
        stir_one_more(FNV_OFFSET, Seq::empty(), g.depart);
        assert(s =~= seq![g.depart]);
    }
    let ghost base = s;
    let mut i: usize = 0;
    while i < g.legs.len()
        invariant
            i <= g.legs.len(),
            s == base + g.legs@.take(i as int),
            h == fnv(s),
        decreases g.legs.len() - i,
    {
        h = stir_word(h, g.legs[i]);
        proof {
            stir_one_more(FNV_OFFSET, s, g.legs@[i as int]);
            s = s.push(g.legs@[i as int]);
            assert(s =~= base + g.legs@.take(i + 1));
        }
        i = i + 1;
    }
    proof {
        assert(g.legs@.take(g.legs@.len() as int) =~= g.legs@);
    }
    let ghost base = s;
    i = 0;
    while i < 3
        invariant
            i <= 3,
            s == base + g.vinf_dep@.take(i as int),
            h == fnv(s),
        decreases 3 - i,
    {
        h = stir_word(h, g.vinf_dep[i]);
        proof {
            stir_one_more(FNV_OFFSET, s, g.vinf_dep@[i as int]);
            s = s.push(g.vinf_dep@[i as int]);
            assert(s =~= base + g.vinf_dep@.take(i + 1));
        }
        i = i + 1;
    }
    proof {
        assert(g.vinf_dep@.take(3) =~= g.vinf_dep@);
    }
    let ghost base = s;
    i = 0;
    while i < g.thrust.len()
        invariant
            i <= g.thrust.len(),
            s == base + flat(g.thrust@.take(i as int)),
            h == fnv(s),
        decreases g.thrust.len() - i,
    {
        let row: [i64; 3] = g.thrust[i];
        h = stir_word(h, row[0]);
        h = stir_word(h, row[1]);
        h = stir_word(h, row[2]);
        proof {
            stir_one_more(FNV_OFFSET, s, row[0]);
            stir_one_more(FNV_OFFSET, s.push(row[0]), row[1]);
            stir_one_more(FNV_OFFSET, s.push(row[0]).push(row[1]), row[2]);
            s = s.push(row[0]).push(row[1]).push(row[2]);
            assert(g.thrust@.take(i + 1).drop_last() =~= g.thrust@.take(i as int));
            assert(s =~= base + flat(g.thrust@.take(i + 1)));
        }
        i = i + 1;
    }
    proof {
        assert(g.thrust@.take(g.thrust@.len() as int) =~= g.thrust@);
    }
    let ghost base = s;
    i = 0;
    while i < g.dsm.len()
        invariant
            i <= g.dsm.len(),
            s == base + flat(g.dsm@.take(i as int)),
            h == fnv(s),
        decreases g.dsm.len() - i,
    {
        let row: [i64; 4] = g.dsm[i];
        h = stir_word(h, row[0]);
        h = stir_word(h, row[1]);
        h = stir_word(h, row[2]);
        h = stir_word(h, row[3]);
        proof {
            stir_one_more(FNV_OFFSET, s, row[0]);
            stir_one_more(FNV_OFFSET, s.push(row[0]), row[1]);
            stir_one_more(FNV_OFFSET, s.push(row[0]).push(row[1]), row[2]);
            stir_one_more(FNV_OFFSET, s.push(row[0]).push(row[1]).push(row[2]), row[3]);
            s = s.push(row[0]).push(row[1]).push(row[2]).push(row[3]);
            assert(g.dsm@.take(i + 1).drop_last() =~= g.dsm@.take(i as int));
            assert(s =~= base + flat(g.dsm@.take(i + 1)));
        }
        i = i + 1;
    }
    proof {
        assert(g.dsm@.take(g.dsm@.len() as int) =~= g.dsm@);
    }
    let ghost base = s;
    let ghost tail = g.branch@.map_values(|b: u32| b as i64);
    i = 0;
    while i < g.branch.len()
        invariant
            i <= g.branch.len(),
            tail == g.branch@.map_values(|b: u32| b as i64),
            s == base + tail.take(i as int),
            h == fnv(s),
        decreases g.branch.len() - i,
    {
        h = stir_word(h, g.branch[i] as i64);
        proof {
            stir_one_more(FNV_OFFSET, s, tail[i as int]);
            s = s.push(tail[i as int]);
            assert(s =~= base + tail.take(i + 1));
        }
        i = i + 1;
    }
    proof {
        assert(tail.take(tail.len() as int) =~= tail);
    }
    h
}

proof fn flat_rows<const N: usize>(rows: Seq<[i64; N]>, i: int, k: int)
    requires
        0 <= i < rows.len(),
        0 <= k < N,
    ensures
        flat(rows).len() == rows.len() * N,
        i * N + k < rows.len() * N,
        flat(rows)[i * N + k] == rows[i]@[k],
    decreases rows.len(),
{
    let n = N as int;
    let front = rows.drop_last();
    let len = rows.len() as int;
    flat_len(front);
    flat_len(rows);
    assert(len * n == (len - 1) * n + n) by (nonlinear_arith);
    if i < front.len() {
        flat_rows(front, i, k);
        assert(flat(rows)[i * n + k] == flat(front)[i * n + k]);
    } else {
        assert(i == len - 1);
        assert(i * n == (len - 1) * n) by (nonlinear_arith)
            requires
                i == len - 1,
        ;
    }
    assert(i * n + k < len * n) by (nonlinear_arith)
        requires
            0 <= i < len,
            0 <= k < n,
    ;
}

proof fn flat_len<const N: usize>(rows: Seq<[i64; N]>)
    ensures
        flat(rows).len() == rows.len() * N,
    decreases rows.len(),
{
    let n = N as int;
    let len = rows.len() as int;
    if rows.len() > 0 {
        flat_len(rows.drop_last());
        assert(len * n == (len - 1) * n + n) by (nonlinear_arith);
    } else {
        assert(len * n == 0) by (nonlinear_arith)
            requires
                len == 0,
        ;
    }
}

/// Every gene is a word of its own, whatever the lengths: the departure, then the
/// flight times, the three components of the departure velocity, the throttle row
/// by row, the burns row by row, and the branches.
#[verifier::rlimit(40)]
pub proof fn every_gene_has_its_word(g: Buckets, i: int, k: int)
    ensures
        ({
            let w = g.words();
            let t = 4 + g.legs@.len();
            let d = t + g.thrust@.len() * 3;
            let b = d + g.dsm@.len() * 4;
            &&& w.len() == b + g.branch@.len()
            &&& w[0] == g.depart
            &&& 0 <= i < g.legs@.len() ==> w[1 + i] == g.legs@[i]
            &&& 0 <= k < 3 ==> w[1 + g.legs@.len() + k] == g.vinf_dep@[k]
            &&& 0 <= i < g.thrust@.len() && 0 <= k < 3 ==> w[t + i * 3 + k] == g.thrust@[i]@[k]
            &&& 0 <= i < g.dsm@.len() && 0 <= k < 4 ==> w[d + i * 4 + k] == g.dsm@[i]@[k]
            &&& 0 <= i < g.branch@.len() ==> w[b + i] == g.branch@[i]
        }),
{
    flat_len(g.thrust@);
    flat_len(g.dsm@);
    if 0 <= i < g.thrust@.len() && 0 <= k < 3 {
        flat_rows(g.thrust@, i, k);
    }
    if 0 <= i < g.dsm@.len() && 0 <= k < 4 {
        flat_rows(g.dsm@, i, k);
    }
}

/// A hash goes on from where it stands: the words of one run after those of
/// another are stirred into the hash of the first, one by one, byte by byte.
#[verifier::rlimit(40)]
pub proof fn hash_goes_on(s: Seq<i64>, v: i64)
    ensures
        fnv(Seq::empty()) == 0xcbf2_9ce4_8422_2325,
        fnv(s.push(v)) == {
            let w = v as u64;
            let h0 = (fnv(s) ^ (w & 0xff)).wrapping_mul(FNV_PRIME);
            let h1 = (h0 ^ ((w >> 8u64) & 0xff)).wrapping_mul(FNV_PRIME);
            let h2 = (h1 ^ ((w >> 8u64 >> 8u64) & 0xff)).wrapping_mul(FNV_PRIME);
            let h3 = (h2 ^ ((w >> 8u64 >> 8u64 >> 8u64) & 0xff)).wrapping_mul(FNV_PRIME);
            stir_bytes(h3, w >> 8u64 >> 8u64 >> 8u64 >> 8u64, 4)
        },
{
    stir_one_more(FNV_OFFSET, s, v);
    reveal_with_fuel(stir_bytes, 5);
}

} // verus!
