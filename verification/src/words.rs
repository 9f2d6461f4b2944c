//! Words as the bytes that a graphics device reads and writes.

use vstd::prelude::*;

verus! {

/// The `k`-th byte of a word, the lowest first.
pub open spec fn byte_of(w: u32, k: int) -> int {
    if k == 0 {
        w as int % 256
    } else if k == 1 {
        w as int / 256 % 256
    } else if k == 2 {
        w as int / 65536 % 256
    } else {
        w as int / 16777216
    }
}

/// The words lowest byte first.
pub open spec fn little_endian(words: Seq<u32>, bytes: Seq<u8>) -> bool {
    forall|i: int, k: int|
        0 <= i < words.len() && 0 <= k < 4 ==> bytes[4 * i + k] == #[trigger] byte_of(words[i], k)
}

/// The words highest byte first.
pub open spec fn big_endian(words: Seq<u32>, bytes: Seq<u8>) -> bool {
    forall|i: int, k: int|
        0 <= i < words.len() && 0 <= k < 4 ==> bytes[4 * i + 3 - k] == #[trigger] byte_of(
            words[i],
            k,
        )
}

/// `bytemuck::cast_slice` from words to bytes: the bytes as they lie in memory,
/// four of each word, in the byte order of the machine.
#[verifier::external_body]
pub(crate) fn raw_bytes(words: &Vec<u32>) -> (r: Vec<u8>)
    ensures
        r@.len() == 4 * words@.len(),
        little_endian(words@, r@) || big_endian(words@, r@),
{
    bytemuck::cast_slice::<u32, u8>(words.as_slice()).to_vec()
}

/// `bytemuck::cast_slice_mut` from words to bytes, written through: the words
/// whose bytes, as they lie in memory in the byte order of the machine, are
/// those given.
#[verifier::external_body]
pub(crate) fn fill_words(words: &mut Vec<u32>, bytes: &Vec<u8>)
    requires
        bytes@.len() == 4 * old(words)@.len(),
    ensures
        final(words)@.len() == old(words)@.len(),
        little_endian(final(words)@, bytes@) || big_endian(final(words)@, bytes@),
{
    bytemuck::cast_slice_mut::<u32, u8>(words.as_mut_slice()).copy_from_slice(bytes.as_slice());
}

/// The words that some bytes hold, four bytes each; `None` where a word is cut
/// short.
pub fn words_of(bytes: &Vec<u8>) -> (r: Option<Vec<u32>>)
    ensures
        r is Some <==> bytes@.len() % 4 == 0,
        r matches Some(words) ==> bytes@.len() == 4 * words@.len() && (little_endian(
            words@,
            bytes@,
        ) || big_endian(words@, bytes@)),
{
    if bytes.len() % 4 != 0 {
        return None;
    }
    let n: usize = bytes.len() / 4;
    let mut words: Vec<u32> = Vec::new();
    let mut i: usize = 0;
    while i < n
        invariant
            i <= n,
            words@.len() == i,
        decreases n - i,
    {
        words.push(0);
        i = i + 1;
    }
    fill_words(&mut words, bytes);
    Some(words)
}

proof fn word_of_bytes(a: u32, b: u32)
    requires
        forall|k: int| 0 <= k < 4 ==> #[trigger] byte_of(a, k) == byte_of(b, k),
    ensures
        a == b,
{
    assert(byte_of(a, 0) == byte_of(b, 0));
    assert(byte_of(a, 1) == byte_of(b, 1));
    assert(byte_of(a, 2) == byte_of(b, 2));
    assert(byte_of(a, 3) == byte_of(b, 3));
}

/// Bytes hold one list of words only, in either byte order.
pub proof fn bytes_tell_words_apart(a: Seq<u32>, b: Seq<u32>, bytes: Seq<u8>)
    requires
        a.len() == b.len(),
        (little_endian(a, bytes) && little_endian(b, bytes)) || (big_endian(a, bytes)
            && big_endian(b, bytes)),
    ensures
        a == b,
{
    assert forall|i: int| 0 <= i < a.len() implies a[i] == b[i] by {
        assert forall|k: int| 0 <= k < 4 implies #[trigger] byte_of(a[i], k) == byte_of(
            b[i],
            k,
        ) by {
            if little_endian(a, bytes) && little_endian(b, bytes) {
                assert(bytes[4 * i + k] == byte_of(a[i], k));
                assert(bytes[4 * i + k] == byte_of(b[i], k));
            } else {
                assert(bytes[4 * i + 3 - k] == byte_of(a[i], k));
                assert(bytes[4 * i + 3 - k] == byte_of(b[i], k));
            }
        }
        word_of_bytes(a[i], b[i]);
    }
    assert(a =~= b);
}

} // verus!
