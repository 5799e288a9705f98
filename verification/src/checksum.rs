//! Internet checksum engine: a 32-bit running sum of 16-bit big-endian
//! words over arbitrary byte ranges, and the fold of that sum into the
//! final one's-complement 16-bit checksum.
//!
//! The sum is additive across byte-aligned (even-length) regions, which is
//! what lets a caller compose the TCP pseudo-header checksum out of the
//! separate address, protocol, length and segment regions.

use vstd::prelude::*;

verus! {

/// Running sum of 16-bit big-endian words over a byte sequence.
/// A trailing lone byte counts as the high byte of a final word.
pub open spec fn sum_words(b: Seq<u8>) -> int
    decreases b.len(),
{
    if b.len() == 0 {
        0
    } else if b.len() == 1 {
        b[0] * 256
    } else {
        b[0] * 256 + b[1] + sum_words(b.skip(2))
    }
}

/// Repeatedly add the carry bits above 16 back into the low 16 bits.
pub open spec fn fold_carries(s: int) -> int
    decreases s,
{
    if s < 0x10000 {
        s
    } else {
        fold_carries(s / 0x10000 + s % 0x10000)
    }
}

/// Final one's-complement 16-bit checksum of an accumulated sum.
pub open spec fn compile_sum(s: int) -> u16
    recommends
        0 <= s,
{
    (0xFFFF - fold_carries(s)) as u16
}

pub proof fn lemma_sum_words_one(x: u8)
    ensures
        sum_words(seq![x]) == x * 256,
{
}

pub proof fn lemma_sum_words_two(x: u8, y: u8)
    ensures
        sum_words(seq![x, y]) == x * 256 + y,
{
    let s = seq![x, y];
    assert(s.skip(2) =~= Seq::<u8>::empty());
    assert(sum_words(Seq::<u8>::empty()) == 0);
    assert(sum_words(s) == s[0] * 256 + s[1] + sum_words(s.skip(2)));
}

pub proof fn lemma_sum_words_concat(a: Seq<u8>, b: Seq<u8>)
    requires
        a.len() % 2 == 0,
    ensures
        sum_words(a + b) == sum_words(a) + sum_words(b),
    decreases a.len(),
{
    if a.len() == 0 {
        assert(a + b =~= b);
    } else {
        lemma_sum_words_concat(a.skip(2), b);
        assert((a + b).skip(2) =~= a.skip(2) + b);
        assert((a + b)[0] == a[0]);
        assert((a + b)[1] == a[1]);
    }
}

/// The sum is additive across regions as long as the first is byte-aligned
/// to 16-bit words, so compiling the sum of two regions' sums equals
/// compiling the sum over their concatenation.
pub proof fn lemma_checksum_additive(a: Seq<u8>, b: Seq<u8>)
    requires
        a.len() % 2 == 0,
    ensures
        sum_words(a + b) == sum_words(a) + sum_words(b),
        compile_sum(sum_words(a) + sum_words(b)) == compile_sum(sum_words(a + b)),
{
    lemma_sum_words_concat(a, b);
}

proof fn lemma_u32_fold_parts()
    by (bit_vector)
    ensures
        forall|x: u32| #[trigger] (x & 0xFFFF) == x % 0x10000,
        forall|x: u32| #[trigger] (x >> 16) == x / 0x10000,
{
}

/// 32-bit running sum of the 16-bit big-endian words of `data`.
pub fn sum(data: &[u8]) -> (r: u32)
    requires
        data@.len() <= 0x1FFFE,
    ensures
        r == sum_words(data@),
{
    let len = data.len();
    let mut i: usize = 0;
    let mut total: u32 = 0;
    while i + 1 < len
        invariant
            len == data@.len(),
            len <= 0x1FFFE,
            i <= len,
            i % 2 == 0,
            total == sum_words(data@.take(i as int)),
            total <= i / 2 * 0xFFFF,
        decreases len - i,
    {
        let hi = *vstd::slice::slice_index_get(data, i) as u32;
        let lo = *vstd::slice::slice_index_get(data, i + 1) as u32;
        proof {
            lemma_sum_words_two(data@[i as int], data@[i + 1]);
            lemma_sum_words_concat(data@.take(i as int), seq![data@[i as int], data@[i + 1]]);
            assert(data@.take(i + 2) =~= data@.take(i as int) + seq![
                data@[i as int],
                data@[i + 1],
            ]);
        }
        total = total + hi * 256 + lo;
        i = i + 2;
    }
    if i < len {
        let hi = *vstd::slice::slice_index_get(data, i) as u32;
        proof {
            lemma_sum_words_one(data@[i as int]);
            lemma_sum_words_concat(data@.take(i as int), seq![data@[i as int]]);
            assert(data@.take(i + 1) =~= data@.take(i as int) + seq![data@[i as int]]);
        }
        total = total + hi * 256;
        i = i + 1;
    }
    proof {
        assert(data@.take(len as int) =~= data@);
    }
    total
}

/// Fold the accumulated sum into the final one's-complement 16-bit value.
pub fn compile(sum: u32) -> (r: u16)
    ensures
        r == compile_sum(sum as int),
{
    let mut s = sum;
    while s > 0xFFFF
        invariant
            fold_carries(s as int) == fold_carries(sum as int),
        decreases s,
    {
        proof {
            lemma_u32_fold_parts();
        }
        s = (s & 0xFFFF) + (s >> 16);
    }
    0xFFFF - (s as u16)
}

} // verus!
