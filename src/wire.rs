//! Big-endian words and the bytes that carry them.
use vstd::prelude::*;

verus! {

/// The big-endian 32-bit word held by the four bytes of `s` from `i` on.
pub open spec fn be_word(s: Seq<u8>, i: int) -> u32 {
    ((s[i] as u32) << 24u32) | ((s[i + 1] as u32) << 16u32) | ((s[i + 2] as u32) << 8u32) | (
    s[i + 3] as u32)
}

/// The four big-endian bytes of `w`.
pub open spec fn word_bytes(w: u32) -> Seq<u8> {
    seq![(w >> 24u32) as u8, (w >> 16u32) as u8, (w >> 8u32) as u8, w as u8]
}

/// The two big-endian bytes of `w`.
pub open spec fn half_bytes(w: u16) -> Seq<u8> {
    seq![(w >> 8u16) as u8, w as u8]
}

/// The eight big-endian bytes of `w`.
pub open spec fn long_bytes(w: u64) -> Seq<u8> {
    word_bytes((w >> 32u64) as u32) + word_bytes(w as u32)
}

/// The big-endian 64-bit word held by the eight bytes of `s` from `i` on.
pub open spec fn be_long(s: Seq<u8>, i: int) -> u64 {
    ((be_word(s, i) as u64) << 32u64) | (be_word(s, i + 4) as u64)
}

proof fn lemma_word_parts(b0: u8, b1: u8, b2: u8, b3: u8)
    ensures
        ({
            let w = ((b0 as u32) << 24u32) | ((b1 as u32) << 16u32) | ((b2 as u32) << 8u32) | (
            b3 as u32);
            &&& (w >> 24u32) as u8 == b0
            &&& (w >> 16u32) as u8 == b1
            &&& (w >> 8u32) as u8 == b2
            &&& w as u8 == b3
        }),
{
    assert(({
        let w = ((b0 as u32) << 24u32) | ((b1 as u32) << 16u32) | ((b2 as u32) << 8u32) | (
        b3 as u32);
        &&& (w >> 24u32) as u8 == b0
        &&& (w >> 16u32) as u8 == b1
        &&& (w >> 8u32) as u8 == b2
        &&& w as u8 == b3
    })) by (bit_vector);
}

/// Reading a word back from its bytes gives the word.
pub proof fn lemma_word_round_trip(w: u32)
    ensures
        be_word(word_bytes(w), 0) == w,
{
    let s = word_bytes(w);
    assert(s[0] == (w >> 24u32) as u8 && s[1] == (w >> 16u32) as u8 && s[2] == (w >> 8u32) as u8
        && s[3] == w as u8);
    assert((((w >> 24u32) as u8 as u32) << 24u32) | (((w >> 16u32) as u8 as u32) << 16u32) | (((
    w >> 8u32) as u8 as u32) << 8u32) | (w as u8 as u32) == w) by (bit_vector);
}

/// Writing out the word read from four bytes gives those bytes.
pub proof fn lemma_bytes_round_trip(s: Seq<u8>, i: int)
    requires
        0 <= i,
        i + 4 <= s.len(),
    ensures
        word_bytes(be_word(s, i)) == s.subrange(i, i + 4),
{
    lemma_word_parts(s[i], s[i + 1], s[i + 2], s[i + 3]);
    assert(word_bytes(be_word(s, i)) =~= s.subrange(i, i + 4));
}

/// Appends the bytes of `src` to `buf`.
pub fn append_bytes(buf: &mut Vec<u8>, src: &[u8])
    ensures
        final(buf)@ == old(buf)@ + src@,
{
    let mut i: usize = 0;
    while i < src.len()
        invariant
            i <= src@.len(),
            buf@ == old(buf)@ + src@.subrange(0, i as int),
        decreases src@.len() - i,
    {
        buf.push(src[i]);
        i = i + 1;
        assert(buf@ =~= old(buf)@ + src@.subrange(0, i as int));
    }
    assert(src@.subrange(0, src@.len() as int) =~= src@);
}

/// Appends `count` zero bytes to `buf`.
pub fn append_zeros(buf: &mut Vec<u8>, count: usize)
    ensures
        final(buf)@ == old(buf)@ + Seq::new(count as nat, |i: int| 0u8),
{
    let mut i: usize = 0;
    while i < count
        invariant
            i <= count,
            buf@ == old(buf)@ + Seq::new(i as nat, |j: int| 0u8),
        decreases count - i,
    {
        buf.push(0u8);
        i = i + 1;
        assert(buf@ =~= old(buf)@ + Seq::new(i as nat, |j: int| 0u8));
    }
}

/// The bytes of `s` from `from` up to `to`, as a vector.
pub fn copy_range(s: &[u8], from: usize, to: usize) -> (r: Vec<u8>)
    requires
        from <= to <= s@.len(),
    ensures
        r@ == s@.subrange(from as int, to as int),
{
    let mut r: Vec<u8> = Vec::with_capacity(to - from);
    let mut i: usize = from;
    while i < to
        invariant
            from <= i <= to,
            to <= s@.len(),
            r@ == s@.subrange(from as int, i as int),
        decreases to - i,
    {
        r.push(s[i]);
        i = i + 1;
        assert(r@ =~= s@.subrange(from as int, i as int));
    }
    r
}

/// A word found at `i` in `s` is read back from there.
pub proof fn lemma_word_at(s: Seq<u8>, i: int, w: u32)
    requires
        0 <= i,
        i + 4 <= s.len(),
        s.subrange(i, i + 4) == word_bytes(w),
    ensures
        be_word(s, i) == w,
{
    lemma_word_round_trip(w);
    let t = word_bytes(w);
    assert(s[i] == s.subrange(i, i + 4)[0]);
    assert(s[i + 1] == s.subrange(i, i + 4)[1]);
    assert(s[i + 2] == s.subrange(i, i + 4)[2]);
    assert(s[i + 3] == s.subrange(i, i + 4)[3]);
}

/// A long word found at `i` in `s` is read back from there.
pub proof fn lemma_long_at(s: Seq<u8>, i: int, w: u64)
    requires
        0 <= i,
        i + 8 <= s.len(),
        s.subrange(i, i + 8) == long_bytes(w),
    ensures
        be_long(s, i) == w,
{
    let hi = (w >> 32u64) as u32;
    let lo = w as u32;
    assert(s.subrange(i, i + 4) =~= s.subrange(i, i + 8).subrange(0, 4));
    assert(s.subrange(i + 4, i + 8) =~= s.subrange(i, i + 8).subrange(4, 8));
    assert(long_bytes(w).subrange(0, 4) =~= word_bytes(hi));
    assert(long_bytes(w).subrange(4, 8) =~= word_bytes(lo));
    lemma_word_at(s, i, hi);
    lemma_word_at(s, i + 4, lo);
    assert((((w >> 32u64) as u32 as u64) << 32u64) | (w as u32 as u64) == w) by (bit_vector);
}

/// Reads the big-endian word held by the four bytes of `s` from `i` on.
pub fn read_u32_be(s: &[u8], i: usize) -> (r: u32)
    requires
        i + 4 <= s@.len(),
    ensures
        r == be_word(s@, i as int),
{
    ((s[i] as u32) << 24u32) | ((s[i + 1] as u32) << 16u32) | ((s[i + 2] as u32) << 8u32) | (s[i
        + 3] as u32)
}

} // verus!
