use vstd::prelude::*;

verus! {

/// The exponent field of a single-precision bit pattern.
pub open spec fn exponent_bits(b: u32) -> u32 {
    (b >> 23u32) & 0xffu32
}

/// A single-precision value is finite unless its exponent field is all ones
/// (that pattern encodes the infinities and every NaN).
pub open spec fn is_finite_bits(b: u32) -> bool {
    exponent_bits(b) != 0xffu32
}

/// Number of non-finite values among the first `n` entries of `s`.
pub open spec fn non_finite_prefix(s: Seq<u32>, n: int) -> nat
    decreases n,
{
    if n <= 0 {
        0
    } else {
        non_finite_prefix(s, n - 1) + if is_finite_bits(s[n - 1]) { 0nat } else { 1nat }
    }
}

/// Number of non-finite values in `s`.
pub open spec fn non_finite_count(s: Seq<u32>) -> nat {
    non_finite_prefix(s, s.len() as int)
}

/// Byte `k` (0 = least significant) of `w`.
pub open spec fn le_byte(w: u32, k: int) -> u8 {
    ((w >> (8 * k) as u32) & 0xffu32) as u8
}

/// The word whose little-endian bytes are `b0, b1, b2, b3`.
pub open spec fn le_word(b0: u8, b1: u8, b2: u8, b3: u8) -> u32 {
    (b0 as u32) | ((b1 as u32) << 8u32) | ((b2 as u32) << 16u32) | ((b3 as u32) << 24u32)
}

/// Little-endian byte sequence of a word sequence: four bytes per word.
pub open spec fn le_bytes_of(s: Seq<u32>) -> Seq<u8> {
    Seq::new(4 * s.len(), |k: int| le_byte(s[k / 4], k % 4))
}

/// Words read from a byte sequence four little-endian bytes at a time; a trailing
/// partial group is not read.
pub open spec fn words_of_le(b: Seq<u8>) -> Seq<u32> {
    Seq::new(b.len() / 4, |k: int| le_word(b[4 * k], b[4 * k + 1], b[4 * k + 2], b[4 * k + 3]))
}

proof fn lemma_word_of_bytes(w: u32)
    ensures
        le_word(le_byte(w, 0), le_byte(w, 1), le_byte(w, 2), le_byte(w, 3)) == w,
{
    assert((((w >> 0u32) & 0xffu32) as u8 as u32) | ((((w >> 8u32) & 0xffu32) as u8 as u32)
        << 8u32) | ((((w >> 16u32) & 0xffu32) as u8 as u32) << 16u32) | ((((w >> 24u32)
        & 0xffu32) as u8 as u32) << 24u32) == w) by (bit_vector);
}

/// Decoding the little-endian bytes of any word sequence gives the sequence back.
pub proof fn lemma_le_round_trip(s: Seq<u32>)
    ensures
        words_of_le(le_bytes_of(s)) == s,
{
    let b = le_bytes_of(s);
    assert forall|k: int| 0 <= k < s.len() implies #[trigger] words_of_le(b)[k] == s[k] by {
        assert(b[4 * k] == le_byte(s[k], 0));
        assert(b[4 * k + 1] == le_byte(s[k], 1));
        assert(b[4 * k + 2] == le_byte(s[k], 2));
        assert(b[4 * k + 3] == le_byte(s[k], 3));
        lemma_word_of_bytes(s[k]);
    }
    assert(words_of_le(b) =~= s);
}

/// Whether the single-precision value with bit pattern `b` is finite.
pub fn bits_are_finite(b: u32) -> (r: bool)
    ensures
        r == is_finite_bits(b),
{
    (b >> 23u32) & 0xffu32 != 0xffu32
}

/// How many values of `v` are NaN or infinite.
pub fn count_non_finite(v: &[u32]) -> (r: usize)
    ensures
        r == non_finite_count(v@),
{
    let mut count: usize = 0;
    let mut i: usize = 0;
    while i < v.len()
        invariant
            i <= v@.len(),
            count == non_finite_prefix(v@, i as int),
            count <= i,
        decreases v.len() - i,
    {
        if !bits_are_finite(v[i]) {
            count = count + 1;
        }
        i = i + 1;
    }
    count
}

/// The little-endian bytes of each word of `v`, in order.
pub fn words_to_le_bytes(v: &[u32]) -> (r: Vec<u8>)
    requires
        4 * v@.len() <= usize::MAX,
    ensures
        r@ == le_bytes_of(v@),
{
    let mut r: Vec<u8> = Vec::with_capacity(4 * v.len());
    let mut i: usize = 0;
    while i < v.len()
        invariant
            i <= v@.len(),
            4 * v@.len() <= usize::MAX,
            r@.len() == 4 * i,
            forall|k: int| 0 <= k < 4 * i ==> #[trigger] r@[k] == le_byte(v@[k / 4], k % 4),
        decreases v.len() - i,
    {
        let w = v[i];
        r.push((w & 0xffu32) as u8);
        r.push(((w >> 8u32) & 0xffu32) as u8);
        r.push(((w >> 16u32) & 0xffu32) as u8);
        r.push(((w >> 24u32) & 0xffu32) as u8);
        assert(((w >> 0u32) & 0xffu32) == (w & 0xffu32)) by (bit_vector);
        i = i + 1;
    }
    assert(r@ =~= le_bytes_of(v@));
    r
}

/// The words of `b` read four little-endian bytes at a time; a trailing partial group
/// is not read.
pub fn le_bytes_to_words(b: &[u8]) -> (r: Vec<u32>)
    ensures
        r@ == words_of_le(b@),
{
    let len = b.len();
    let n = len / 4;
    let mut r: Vec<u32> = Vec::with_capacity(n);
    let mut i: usize = 0;
    while i < n
        invariant
            len == b@.len(),
            n == len / 4,
            4 * n <= len,
            i <= n,
            r@.len() == i,
            forall|k: int| 0 <= k < i ==> #[trigger] r@[k] == words_of_le(b@)[k],
        decreases n - i,
    {
        assert(4 * i + 4 <= b@.len()) by (nonlinear_arith)
            requires
                i < n,
                4 * n <= b@.len(),
        ;
        let p = 4 * i;
        let w = (b[p] as u32) | ((b[p + 1] as u32) << 8u32) | ((b[p + 2] as u32) << 16u32)
            | ((b[p + 3] as u32) << 24u32);
        r.push(w);
        i = i + 1;
    }
    assert(r@ =~= words_of_le(b@));
    r
}

} // verus!
