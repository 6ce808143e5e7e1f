use crate::uint::UInt;
use vstd::prelude::*;

verus! {

/// The eight bytes of `w`, least significant first.
pub open spec fn word_le_bytes(w: u64) -> Seq<u8> {
    seq![
        (w & 0xff) as u8,
        ((w >> 8u64) & 0xff) as u8,
        ((w >> 16u64) & 0xff) as u8,
        ((w >> 24u64) & 0xff) as u8,
        ((w >> 32u64) & 0xff) as u8,
        ((w >> 40u64) & 0xff) as u8,
        ((w >> 48u64) & 0xff) as u8,
        ((w >> 56u64) & 0xff) as u8,
    ]
}

/// The little-endian bytes of the words `w`, least significant word first:
/// a fixed width of eight bytes per word, zero words included.
pub open spec fn words_le_bytes(w: Seq<u64>) -> Seq<u8>
    decreases w.len(),
{
    if w.len() == 0 {
        Seq::empty()
    } else {
        words_le_bytes(w.drop_last()) + word_le_bytes(w.last())
    }
}

/// What is hashed for a commitment `h` under the public `generator` and
/// `modulus`: the three encodings one after the other.
pub open spec fn challenge_input<const LIMBS: usize>(
    h: UInt<LIMBS>,
    generator: UInt<LIMBS>,
    modulus: UInt<LIMBS>,
) -> Seq<u8> {
    words_le_bytes(h.words@) + words_le_bytes(generator.words@) + words_le_bytes(modulus.words@)
}

/// The BLAKE3 digest of `input`.
pub uninterp spec fn blake3_digest(input: Seq<u8>) -> Seq<u8>;

/// The challenge bit for commitment `h`: the low bit of the first byte of
/// the digest of `challenge_input(h, generator, modulus)`.
pub open spec fn challenge_bit<const LIMBS: usize>(
    h: UInt<LIMBS>,
    generator: UInt<LIMBS>,
    modulus: UInt<LIMBS>,
) -> u8 {
    (blake3_digest(challenge_input(h, generator, modulus))[0] % 2) as u8
}

/// Relies on `blake3::hash`: the 32-byte BLAKE3 digest of `input`.
#[verifier::external_body]
fn blake3_hash(input: &Vec<u8>) -> (r: [u8; 32])
    ensures
        r@ == blake3_digest(input@),
{
    *blake3::hash(input.as_slice()).as_bytes()
}

/// Appends the little-endian encoding of `v` to `out`.
pub fn append_le_bytes<const LIMBS: usize>(out: &mut Vec<u8>, v: &UInt<LIMBS>)
    ensures
        final(out)@ == old(out)@ + words_le_bytes(v.words@),
{
    let ghost start = out@;
    let mut i: usize = 0;
    while i < LIMBS
        invariant
            i <= LIMBS,
            v.words@.len() == LIMBS,
            out@ == start + words_le_bytes(v.words@.take(i as int)),
        decreases LIMBS - i,
    {
        let w = v.words[i];
        out.push((w & 0xff) as u8);
        out.push(((w >> 8u64) & 0xff) as u8);
        out.push(((w >> 16u64) & 0xff) as u8);
        out.push(((w >> 24u64) & 0xff) as u8);
        out.push(((w >> 32u64) & 0xff) as u8);
        out.push(((w >> 40u64) & 0xff) as u8);
        out.push(((w >> 48u64) & 0xff) as u8);
        out.push(((w >> 56u64) & 0xff) as u8);
        proof {
            let next = v.words@.take(i + 1);
            assert(next.drop_last() =~= v.words@.take(i as int));
            assert(next.last() == w);
            assert(out@ =~= start + words_le_bytes(next));
        }
        i = i + 1;
    }
    assert(v.words@.take(LIMBS as int) =~= v.words@);
}

/// The challenge bit carried by a digest: the low bit of its first byte.
pub fn bit_of_digest(digest: &[u8; 32]) -> (r: u8)
    ensures
        r == digest@[0] % 2,
        r < 2,
{
    digest[0] % 2
}

/// Derives the challenge bit for commitment `h` from the public parameters.
pub fn derive_bit<const LIMBS: usize>(
    h: &UInt<LIMBS>,
    generator: &UInt<LIMBS>,
    modulus: &UInt<LIMBS>,
) -> (r: u8)
    ensures
        r == challenge_bit(*h, *generator, *modulus),
        r < 2,
{
    let mut input: Vec<u8> = Vec::new();
    append_le_bytes(&mut input, h);
    append_le_bytes(&mut input, generator);
    append_le_bytes(&mut input, modulus);
    let digest = blake3_hash(&input);
    bit_of_digest(&digest)
}

/// The challenge bit is a function of the commitment and the public
/// parameters alone: equal inputs give equal bits, on every call.
pub proof fn lemma_challenge_deterministic<const LIMBS: usize>(
    h1: UInt<LIMBS>,
    g1: UInt<LIMBS>,
    p1: UInt<LIMBS>,
    h2: UInt<LIMBS>,
    g2: UInt<LIMBS>,
    p2: UInt<LIMBS>,
)
    requires
        h1@ == h2@,
        g1@ == g2@,
        p1@ == p2@,
    ensures
        challenge_bit(h1, g1, p1) == challenge_bit(h2, g2, p2),
        challenge_bit(h1, g1, p1) < 2,
{
    crate::uint::lemma_words_value_injective(h1.words@, h2.words@);
    crate::uint::lemma_words_value_injective(g1.words@, g2.words@);
    crate::uint::lemma_words_value_injective(p1.words@, p2.words@);
    assert(challenge_input(h1, g1, p1) == challenge_input(h2, g2, p2));
}

} // verus!
