use crate::challenge::{challenge_bit, derive_bit};
use crate::modular::{
    add_mod, minus_one, pow_mod_spec, random_below, rem, supported_modulus, ModulusContext,
};
use crate::uint::UInt;
use vstd::arithmetic::div_mod::{lemma_add_mod_noop_right, lemma_fundamental_div_mod, lemma_mul_mod_noop, lemma_mul_mod_noop_left};
use vstd::arithmetic::power::{lemma1_pow, lemma_pow_adds, lemma_pow_mod_noop, lemma_pow_multiplies, pow};
use vstd::prelude::*;

verus! {

/// The number of rounds in a proof, the security parameter.
pub const ROUND_COUNT: usize = 100;

/// One round of a proof: the commitment `h = g^r mod p` and the response
/// `s`, which is `r` or `(r + x) mod (p - 1)` as the challenge bit says.
#[derive(Clone, Copy)]
pub struct Proof<const LIMBS: usize> {
    pub h: UInt<LIMBS>,
    pub s: UInt<LIMBS>,
}

/// A whole proof: its rounds in the order they were made.
pub type Proofs<const LIMBS: usize> = Vec<Proof<LIMBS>>;

/// Whether `round` passes its check: `g^s == h` when its challenge bit is
/// zero, `g^s == h * residue` when it is one, all modulo `modulus`.
pub open spec fn round_accepted<const LIMBS: usize>(
    residue: UInt<LIMBS>,
    generator: UInt<LIMBS>,
    modulus: UInt<LIMBS>,
    round: Proof<LIMBS>,
) -> bool {
    let lhs = pow_mod_spec(generator@, round.s@, modulus@);
    if challenge_bit(round.h, generator, modulus) == 0 {
        lhs == round.h@
    } else {
        lhs == (round.h@ * residue@) % modulus@
    }
}

/// Whether `proofs` is accepted: it has exactly `ROUND_COUNT` rounds and
/// every one of them passes.
pub open spec fn accepts<const LIMBS: usize>(
    residue: UInt<LIMBS>,
    generator: UInt<LIMBS>,
    modulus: UInt<LIMBS>,
    proofs: Seq<Proof<LIMBS>>,
) -> bool {
    &&& proofs.len() == ROUND_COUNT
    &&& forall|i: int| 0 <= i < proofs.len() ==> round_accepted(residue, generator, modulus, #[trigger] proofs[i])
}

/// Whether `round` is the round an honest prover with `secret` makes from
/// the nonce `nonce`, a number below `modulus - 1`.
pub open spec fn honest_round<const LIMBS: usize>(
    secret: nat,
    generator: UInt<LIMBS>,
    modulus: UInt<LIMBS>,
    round: Proof<LIMBS>,
    nonce: nat,
) -> bool {
    &&& nonce < modulus@ - 1
    &&& round.h@ == pow_mod_spec(generator@, nonce, modulus@)
    &&& round.s@ == if challenge_bit(round.h, generator, modulus) == 0 {
        nonce as int
    } else {
        (nonce + secret) as int % (modulus@ - 1)
    }
}

/// Whether `round` is a round an honest prover with `secret` makes, from
/// some nonce.
pub open spec fn is_honest_round<const LIMBS: usize>(
    secret: nat,
    generator: UInt<LIMBS>,
    modulus: UInt<LIMBS>,
    round: Proof<LIMBS>,
) -> bool {
    exists|nonce: nat| honest_round(secret, generator, modulus, round, nonce)
}

/// Makes the round for `nonce`, given `secret_mod`, the secret reduced
/// modulo `order = modulus - 1`.
fn prove_round<const LIMBS: usize>(
    ctx: &ModulusContext<LIMBS>,
    secret: Ghost<nat>,
    secret_mod: &UInt<LIMBS>,
    order: &UInt<LIMBS>,
    generator: &UInt<LIMBS>,
    modulus: &UInt<LIMBS>,
    nonce: &UInt<LIMBS>,
) -> (r: Proof<LIMBS>)
    requires
        ctx.modulus() == modulus@,
        modulus@ > 1,
        order@ == modulus@ - 1,
        secret_mod@ == secret@ % order@,
        nonce@ < order@,
    ensures
        honest_round(secret@, *generator, *modulus, r, nonce@),
{
    let h = ctx.pow_mod(generator, nonce);
    let bit = derive_bit(&h, generator, modulus);
    let s = if bit == 0 {
        *nonce
    } else {
        let s = add_mod(nonce, secret_mod, order);
        proof {
            lemma_add_mod_noop_right(nonce@ as int, secret@ as int, order@ as int);
        }
        s
    };
    Proof { h, s }
}

/// Proves knowledge of `secret` with one round per nonce, each nonce being
/// a number below `modulus - 1` drawn at random. Returns the residue
/// `generator^secret mod modulus` and the rounds, in the order of `nonces`.
pub fn prove_with_nonces<const LIMBS: usize>(
    secret: UInt<LIMBS>,
    generator: UInt<LIMBS>,
    modulus: UInt<LIMBS>,
    nonces: &Vec<UInt<LIMBS>>,
) -> (r: (UInt<LIMBS>, Proofs<LIMBS>))
    requires
        supported_modulus(modulus@),
        forall|i: int| 0 <= i < nonces@.len() ==> #[trigger] nonces@[i]@ < modulus@ - 1,
    ensures
        r.0@ == pow_mod_spec(generator@, secret@, modulus@),
        r.1@.len() == nonces@.len(),
        forall|i: int|
            0 <= i < nonces@.len() ==> honest_round(secret@, generator, modulus, #[trigger] r.1@[i], nonces@[i]@),
{
    let ctx = ModulusContext::new(&modulus);
    let residue = ctx.pow_mod(&generator, &secret);
    let order = minus_one(&modulus);
    let secret_mod = rem(&secret, &order);
    let mut proofs: Proofs<LIMBS> = Vec::new();
    let mut i: usize = 0;
    while i < nonces.len()
        invariant
            i <= nonces@.len(),
            ctx.modulus() == modulus@,
            supported_modulus(modulus@),
            order@ == modulus@ - 1,
            secret_mod@ == secret@ % order@,
            forall|j: int| 0 <= j < nonces@.len() ==> #[trigger] nonces@[j]@ < modulus@ - 1,
            proofs@.len() == i,
            forall|j: int|
                0 <= j < i ==> honest_round(secret@, generator, modulus, #[trigger] proofs@[j], nonces@[j]@),
        decreases nonces@.len() - i,
    {
        let round = prove_round(&ctx, Ghost(secret@), &secret_mod, &order, &generator, &modulus, &nonces[i]);
        proofs.push(round);
        i = i + 1;
    }
    (residue, proofs)
}

/// Proves knowledge of `secret`, the discrete logarithm of the returned
/// residue `generator^secret mod modulus`, in `ROUND_COUNT` rounds whose
/// nonces come from the operating system's secure generator.
pub fn prove<const LIMBS: usize>(
    secret: UInt<LIMBS>,
    generator: UInt<LIMBS>,
    modulus: UInt<LIMBS>,
) -> (r: (UInt<LIMBS>, Proofs<LIMBS>))
    requires
        supported_modulus(modulus@),
    ensures
        r.0@ == pow_mod_spec(generator@, secret@, modulus@),
        r.1@.len() == ROUND_COUNT,
        forall|i: int| 0 <= i < ROUND_COUNT ==> is_honest_round(secret@, generator, modulus, #[trigger] r.1@[i]),
{
    let order = minus_one(&modulus);
    let mut nonces: Vec<UInt<LIMBS>> = Vec::new();
    let mut i: usize = 0;
    while i < ROUND_COUNT
        invariant
            i <= ROUND_COUNT,
            order@ == modulus@ - 1,
            supported_modulus(modulus@),
            nonces@.len() == i,
            forall|j: int| 0 <= j < i ==> #[trigger] nonces@[j]@ < modulus@ - 1,
        decreases ROUND_COUNT - i,
    {
        let nonce = random_below(&order);
        nonces.push(nonce);
        i = i + 1;
    }
    let r = prove_with_nonces(secret, generator, modulus, &nonces);
    assert forall|i: int| 0 <= i < ROUND_COUNT implies is_honest_round(secret@, generator, modulus, #[trigger] r.1@[i]) by {
        assert(honest_round(secret@, generator, modulus, r.1@[i], nonces@[i]@));
    }
    r
}

/// Checks one round against the residue and the public parameters.
fn check_round<const LIMBS: usize>(
    ctx: &ModulusContext<LIMBS>,
    residue: &UInt<LIMBS>,
    generator: &UInt<LIMBS>,
    modulus: &UInt<LIMBS>,
    round: &Proof<LIMBS>,
) -> (r: bool)
    requires
        ctx.modulus() == modulus@,
    ensures
        r == round_accepted(*residue, *generator, *modulus, *round),
{
    let bit = derive_bit(&round.h, generator, modulus);
    let lhs = ctx.pow_mod(generator, &round.s);
    if bit == 0 {
        lhs.equals(&round.h)
    } else {
        let rhs = ctx.mul_mod(&round.h, residue);
        lhs.equals(&rhs)
    }
}

/// Whether one round passes its check against `residue` and the public
/// parameters, on its own: no round's check depends on another round.
pub fn verify_round<const LIMBS: usize>(
    residue: &UInt<LIMBS>,
    generator: &UInt<LIMBS>,
    modulus: &UInt<LIMBS>,
    round: &Proof<LIMBS>,
) -> (r: bool)
    requires
        supported_modulus(modulus@),
    ensures
        r == round_accepted(*residue, *generator, *modulus, *round),
{
    let ctx = ModulusContext::new(modulus);
    check_round(&ctx, residue, generator, modulus, round)
}

/// Whether `proofs` proves knowledge of the discrete logarithm of `residue`
/// to the base `generator` modulo `modulus`: it must have exactly
/// `ROUND_COUNT` rounds, and every round must pass.
pub fn verify<const LIMBS: usize>(
    residue: UInt<LIMBS>,
    generator: UInt<LIMBS>,
    modulus: UInt<LIMBS>,
    proofs: Proofs<LIMBS>,
) -> (r: bool)
    requires
        supported_modulus(modulus@),
    ensures
        r == accepts(residue, generator, modulus, proofs@),
{
    if proofs.len() != ROUND_COUNT {
        return false;
    }
    let ctx = ModulusContext::new(&modulus);
    let mut i: usize = 0;
    while i < proofs.len()
        invariant
            i <= proofs@.len(),
            proofs@.len() == ROUND_COUNT,
            ctx.modulus() == modulus@,
            forall|j: int| 0 <= j < i ==> round_accepted(residue, generator, modulus, #[trigger] proofs@[j]),
        decreases proofs@.len() - i,
    {
        if !check_round(&ctx, &residue, &generator, &modulus, &proofs[i]) {
            return false;
        }
        i = i + 1;
    }
    true
}

/// When `generator^order` is one modulo `modulus`, exponents count modulo
/// `order`.
proof fn lemma_pow_mod_exponent(g: nat, e: nat, order: nat, modulus: nat)
    requires
        modulus > 1,
        order > 0,
        pow(g as int, order) % (modulus as int) == 1,
    ensures
        pow(g as int, e) % (modulus as int) == pow(g as int, e % order) % (modulus as int),
{
    let m = modulus as int;
    let k: nat = e / order;
    let r: nat = e % order;
    let a = pow(g as int, order);
    let b = pow(g as int, r);
    lemma_fundamental_div_mod(e as int, order as int);
    let ok: nat = order * k;
    assert(e == ok + r);
    lemma_pow_adds(g as int, ok, r);
    lemma_pow_multiplies(g as int, order, k);
    assert(pow(g as int, e) == pow(a, k) * b);
    lemma_pow_mod_noop(a, k, m);
    lemma1_pow(k);
    assert(a % m == 1);
    assert(pow(a % m, k) == 1);
    assert(1int % m == 1) by (nonlinear_arith)
        requires
            m > 1,
    ;
    assert(pow(a, k) % m == 1);
    lemma_mul_mod_noop_left(pow(a, k), b, m);
    assert((pow(a, k) * b) % m == (1 * b) % m);
}

/// Completeness: when `generator^(modulus - 1)` is one modulo `modulus`
/// (as it is for a generator of order `modulus - 1`), a proof of
/// `ROUND_COUNT` honest rounds for `secret` is accepted for the residue
/// `generator^secret mod modulus`, whatever nonces were drawn.
pub proof fn lemma_completeness<const LIMBS: usize>(
    secret: UInt<LIMBS>,
    generator: UInt<LIMBS>,
    modulus: UInt<LIMBS>,
    residue: UInt<LIMBS>,
    proofs: Seq<Proof<LIMBS>>,
)
    requires
        modulus@ > 1,
        pow(generator@ as int, (modulus@ - 1) as nat) % (modulus@ as int) == 1,
        residue@ == pow_mod_spec(generator@, secret@, modulus@),
        proofs.len() == ROUND_COUNT,
        forall|i: int| 0 <= i < ROUND_COUNT ==> is_honest_round(secret@, generator, modulus, #[trigger] proofs[i]),
    ensures
        accepts(residue, generator, modulus, proofs),
{
    let g = generator@ as int;
    let m = modulus@ as int;
    let order = (modulus@ - 1) as nat;
    assert forall|i: int| 0 <= i < proofs.len() implies round_accepted(residue, generator, modulus, #[trigger] proofs[i]) by {
        let round = proofs[i];
        let nonce = choose|nonce: nat| honest_round(secret@, generator, modulus, round, nonce);
        if challenge_bit(round.h, generator, modulus) != 0 {
            let e = (nonce + secret@) as nat;
            lemma_pow_mod_exponent(generator@, e, order, modulus@);
            assert(round.s@ == e % order);
            lemma_pow_adds(g, nonce, secret@);
            lemma_mul_mod_noop(pow(g, nonce), pow(g, secret@), m);
        }
    }
}

/// The length gate: a proof whose number of rounds is not `ROUND_COUNT` is
/// rejected, whatever its rounds hold.
pub proof fn lemma_length_gate<const LIMBS: usize>(
    residue: UInt<LIMBS>,
    generator: UInt<LIMBS>,
    modulus: UInt<LIMBS>,
    proofs: Seq<Proof<LIMBS>>,
)
    requires
        proofs.len() != ROUND_COUNT,
    ensures
        !accepts(residue, generator, modulus, proofs),
{
}

/// Round locality: replacing round `i` of a proof changes its acceptance
/// only through the new round's own check; the other rounds are judged as
/// before, and no round's check looks at another round.
pub proof fn lemma_round_locality<const LIMBS: usize>(
    residue: UInt<LIMBS>,
    generator: UInt<LIMBS>,
    modulus: UInt<LIMBS>,
    proofs: Seq<Proof<LIMBS>>,
    i: int,
    round: Proof<LIMBS>,
)
    requires
        0 <= i < proofs.len(),
    ensures
        accepts(residue, generator, modulus, proofs.update(i, round)) <==> (proofs.len() == ROUND_COUNT
            && round_accepted(residue, generator, modulus, round)
            && forall|j: int| 0 <= j < proofs.len() && j != i ==> round_accepted(residue, generator, modulus, #[trigger] proofs[j])),
{
    let q = proofs.update(i, round);
    if accepts(residue, generator, modulus, q) {
        assert(q[i] == round);
        assert forall|j: int| 0 <= j < proofs.len() && j != i implies round_accepted(residue, generator, modulus, #[trigger] proofs[j]) by {
            assert(q[j] == proofs[j]);
        }
    }
}

} // verus!
