use crate::uint::UInt;
use crypto_bigint::modular::runtime_mod::{DynResidue, DynResidueParams};
use crypto_bigint::rand_core::OsRng;
use crypto_bigint::{NonZero, RandomMod};
use vstd::arithmetic::power::pow;
use vstd::prelude::*;

verus! {

/// `base^exponent mod modulus`.
pub open spec fn pow_mod_spec(base: nat, exponent: nat, modulus: nat) -> nat {
    (pow(base as int, exponent) % (modulus as int)) as nat
}

/// The moduli this library computes with: odd and above one.
pub open spec fn supported_modulus(m: nat) -> bool {
    m > 1 && m % 2 == 1
}

/// crypto_bigint's precomputed Montgomery parameters for a runtime modulus,
/// carried through unopened.
#[verifier::external_type_specification]
#[verifier::external_body]
pub struct ExDynResidueParams<const LIMBS: usize>(DynResidueParams<LIMBS>);

/// Arithmetic modulo one fixed odd modulus, with the Montgomery parameters
/// for it computed once.
pub(crate) struct ModulusContext<const LIMBS: usize> {
    modulus: UInt<LIMBS>,
    params: DynResidueParams<LIMBS>,
}

impl<const LIMBS: usize> ModulusContext<LIMBS> {
    /// The modulus this context computes with.
    pub(crate) closed spec fn modulus(&self) -> nat {
        self.modulus@
    }

    /// Relies on crypto_bigint's `DynResidueParams::new`, which panics on an
    /// even modulus and otherwise holds the parameters for `modulus`.
    #[verifier::external_body]
    pub(crate) fn new(modulus: &UInt<LIMBS>) -> (r: Self)
        requires
            supported_modulus(modulus@),
        ensures
            r.modulus() == modulus@,
    {
        let m = crypto_bigint::Uint::<LIMBS>::from_words(modulus.words);
        ModulusContext { modulus: *modulus, params: DynResidueParams::new(&m) }
    }

    /// Relies on crypto_bigint's `DynResidue::new`, `pow` and `retrieve`: the
    /// canonical residue of `base^exponent`.
    #[verifier::external_body]
    pub(crate) fn pow_mod(&self, base: &UInt<LIMBS>, exponent: &UInt<LIMBS>) -> (r: UInt<LIMBS>)
        ensures
            r@ == pow_mod_spec(base@, exponent@, self.modulus()),
    {
        let b = crypto_bigint::Uint::<LIMBS>::from_words(base.words);
        let e = crypto_bigint::Uint::<LIMBS>::from_words(exponent.words);
        UInt { words: DynResidue::new(&b, self.params).pow(&e).retrieve().to_words() }
    }

    /// Relies on crypto_bigint's `DynResidue::new`, `mul` and `retrieve`: the
    /// canonical residue of `a * b`.
    #[verifier::external_body]
    pub(crate) fn mul_mod(&self, a: &UInt<LIMBS>, b: &UInt<LIMBS>) -> (r: UInt<LIMBS>)
        ensures
            r@ == (a@ * b@) % self.modulus(),
    {
        let x = DynResidue::new(&crypto_bigint::Uint::<LIMBS>::from_words(a.words), self.params);
        let y = DynResidue::new(&crypto_bigint::Uint::<LIMBS>::from_words(b.words), self.params);
        UInt { words: x.mul(&y).retrieve().to_words() }
    }
}

/// Relies on crypto_bigint's `Uint::wrapping_sub`, which does not wrap when
/// the result is not negative.
#[verifier::external_body]
pub(crate) fn minus_one<const LIMBS: usize>(a: &UInt<LIMBS>) -> (r: UInt<LIMBS>)
    requires
        a@ > 0,
    ensures
        r@ == a@ - 1,
{
    let x = crypto_bigint::Uint::<LIMBS>::from_words(a.words);
    UInt { words: x.wrapping_sub(&crypto_bigint::Uint::ONE).to_words() }
}

/// Relies on crypto_bigint's `Uint::rem`: the remainder of `a` by a non-zero `m`.
#[verifier::external_body]
pub(crate) fn rem<const LIMBS: usize>(a: &UInt<LIMBS>, m: &UInt<LIMBS>) -> (r: UInt<LIMBS>)
    requires
        m@ > 0,
    ensures
        r@ == a@ % m@,
{
    let x = crypto_bigint::Uint::<LIMBS>::from_words(a.words);
    let n = NonZero::new(crypto_bigint::Uint::<LIMBS>::from_words(m.words)).unwrap();
    UInt { words: x.rem(&n).to_words() }
}

/// Relies on crypto_bigint's `Uint::add_mod`, exact when `a + b < 2 * m`.
#[verifier::external_body]
pub(crate) fn add_mod<const LIMBS: usize>(a: &UInt<LIMBS>, b: &UInt<LIMBS>, m: &UInt<LIMBS>) -> (r: UInt<LIMBS>)
    requires
        a@ < m@,
        b@ < m@,
    ensures
        r@ == (a@ + b@) % m@,
{
    let x = crypto_bigint::Uint::<LIMBS>::from_words(a.words);
    let y = crypto_bigint::Uint::<LIMBS>::from_words(b.words);
    let n = crypto_bigint::Uint::<LIMBS>::from_words(m.words);
    UInt { words: x.add_mod(&y, &n).to_words() }
}

/// Relies on crypto_bigint's `Uint::random_mod` drawing from the operating
/// system's generator: some number below `bound`, by chance.
#[verifier::external_body]
pub(crate) fn random_below<const LIMBS: usize>(bound: &UInt<LIMBS>) -> (r: UInt<LIMBS>)
    requires
        bound@ > 0,
    ensures
        r@ < bound@,
{
    let n = NonZero::new(crypto_bigint::Uint::<LIMBS>::from_words(bound.words)).unwrap();
    UInt { words: crypto_bigint::Uint::<LIMBS>::random_mod(&mut OsRng, &n).to_words() }
}

} // verus!
