use vstd::arithmetic::div_mod::lemma_fundamental_div_mod_converse;
use vstd::prelude::*;

verus! {

/// The radix of one machine word.
pub open spec fn word_base() -> nat {
    0x1_0000_0000_0000_0000nat
}

/// The number written by `w`, least significant word first.
pub open spec fn words_value(w: Seq<u64>) -> nat
    decreases w.len(),
{
    if w.len() == 0 {
        0
    } else {
        w[0] as nat + word_base() * words_value(w.subrange(1, w.len() as int))
    }
}

/// A fixed-width unsigned integer of `LIMBS` 64-bit words, least
/// significant word first.
#[derive(Clone, Copy)]
pub struct UInt<const LIMBS: usize> {
    pub words: [u64; LIMBS],
}

/// The 256-bit width.
pub type U256 = UInt<4>;

impl<const LIMBS: usize> View for UInt<LIMBS> {
    type V = nat;

    open spec fn view(&self) -> nat {
        words_value(self.words@)
    }
}

/// Two word sequences of one length that write the same number are equal.
pub proof fn lemma_words_value_injective(a: Seq<u64>, b: Seq<u64>)
    requires
        a.len() == b.len(),
        words_value(a) == words_value(b),
    ensures
        a == b,
    decreases a.len(),
{
    if a.len() > 0 {
        let ra = a.subrange(1, a.len() as int);
        let rb = b.subrange(1, b.len() as int);
        let v = words_value(a) as int;
        lemma_fundamental_div_mod_converse(v, word_base() as int, words_value(ra) as int, a[0] as int);
        lemma_fundamental_div_mod_converse(v, word_base() as int, words_value(rb) as int, b[0] as int);
        lemma_words_value_injective(ra, rb);
        assert(a =~= seq![a[0]] + ra);
        assert(b =~= seq![b[0]] + rb);
    } else {
        assert(a =~= b);
    }
}

/// The value of a word sequence whose words past the first are zero.
proof fn lemma_words_value_low(w: Seq<u64>)
    requires
        w.len() > 0,
        forall|i: int| 1 <= i < w.len() ==> w[i] == 0,
    ensures
        words_value(w) == w[0] as nat,
    decreases w.len(),
{
    let rest = w.subrange(1, w.len() as int);
    if rest.len() > 0 {
        lemma_words_value_low(rest);
        assert(rest[0] == w[1]);
    }
    assert(words_value(rest) == 0);
    assert(word_base() * 0 == 0);
}

impl<const LIMBS: usize> UInt<LIMBS> {
    /// The integer `n`.
    pub fn from_u64(n: u64) -> (r: Self)
        requires
            LIMBS > 0,
        ensures
            r@ == n as nat,
    {
        let mut words = [0u64; LIMBS];
        words[0] = n;
        proof {
            lemma_words_value_low(words@);
        }
        UInt { words }
    }

    /// Whether `self` and `other` are the same number.
    pub fn equals(&self, other: &Self) -> (r: bool)
        ensures
            r == (self@ == other@),
    {
        let mut i: usize = 0;
        while i < LIMBS
            invariant
                i <= LIMBS,
                self.words@.len() == LIMBS,
                other.words@.len() == LIMBS,
                forall|j: int| 0 <= j < i ==> self.words@[j] == other.words@[j],
            decreases LIMBS - i,
        {
            if self.words[i] != other.words[i] {
                proof {
                    if self@ == other@ {
                        lemma_words_value_injective(self.words@, other.words@);
                    }
                }
                return false;
            }
            i = i + 1;
        }
        assert(self.words@ =~= other.words@);
        true
    }
}

} // verus!
