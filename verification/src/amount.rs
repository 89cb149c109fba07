//! Currency amounts: unsigned integers of 512 bits, held as eight 64-bit
//! words with the least significant word first. Arithmetic on them is done by
//! `casper_types::U512`.

use casper_types::U512;
use vstd::arithmetic::power2::*;
use vstd::prelude::*;

verus! {

/// The number that little-endian 64-bit words stand for.
pub open spec fn words_value(w: Seq<u64>) -> nat
    decreases w.len(),
{
    if w.len() == 0 {
        0
    } else {
        (w[0] as nat) + 0x1_0000_0000_0000_0000 * words_value(w.skip(1))
    }
}

/// The first number that no amount can hold: two to the power 512.
pub open spec fn limit() -> nat {
    pow2(512)
}

/// An amount of currency.
#[derive(Clone, Copy, Debug, PartialEq, Eq)]
pub struct Amount {
    pub words: [u64; 8],
}

/// An amount is viewed as the number that its words stand for.
impl View for Amount {
    type V = nat;

    open spec fn view(&self) -> nat {
        words_value(self.words@)
    }
}

/// `U512::checked_add` of casper_types, on two amounts given by their words:
/// the sum where it is below two to the power 512, and nothing where it is not.
#[verifier::external_body]
fn u512_checked_add(a: &Amount, b: &Amount) -> (r: Option<Amount>)
    ensures
        r is Some <==> a@ + b@ < limit(),
        r matches Some(c) ==> c@ == a@ + b@,
{
    match U512(a.words).checked_add(U512(b.words)) {
        Some(c) => Some(Amount { words: c.0 }),
        None => None,
    }
}

/// `U512::checked_sub` of casper_types, on two amounts given by their words:
/// the difference where the first is at least the second, and nothing where
/// it is not.
#[verifier::external_body]
fn u512_checked_sub(a: &Amount, b: &Amount) -> (r: Option<Amount>)
    ensures
        r is Some <==> a@ >= b@,
        r matches Some(c) ==> c@ == a@ - b@,
{
    match U512(a.words).checked_sub(U512(b.words)) {
        Some(c) => Some(Amount { words: c.0 }),
        None => None,
    }
}

/// The `<` of casper_types' `U512`, on two amounts given by their words:
/// whether the first number is below the second.
#[verifier::external_body]
fn u512_less(a: &Amount, b: &Amount) -> (r: bool)
    ensures
        r == (a@ < b@),
{
    U512(a.words) < U512(b.words)
}

impl Amount {
    /// The amount zero.
    pub fn zero() -> (a: Amount)
        ensures
            a@ == 0,
    {
        Amount::from_u64(0)
    }

    /// The amount `v`.
    pub fn from_u64(v: u64) -> (a: Amount)
        ensures
            a@ == v,
            a.words@ == seq![v, 0u64, 0u64, 0u64, 0u64, 0u64, 0u64, 0u64],
    {
        let a = Amount { words: [v, 0, 0, 0, 0, 0, 0, 0] };
        proof {
            let w = a.words@;
            assert(w =~= seq![v, 0u64, 0u64, 0u64, 0u64, 0u64, 0u64, 0u64]);
            lemma_zero_tail(w.skip(1));
            assert(w[0] == v);
        }
        a
    }

    /// The amount whose words, least significant first, are `words`.
    pub fn from_words(words: [u64; 8]) -> (a: Amount)
        ensures
            a.words == words,
    {
        Amount { words }
    }

    /// The sum of two amounts, unless it cannot be held.
    pub fn checked_add(&self, other: &Amount) -> (r: Option<Amount>)
        ensures
            r is Some <==> self@ + other@ < limit(),
            r matches Some(c) ==> c@ == self@ + other@,
    {
        u512_checked_add(self, other)
    }

    /// The difference of two amounts, unless the second is the larger.
    pub fn checked_sub(&self, other: &Amount) -> (r: Option<Amount>)
        ensures
            r is Some <==> self@ >= other@,
            r matches Some(c) ==> c@ == self@ - other@,
    {
        u512_checked_sub(self, other)
    }

    /// Whether this amount is below `other`.
    pub fn less_than(&self, other: &Amount) -> (r: bool)
        ensures
            r == (self@ < other@),
    {
        u512_less(self, other)
    }
}

/// Words that are all zero stand for zero.
pub proof fn lemma_zero_tail(w: Seq<u64>)
    requires
        forall|i: int| 0 <= i < w.len() ==> w[i] == 0,
    ensures
        words_value(w) == 0,
    decreases w.len(),
{
    if w.len() > 0 {
        lemma_zero_tail(w.skip(1));
    }
}

/// The value of `n` words is below two to the power of their bits.
pub proof fn lemma_words_bounded(w: Seq<u64>)
    ensures
        words_value(w) < pow2((64 * w.len()) as nat),
    decreases w.len(),
{
    lemma2_to64();
    if w.len() > 0 {
        let rest = w.skip(1);
        lemma_words_bounded(rest);
        let high = pow2((64 * rest.len()) as nat);
        lemma_pow2_adds(64, (64 * rest.len()) as nat);
        assert(pow2((64 * w.len()) as nat) == 0x1_0000_0000_0000_0000 * high);
        assert(words_value(w) == (w[0] as nat) + 0x1_0000_0000_0000_0000 * words_value(rest));
        assert(words_value(rest) + 1 <= high);
        assert(0x1_0000_0000_0000_0000 * (words_value(rest) + 1) <= 0x1_0000_0000_0000_0000 * high)
            by (nonlinear_arith)
            requires
                words_value(rest) + 1 <= high,
        ;
    }
}

/// Every amount is below the limit.
pub proof fn lemma_amount_bounded(a: Amount)
    ensures
        a@ < limit(),
{
    lemma_words_bounded(a.words@);
}

/// Words of the same number that stand for the same value are the same
/// words.
pub proof fn lemma_words_determined(v: Seq<u64>, w: Seq<u64>)
    requires
        v.len() == w.len(),
        words_value(v) == words_value(w),
    ensures
        v == w,
    decreases v.len(),
{
    if v.len() > 0 {
        let a = words_value(v.skip(1));
        let b = words_value(w.skip(1));
        assert(a == b && v[0] == w[0]) by {
            assert(v[0] as nat + 0x1_0000_0000_0000_0000 * a == w[0] as nat
                + 0x1_0000_0000_0000_0000 * b);
        }
        lemma_words_determined(v.skip(1), w.skip(1));
        assert forall|i: int| 0 <= i < v.len() implies v[i] == w[i] by {
            if i > 0 {
                assert(v[i] == v.skip(1)[i - 1]);
                assert(w[i] == w.skip(1)[i - 1]);
            }
        }
    }
    assert(v =~= w);
}

/// An amount is determined by the number it stands for.
pub proof fn lemma_amount_determined(a: Amount, b: Amount)
    requires
        a@ == b@,
    ensures
        a == b,
{
    lemma_words_determined(a.words@, b.words@);
    assert(a.words =~= b.words);
}

} // verus!
