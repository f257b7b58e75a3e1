//! Unsigned 512-bit amounts, held as eight little-endian 64-bit words.
//!
//! The arithmetic itself is done by `casper_types::U512`; this module gives it
//! exact contracts over the mathematical value of the words.

use vstd::prelude::*;

verus! {

/// The radix of one word: 2^64.
pub open spec fn word_base() -> nat {
    0x1_0000_0000_0000_0000nat
}

/// `word_base()` raised to the power `n`.
pub open spec fn word_base_pow(n: nat) -> nat
    decreases n,
{
    if n == 0 {
        1
    } else {
        word_base() * word_base_pow((n - 1) as nat)
    }
}

/// The value of little-endian words: `s[0] + 2^64 * s[1] + 2^128 * s[2] + ...`.
pub open spec fn words_value(s: Seq<u64>) -> nat
    decreases s.len(),
{
    if s.len() == 0 {
        0
    } else {
        s[0] as nat + word_base() * words_value(s.drop_first())
    }
}

/// One more than the largest 512-bit value: 2^512.
pub open spec fn u512_bound() -> nat {
    word_base_pow(8)
}

/// Words of `n` digits never reach `word_base_pow(n)`.
pub proof fn lemma_words_value_bound(s: Seq<u64>)
    ensures
        words_value(s) < word_base_pow(s.len()),
    decreases s.len(),
{
    if s.len() > 0 {
        lemma_words_value_bound(s.drop_first());
        let rest = words_value(s.drop_first());
        let p = word_base_pow((s.len() - 1) as nat);
        assert(s[0] as nat + word_base() * rest < word_base() * p) by (nonlinear_arith)
            requires
                s[0] < word_base(),
                rest < p,
                rest + 1 <= p,
        {
            assert(word_base() * (rest + 1) <= word_base() * p);
        }
    }
}

/// Words that are all `u64::MAX` stand for `word_base_pow(n) - 1`.
proof fn lemma_all_max_value(s: Seq<u64>)
    requires
        forall|i: int| 0 <= i < s.len() ==> s[i] == u64::MAX,
    ensures
        words_value(s) + 1 == word_base_pow(s.len()),
    decreases s.len(),
{
    if s.len() > 0 {
        let t = s.drop_first();
        assert forall|i: int| 0 <= i < t.len() implies t[i] == u64::MAX by {
            assert(t[i] == s[i + 1]);
        }
        lemma_all_max_value(t);
        let p = word_base_pow(t.len());
        assert((u64::MAX as nat) + word_base() * (p - 1) + 1 == word_base() * p)
            by (nonlinear_arith)
            requires
                p >= 1,
                u64::MAX as nat + 1 == word_base(),
        ;
    }
}

/// An unsigned 512-bit integer. Word 0 is the least significant.
#[derive(Clone, Copy, Debug, PartialEq, Eq)]
pub struct U512 {
    words: [u64; 8],
}

impl U512 {
    /// The mathematical value of this amount.
    pub closed spec fn value(&self) -> nat {
        words_value(self.words@)
    }

    /// Every amount lies below 2^512.
    pub proof fn lemma_value_in_range(&self)
        ensures
            self.value() < u512_bound(),
    {
        lemma_words_value_bound(self.words@);
    }

    /// The amount made of the given little-endian words.
    pub fn from_words(words: [u64; 8]) -> (r: U512)
        ensures
            r.value() == words_value(words@),
    {
        U512 { words }
    }

    /// The little-endian words of this amount.
    pub fn words(&self) -> (r: [u64; 8])
        ensures
            words_value(r@) == self.value(),
    {
        self.words
    }

    /// The amount `n`.
    pub fn from_u64(n: u64) -> (r: U512)
        ensures
            r.value() == n,
    {
        let r = U512 { words: [n, 0, 0, 0, 0, 0, 0, 0] };
        assert(r.words@ =~= seq![n, 0u64, 0u64, 0u64, 0u64, 0u64, 0u64, 0u64]);
        reveal_with_fuel(words_value, 9);
        r
    }

    /// Zero.
    pub fn zero() -> (r: U512)
        ensures
            r.value() == 0,
    {
        U512::from_u64(0)
    }

    /// The largest amount, 2^512 - 1.
    pub fn max_value() -> (r: U512)
        ensures
            r.value() + 1 == u512_bound(),
    {
        let m = u64::MAX;
        let r = U512 { words: [m, m, m, m, m, m, m, m] };
        proof {
            assert(r.words@.len() == 8);
            lemma_all_max_value(r.words@);
        }
        r
    }

    /// `self + other`, or `None` where the sum does not fit in 512 bits.
    pub fn checked_add(&self, other: &U512) -> (r: Option<U512>)
        ensures
            r is Some <==> self.value() + other.value() < u512_bound(),
            r matches Some(s) ==> s.value() == self.value() + other.value(),
    {
        match words_checked_add(self.words, other.words) {
            Some(w) => Some(U512 { words: w }),
            None => None,
        }
    }

    /// `self - other`, or `None` where `other` exceeds `self`.
    pub fn checked_sub(&self, other: &U512) -> (r: Option<U512>)
        ensures
            r is Some <==> other.value() <= self.value(),
            r matches Some(s) ==> s.value() == self.value() - other.value(),
    {
        match words_checked_sub(self.words, other.words) {
            Some(w) => Some(U512 { words: w }),
            None => None,
        }
    }

    /// Whether `self` is smaller than `other`.
    pub fn lt(&self, other: &U512) -> (r: bool)
        ensures
            r == (self.value() < other.value()),
    {
        words_less_than(self.words, other.words)
    }
}

/// Relies on `casper_types::U512::checked_add` (uint's little-endian words): the
/// sum when it fits in 512 bits, `None` otherwise.
#[verifier::external_body]
fn words_checked_add(a: [u64; 8], b: [u64; 8]) -> (r: Option<[u64; 8]>)
    ensures
        r is Some <==> words_value(a@) + words_value(b@) < u512_bound(),
        r matches Some(s) ==> words_value(s@) == words_value(a@) + words_value(b@),
{
    casper_types::U512(a).checked_add(casper_types::U512(b)).map(|v| v.0)
}

/// Relies on `casper_types::U512::checked_sub` (uint's little-endian words): the
/// difference when it is not negative, `None` otherwise.
#[verifier::external_body]
fn words_checked_sub(a: [u64; 8], b: [u64; 8]) -> (r: Option<[u64; 8]>)
    ensures
        r is Some <==> words_value(b@) <= words_value(a@),
        r matches Some(s) ==> words_value(s@) == words_value(a@) - words_value(b@),
{
    casper_types::U512(a).checked_sub(casper_types::U512(b)).map(|v| v.0)
}

/// Relies on the `Ord` of `casper_types::U512`, which compares the words from the
/// most significant down: numeric order.
#[verifier::external_body]
fn words_less_than(a: [u64; 8], b: [u64; 8]) -> (r: bool)
    ensures
        r == (words_value(a@) < words_value(b@)),
{
    casper_types::U512(a) < casper_types::U512(b)
}

} // verus!
