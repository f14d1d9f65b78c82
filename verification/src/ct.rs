//! Constant-time primitives.
//!
//! Field operations that are classified as constant-time never branch on
//! field data. Branch-free word comparison and selection are delegated to
//! the `subtle` crate through the trusted wrappers below; the rest of the
//! crate combines their 0/1 results only with bitwise integer operators.

use vstd::prelude::*;

verus! {

/// `(a & b)` on 0/1 words is boolean conjunction.
pub proof fn lemma_bit_and(a: u8, b: u8)
    requires
        a <= 1,
        b <= 1,
    ensures
        a & b == (if a == 1 && b == 1 { 1u8 } else { 0u8 }),
{
    assert(a & b == (if a == 1 && b == 1 { 1u8 } else { 0u8 })) by (bit_vector)
        requires
            a <= 1,
            b <= 1,
    ;
}

/// `(a | b)` on 0/1 words is boolean disjunction.
pub proof fn lemma_bit_or(a: u8, b: u8)
    requires
        a <= 1,
        b <= 1,
    ensures
        a | b == (if a == 1 || b == 1 { 1u8 } else { 0u8 }),
{
    assert(a | b == (if a == 1 || b == 1 { 1u8 } else { 0u8 })) by (bit_vector)
        requires
            a <= 1,
            b <= 1,
    ;
}

/// `(a ^ 1)` on a 0/1 word is boolean negation.
pub proof fn lemma_bit_not(a: u8)
    requires
        a <= 1,
    ensures
        a ^ 1 == (if a == 1 { 0u8 } else { 1u8 }),
{
    assert(a ^ 1 == (if a == 1 { 0u8 } else { 1u8 })) by (bit_vector)
        requires
            a <= 1,
    ;
}

/// A boolean produced by a constant-time comparison, carried as a 0/1 word.
/// It is combined with other such values only through bitwise operations,
/// never by branching on secret data.
#[derive(Clone, Copy, Debug)]
pub struct Choice {
    bit: u8,
}

impl View for Choice {
    type V = bool;

    closed spec fn view(&self) -> bool {
        self.bit == 1
    }
}

impl Choice {
    /// The carried word is 0 or 1.
    pub closed spec fn ok(&self) -> bool {
        self.bit <= 1
    }

    /// Wraps a 0/1 word produced by a constant-time comparison.
    pub fn new(bit: u8) -> (r: Choice)
        requires
            bit <= 1,
        ensures
            r.ok(),
            r@ == (bit == 1),
    {
        Choice { bit }
    }

    /// Bitwise conjunction.
    pub fn and(&self, other: &Choice) -> (r: Choice)
        requires
            self.ok(),
            other.ok(),
        ensures
            r.ok(),
            r@ == (self@ && other@),
    {
        proof {
            lemma_bit_and(self.bit, other.bit);
        }
        Choice { bit: self.bit & other.bit }
    }

    /// Bitwise disjunction.
    pub fn or(&self, other: &Choice) -> (r: Choice)
        requires
            self.ok(),
            other.ok(),
        ensures
            r.ok(),
            r@ == (self@ || other@),
    {
        proof {
            lemma_bit_or(self.bit, other.bit);
        }
        Choice { bit: self.bit | other.bit }
    }

    /// Bitwise negation.
    pub fn not(&self) -> (r: Choice)
        requires
            self.ok(),
        ensures
            r.ok(),
            r@ == !self@,
    {
        proof {
            lemma_bit_not(self.bit);
        }
        Choice { bit: self.bit ^ 1 }
    }

    /// The carried 0/1 word.
    pub fn bit(&self) -> (r: u8)
        requires
            self.ok(),
        ensures
            r <= 1,
            (r == 1) == self@,
    {
        self.bit
    }

    /// Reads the value out; the caller leaves the constant-time domain.
    pub fn as_bool(&self) -> (r: bool)
        ensures
            r == self@,
    {
        self.bit == 1
    }
}

/// A value paired with a validity flag. When the flag is false the payload
/// bits are still fully defined but carry no meaning; `unwrap` may only be
/// called once the flag is known to be set.
pub struct CtOption<T> {
    value: T,
    flag: Choice,
}

impl<T> CtOption<T> {
    /// The validity flag, in specifications.
    pub closed spec fn spec_is_some(&self) -> bool {
        self.flag@
    }

    /// The payload, in specifications.
    pub closed spec fn spec_value(&self) -> T {
        self.value
    }

    /// The flag word is well formed.
    pub closed spec fn ok(&self) -> bool {
        self.flag.ok()
    }

    pub fn new(value: T, flag: Choice) -> (r: CtOption<T>)
        requires
            flag.ok(),
        ensures
            r.ok(),
            r.spec_value() == value,
            r.spec_is_some() == flag@,
    {
        CtOption { value, flag }
    }

    pub fn is_some(&self) -> (r: Choice)
        requires
            self.ok(),
        ensures
            r.ok(),
            r@ == self.spec_is_some(),
    {
        self.flag
    }

    pub fn is_none(&self) -> (r: Choice)
        requires
            self.ok(),
        ensures
            r.ok(),
            r@ == !self.spec_is_some(),
    {
        self.flag.not()
    }

    /// Extracts the payload of a valid result.
    pub fn unwrap(self) -> (r: T)
        requires
            self.spec_is_some(),
        ensures
            r == self.spec_value(),
    {
        self.value
    }
}

/// Relies on subtle's `ConstantTimeEq` for `u64`: `ct_eq` returns, without
/// branching, `1` exactly when the two words are equal and `0` otherwise.
#[verifier::external_body]
pub(crate) fn ct_eq_u64(a: u64, b: u64) -> (r: u8)
    ensures
        r == (if a == b { 1u8 } else { 0u8 }),
{
    subtle::ConstantTimeEq::ct_eq(&a, &b).unwrap_u8()
}

/// Relies on subtle's `ConstantTimeLess` for `u64`: `ct_lt` returns, without
/// branching, `1` exactly when `a < b` as unsigned integers and `0`
/// otherwise.
#[verifier::external_body]
pub(crate) fn ct_lt_u64(a: u64, b: u64) -> (r: u8)
    ensures
        r == (if a < b { 1u8 } else { 0u8 }),
{
    subtle::ConstantTimeLess::ct_lt(&a, &b).unwrap_u8()
}

/// Relies on subtle's `ConditionallySelectable` for `u64`:
/// `conditional_select(a, b, c)` returns `b` when `c` is 1 and `a` when `c`
/// is 0, as a branch-free blend.
#[verifier::external_body]
pub(crate) fn ct_select_u64(a: u64, b: u64, c: u8) -> (r: u64)
    requires
        c <= 1,
    ensures
        r == (if c == 1 { b } else { a }),
{
    <u64 as subtle::ConditionallySelectable>::conditional_select(&a, &b, subtle::Choice::from(c))
}

} // verus!
