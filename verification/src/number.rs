//! Integers of any size.

use num::bigint::{BigInt, Sign};
use vstd::prelude::*;

verus! {

/// The number that base 2^32 digits stand for, least significant digit first.
pub open spec fn magnitude(digits: Seq<u32>) -> nat
    decreases digits.len(),
{
    if digits.len() == 0 {
        0
    } else {
        digits[0] as nat + 0x1_0000_0000 * magnitude(digits.drop_first())
    }
}

/// An integer of any size, as a sign and a magnitude in base 2^32.
#[derive(Debug)]
pub struct Int {
    /// Whether the magnitude counts downwards from zero.
    pub negative: bool,
    /// The digits of the magnitude, least significant first.
    pub digits: Vec<u32>,
}

impl View for Int {
    type V = int;

    open spec fn view(&self) -> int {
        if self.negative {
            -(magnitude(self.digits@) as int)
        } else {
            magnitude(self.digits@) as int
        }
    }
}

/// Builds a number with `num`'s `BigInt::from_slice`, which reads base 2^32 digits from the least
/// significant one on, and narrows it with the crate's `TryFrom<BigInt>` for `u32`, which fails
/// exactly on the numbers that are out of range.
#[verifier::external_body]
fn magnitude_to_u32(digits: &[u32]) -> (r: Option<u32>)
    ensures
        r == (if magnitude(digits@) <= u32::MAX {
            Some(magnitude(digits@) as u32)
        } else {
            None
        }),
{
    u32::try_from(BigInt::from_slice(Sign::Plus, digits)).ok()
}

impl Int {
    /// The number as a `u32`, if it is one.
    pub fn to_u32(&self) -> (r: Option<u32>)
        ensures
            r == (if 0 <= self@ <= u32::MAX {
                Some(self@ as u32)
            } else {
                None
            }),
    {
        match magnitude_to_u32(self.digits.as_slice()) {
            Some(m) => if self.negative && m != 0 {
                None
            } else {
                Some(m)
            },
            None => None,
        }
    }
}

impl Clone for Int {
    fn clone(&self) -> (r: Self)
        ensures
            r@ == self@,
    {
        let mut digits: Vec<u32> = Vec::new();
        for i in 0..self.digits.len()
            invariant
                digits@ == self.digits@.take(i as int),
        {
            digits.push(self.digits[i]);
        }
        assert(digits@ =~= self.digits@);
        Int { negative: self.negative, digits }
    }
}

} // verus!
