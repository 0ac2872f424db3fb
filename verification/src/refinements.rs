//! Range predicates for opcode validation.  Each marker type carries one
//! inclusive range from the taxonomy; its `test` decides membership
//! exactly.  Decimal ranges take the library's exact [`Decimal`] numbers.

use vstd::prelude::*;
use crate::numbers::Decimal;

verus! {

/// Channel-style range `0..=16`.
pub struct ZeroToSixteen;

impl ZeroToSixteen {
    pub fn test(x: &u8) -> (r: bool)
        ensures
            r == (*x <= 16),
    {
        *x <= 16
    }
}

/// The MIDI data range `0..=127`.
pub struct ZeroToOneTwentySeven;

impl ZeroToOneTwentySeven {
    pub fn test(x: &u8) -> (r: bool)
        ensures
            r == (*x <= 127),
    {
        *x <= 127
    }
}

/// The pitch-bend range `-8192..=8192`.
pub struct EightThousandOneNinetyTwoNegToPos;

impl EightThousandOneNinetyTwoNegToPos {
    pub fn test(x: &i16) -> (r: bool)
        ensures
            r == (-8192 <= *x <= 8192),
    {
        -8192 <= *x && *x <= 8192
    }
}

/// The unit interval `0..=1` over decimals.
pub struct FloatZeroToOne;

impl FloatZeroToOne {
    pub fn test(x: &Decimal) -> (r: bool)
        requires
            x.wf(),
        ensures
            r == x.in_range(0, 1),
    {
        crate::numbers::dec_in_range(x, 0, 1)
    }
}

/// The tempo range `0..=500` over decimals.
pub struct FloatZeroToFiveHundred;

impl FloatZeroToFiveHundred {
    pub fn test(x: &Decimal) -> (r: bool)
        requires
            x.wf(),
        ensures
            r == x.in_range(0, 500),
    {
        crate::numbers::dec_in_range(x, 0, 500)
    }
}

/// The sequence range `1..=100`.
pub struct OneToOneHundred;

impl OneToOneHundred {
    pub fn test(x: &u8) -> (r: bool)
        ensures
            r == (1 <= *x <= 100),
    {
        1 <= *x && *x <= 100
    }
}

/// The full sample-offset range of an unsigned 32-bit count.
pub struct ZeroToU32BitMax;

impl ZeroToU32BitMax {
    pub fn test(x: &u32) -> (r: bool)
        ensures
            r,
    {
        *x <= u32::MAX
    }
}

/// The percentage range `0..=100` over decimals.
pub struct FloatZeroToOneHundred;

impl FloatZeroToOneHundred {
    pub fn test(x: &Decimal) -> (r: bool)
        requires
            x.wf(),
        ensures
            r == x.in_range(0, 100),
    {
        crate::numbers::dec_in_range(x, 0, 100)
    }
}

/// The voice-group range `-1..=4294967295`.
pub struct NegOneToU32BitMax;

impl NegOneToU32BitMax {
    pub fn test(x: &i64) -> (r: bool)
        ensures
            r == (-1 <= *x <= 4294967295),
    {
        -1 <= *x && *x <= 4294967295
    }
}

/// The crossfade range `0..=32` over decimals.
pub struct FloatZeroToThirtyTwo;

impl FloatZeroToThirtyTwo {
    pub fn test(x: &Decimal) -> (r: bool)
        requires
            x.wf(),
        ensures
            r == x.in_range(0, 32),
    {
        crate::numbers::dec_in_range(x, 0, 32)
    }
}

} // verus!
