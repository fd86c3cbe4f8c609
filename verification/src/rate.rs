//! Sample rates as exact numbers.
//!
//! A rate reaches the library as the bit pattern of an IEEE 754 binary64
//! number. Every finite binary64 number is an integer times a power of two,
//! so the library keeps the rate as that pair and computes with it exactly:
//! no rounding enters the resampler's index arithmetic.

use crate::error::ServiceError;
use vstd::arithmetic::power2::{
    lemma2_to64,
    lemma2_to64_rest,
    lemma_pow2_pos,
    lemma_pow2_strictly_increases,
    pow2,
};
use vstd::prelude::*;

verus! {

/// The rate, in samples per second, of the audio that the engine takes.
pub const TARGET_RATE: u64 = 16000;

/// Two to the power 52: the leading bit that a normal binary64 number leaves
/// out of its fraction field.
pub const HIDDEN_BIT: u64 = 0x10_0000_0000_0000;

/// Two to the power 63: the sign bit of a binary64 number.
pub const SIGN_BIT: u64 = 0x8000_0000_0000_0000;

/// The significand of the binary64 number 16000.0, which is 16000 · 2^39.
pub const TARGET_MANTISSA: u64 = 0x1F_4000_0000_0000;

/// The number `mantissa · 2^exponent`.
pub struct Dyadic {
    pub mantissa: nat,
    pub exponent: int,
}

impl Dyadic {
    /// The number is positive and is written as binary64 writes it: the
    /// significand has at most 53 bits, and exactly 53 unless the exponent is
    /// the least one.
    pub open spec fn wf(self) -> bool {
        &&& 0 < self.mantissa < 2 * HIDDEN_BIT
        &&& -1074 <= self.exponent <= 971
        &&& self.exponent > -1074 ==> HIDDEN_BIT <= self.mantissa
    }

    /// The numerator of the number as a fraction of two naturals.
    pub open spec fn numerator(self) -> nat {
        if self.exponent >= 0 {
            self.mantissa * pow2(self.exponent as nat)
        } else {
            self.mantissa
        }
    }

    /// The denominator of the number as a fraction of two naturals.
    pub open spec fn denominator(self) -> nat {
        if self.exponent >= 0 {
            1
        } else {
            pow2((-self.exponent) as nat)
        }
    }

    /// The number is 16000.
    pub open spec fn is_target(self) -> bool {
        self.numerator() == TARGET_RATE * self.denominator()
    }
}

/// The positive finite number that a binary64 bit pattern stands for, if it
/// stands for one. Zero, negative numbers, infinities and NaN give `None`.
pub open spec fn decode(bits: u64) -> Option<Dyadic> {
    let biased = (bits / HIDDEN_BIT) % 2048;
    let fraction = bits % HIDDEN_BIT;
    if bits >= SIGN_BIT || biased == 2047 || bits == 0 {
        None
    } else if biased == 0 {
        Some(Dyadic { mantissa: fraction as nat, exponent: -1074 })
    } else {
        Some(Dyadic { mantissa: (HIDDEN_BIT + fraction) as nat, exponent: biased - 1075 })
    }
}

/// Among well-formed numbers only one pair of significand and exponent is
/// 16000.
pub proof fn lemma_target_is_unique(value: Dyadic)
    requires
        value.wf(),
    ensures
        value.is_target() <==> (value.mantissa == TARGET_MANTISSA && value.exponent == -39),
{
    lemma2_to64();
    lemma2_to64_rest();
    if value.exponent >= 0 {
        let p = pow2(value.exponent as nat);
        lemma_pow2_pos(value.exponent as nat);
        assert(value.mantissa * p >= value.mantissa) by (nonlinear_arith)
            requires
                p >= 1,
        ;
    } else {
        let k = (-value.exponent) as nat;
        let p = pow2(k);
        if k < 39 {
            if k < 38 {
                lemma_pow2_strictly_increases(k, 38);
            }
            assert(16000 * p <= 16000 * 0x40_0000_0000) by (nonlinear_arith)
                requires
                    p <= 0x40_0000_0000,
            ;
        } else if k > 39 {
            if k > 40 {
                lemma_pow2_strictly_increases(40, k);
            }
            assert(16000 * p >= 16000 * 0x100_0000_0000) by (nonlinear_arith)
                requires
                    p >= 0x100_0000_0000,
            ;
        }
    }
}

/// The binary64 number 16000.0, whose bits are `0x40CF_4000_0000_0000`,
/// is read as 16000.
pub proof fn lemma_target_is_read()
    ensures
        decode(0x40CF_4000_0000_0000) == Some(
            Dyadic { mantissa: TARGET_MANTISSA as nat, exponent: -39 },
        ),
        decode(0x40CF_4000_0000_0000)->Some_0.wf(),
        decode(0x40CF_4000_0000_0000)->Some_0.is_target(),
{
    assert(0x40CF_4000_0000_0000u64 / HIDDEN_BIT == 0x40C);
    assert(0x40CF_4000_0000_0000u64 % HIDDEN_BIT == 0xF_4000_0000_0000);
    lemma_target_is_unique(Dyadic { mantissa: TARGET_MANTISSA as nat, exponent: -39 });
}

/// A sample rate: a positive finite binary64 number, held exactly.
#[derive(Debug, Clone, Copy, PartialEq, Eq)]
pub struct SampleRate {
    mantissa: u64,
    exponent: i32,
}

impl View for SampleRate {
    type V = Dyadic;

    closed spec fn view(&self) -> Dyadic {
        Dyadic { mantissa: self.mantissa as nat, exponent: self.exponent as int }
    }
}

impl SampleRate {
    /// Every sample rate is a well-formed number.
    #[verifier::type_invariant]
    pub open spec fn well_formed(self) -> bool {
        self@.wf()
    }

    /// Reads a sample rate from the bits of a binary64 number. The bits of a
    /// positive finite number give that number; all others are refused.
    pub fn from_bits(bits: u64) -> (r: Result<SampleRate, ServiceError>)
        ensures
            match decode(bits) {
                Some(value) => r is Ok && r->Ok_0@ == value && value.wf(),
                None => r == Err::<SampleRate, ServiceError>(ServiceError::InvalidAudioInput),
            },
    {
        let biased: u64 = (bits / HIDDEN_BIT) % 2048;
        let fraction: u64 = bits % HIDDEN_BIT;
        if bits >= SIGN_BIT || biased == 2047 || bits == 0 {
            Err(ServiceError::InvalidAudioInput)
        } else if biased == 0 {
            Ok(SampleRate { mantissa: fraction, exponent: -1074 })
        } else {
            Ok(SampleRate { mantissa: HIDDEN_BIT + fraction, exponent: biased as i32 - 1075 })
        }
    }

    /// The significand of the rate.
    pub fn mantissa(&self) -> (m: u64)
        ensures
            m == self@.mantissa,
            self@.wf(),
    {
        proof {
            use_type_invariant(self);
        }
        self.mantissa
    }

    /// The power of two by which the significand is scaled.
    pub fn exponent(&self) -> (e: i32)
        ensures
            e == self@.exponent,
            self@.wf(),
    {
        proof {
            use_type_invariant(self);
        }
        self.exponent
    }

    /// Whether the rate is the 16000 Hz that the engine takes.
    pub fn is_target(&self) -> (b: bool)
        ensures
            b == self@.is_target(),
    {
        proof {
            use_type_invariant(self);
            lemma_target_is_unique(self@);
        }
        self.mantissa == TARGET_MANTISSA && self.exponent == -39
    }
}

} // verus!
