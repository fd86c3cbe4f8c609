//! Conversion of audio to the engine's sample rate.
//!
//! The converter is a plain linear interpolant. It is fit for a speech
//! recogniser, which bears mild aliasing, and not for high fidelity; that is
//! chosen, and a better filter would change the values it gives.
//!
//! Positions in the input are computed exactly, as fractions of naturals.
//! The samples themselves stay opaque to the library: the caller says how two
//! neighbours are mixed, and what silence is.

use crate::rate::{Dyadic, SampleRate, TARGET_RATE};
use vstd::arithmetic::div_mod::{
    lemma_basic_div,
    lemma_div_is_ordered,
    lemma_div_multiples_vanish,
    lemma_fundamental_div_mod,
    lemma_multiply_divide_lt,
};
use vstd::arithmetic::power2::{
    lemma2_to64,
    lemma2_to64_rest,
    lemma_pow2_adds,
    lemma_pow2_pos,
    lemma_pow2_strictly_increases,
    lemma_pow2_unfold,
    pow2,
};
use vstd::prelude::*;

verus! {

/// How far an output sample lies between two neighbours of the input:
/// `numerator / denominator` of the way from the first to the second.
#[derive(Debug, Clone, Copy, PartialEq, Eq)]
pub struct Fraction {
    pub numerator: u128,
    pub denominator: u128,
}

impl Fraction {
    /// The fraction is at least zero and less than one.
    pub open spec fn is_proper(self) -> bool {
        self.numerator < self.denominator
    }
}

/// The denominator shared by all positions in the input: one input sample
/// is `span` parts long, and each output sample advances by the numerator of
/// the rate.
pub open spec fn span(rate: Dyadic) -> nat {
    TARGET_RATE as nat * rate.denominator()
}

/// The number of output samples for `input_len` input samples: the input
/// length times 16000 over the rate, rounded down.
pub open spec fn output_length(input_len: nat, rate: Dyadic) -> nat {
    (input_len * span(rate)) / rate.numerator()
}

/// The input sample at or just before output sample `i`: `i` times the rate
/// over 16000, rounded down.
pub open spec fn source_index(i: nat, rate: Dyadic) -> nat {
    (i * rate.numerator()) / span(rate)
}

/// What is left of the position of output sample `i` beyond
/// `source_index(i, rate)`. Its terms fit wherever the output length does:
/// see `lemma_fraction_is_exact`.
pub open spec fn source_fraction(i: nat, rate: Dyadic) -> Fraction {
    Fraction {
        numerator: ((i * rate.numerator()) % span(rate)) as u128,
        denominator: span(rate) as u128,
    }
}

/// Whether `value` may stand at place `i` of the output: a mix of the two
/// neighbours where the input has both, the last input sample where it has
/// only the first, and silence beyond the input.
pub open spec fn resampled_at<T, F: Fn(T, T, Fraction) -> T>(
    input: Seq<T>,
    rate: Dyadic,
    silence: T,
    mix: F,
    i: int,
    value: T,
) -> bool {
    let base = source_index(i as nat, rate) as int;
    if base + 1 < input.len() {
        call_ensures(mix, (input[base], input[base + 1], source_fraction(i as nat, rate)), value)
    } else if base < input.len() {
        value == input[base]
    } else {
        value == silence
    }
}

/// A well-formed rate is a fraction of two positive naturals.
pub proof fn lemma_rate_is_positive(rate: Dyadic)
    requires
        rate.wf(),
    ensures
        rate.numerator() > 0,
        rate.denominator() > 0,
        span(rate) > 0,
{
    if rate.exponent >= 0 {
        let p = pow2(rate.exponent as nat);
        lemma_pow2_pos(rate.exponent as nat);
        assert(rate.mantissa * p > 0) by (nonlinear_arith)
            requires
                rate.mantissa > 0,
                p > 0,
        ;
    } else {
        lemma_pow2_pos((-rate.exponent) as nat);
    }
}

/// The output length is the quotient of the input length times 16000 by the
/// rate, rounded down: it is the one natural `n` with
/// `n <= input_len * 16000 / rate < n + 1`, written without the division.
pub proof fn lemma_length_is_floor(input_len: nat, rate: Dyadic)
    requires
        rate.wf(),
    ensures
        output_length(input_len, rate) * rate.numerator() <= input_len * span(rate),
        input_len * span(rate) < (output_length(input_len, rate) + 1) * rate.numerator(),
{
    lemma_rate_is_positive(rate);
    let n = rate.numerator() as int;
    let total = (input_len * span(rate)) as int;
    let out = total / n;
    lemma_fundamental_div_mod(total, n);
    assert(out * n <= total < (out + 1) * n) by (nonlinear_arith)
        requires
            total == n * out + total % n,
            0 <= total % n < n,
    ;
}

/// At 16000 Hz the output is as long as the input.
pub proof fn lemma_identity_length(input_len: nat, rate: Dyadic)
    requires
        rate.wf(),
        rate.is_target(),
    ensures
        output_length(input_len, rate) == input_len,
{
    lemma_rate_is_positive(rate);
    lemma_div_multiples_vanish(input_len as int, span(rate) as int);
    assert(input_len * span(rate) == span(rate) * input_len) by (nonlinear_arith);
}

/// No input gives no output, at any rate.
pub proof fn lemma_empty_input(rate: Dyadic)
    requires
        rate.wf(),
    ensures
        output_length(0, rate) == 0,
{
    lemma_rate_is_positive(rate);
    assert(0 * span(rate) == 0) by (nonlinear_arith);
    lemma_basic_div(0, rate.numerator() as int);
}

/// Every output sample is taken from inside the input: the source index of
/// each place of the output is a place of the input, so no sample is read
/// past the end and none is silence.
pub proof fn lemma_tail_is_safe(input_len: nat, rate: Dyadic, i: nat)
    requires
        rate.wf(),
        i < output_length(input_len, rate),
    ensures
        source_index(i, rate) < input_len,
{
    lemma_rate_is_positive(rate);
    lemma_length_is_floor(input_len, rate);
    let n = rate.numerator() as int;
    let s = span(rate) as int;
    let out = output_length(input_len, rate) as int;
    assert(i * n < s * input_len) by (nonlinear_arith)
        requires
            i < out,
            n > 0,
            out * n <= input_len * s,
    ;
    lemma_multiply_divide_lt(i * n, s, input_len as int);
}

/// Where the output length fits in a `usize`, the fraction handed to the mix
/// is the exact remainder of the position over the exact span, and is less
/// than one.
pub proof fn lemma_fraction_is_exact(input_len: nat, rate: Dyadic, i: nat)
    requires
        rate.wf(),
        i < output_length(input_len, rate) <= usize::MAX,
    ensures
        source_fraction(i, rate).numerator == (i * rate.numerator()) % span(rate),
        source_fraction(i, rate).denominator == span(rate),
        source_fraction(i, rate).is_proper(),
{
    lemma_rate_is_positive(rate);
    lemma_length_is_floor(input_len, rate);
    let m = rate.numerator() as int;
    let s = span(rate) as int;
    let out = output_length(input_len, rate) as int;
    if rate.exponent < 0 {
        assert(s < 0x20_0000_0000_0000 * 0x1_0000_0000_0000_0000) by (nonlinear_arith)
            requires
                0 < out < 0x1_0000_0000_0000_0000,
                0 < m < 0x20_0000_0000_0000,
                0 < s,
                0 <= input_len,
                input_len * s < (out + 1) * m,
                out * m <= input_len * s,
        ;
    }
    assert(0 <= (i * m) % s < s) by (nonlinear_arith)
        requires
            s > 0,
    ;
}

/// The output is at least `bound` long where the input, in parts, is at
/// least `bound` times the numerator of the rate.
proof fn lemma_length_is_at_least(input_len: nat, rate: Dyadic, bound: nat)
    requires
        rate.wf(),
        bound * rate.numerator() <= input_len * span(rate),
    ensures
        bound <= output_length(input_len, rate),
{
    lemma_rate_is_positive(rate);
    let n = rate.numerator() as int;
    assert(bound * n == n * bound) by (nonlinear_arith);
    lemma_div_is_ordered(n * bound, (input_len * span(rate)) as int, n);
    lemma_div_multiples_vanish(bound as int, n);
}

/// The powers of two that bound the index arithmetic.
proof fn lemma_powers_of_two()
    ensures
        pow2(25) == 0x200_0000,
        pow2(26) == 0x400_0000,
        pow2(103) == 0x80_0000_0000_0000_0000_0000_0000,
        pow2(104) == 0x100_0000_0000_0000_0000_0000_0000,
        pow2(126) == 0x4000_0000_0000_0000_0000_0000_0000_0000,
{
    lemma2_to64();
    lemma2_to64_rest();
    lemma_pow2_adds(64, 39);
    lemma_pow2_adds(64, 40);
    lemma_pow2_adds(64, 62);
    assert(0x1_0000_0000_0000_0000 * 0x80_0000_0000 == 0x80_0000_0000_0000_0000_0000_0000int)
        by (nonlinear_arith);
    assert(0x1_0000_0000_0000_0000 * 0x100_0000_0000 == 0x100_0000_0000_0000_0000_0000_0000int)
        by (nonlinear_arith);
    assert(0x1_0000_0000_0000_0000 * 0x4000_0000_0000_0000
        == 0x4000_0000_0000_0000_0000_0000_0000_0000int) by (nonlinear_arith);
}

/// Two to the power `k`.
fn power_of_two(k: u32) -> (p: u128)
    requires
        k <= 126,
    ensures
        p == pow2(k as nat),
{
    let mut p: u128 = 1;
    let mut j: u32 = 0;
    proof {
        lemma2_to64();
    }
    while j < k
        invariant
            j <= k <= 126,
            p == pow2(j as nat),
        decreases k - j,
    {
        proof {
            lemma_powers_of_two();
            lemma_pow2_unfold((j + 1) as nat);
            if j + 1 < 126 {
                lemma_pow2_strictly_increases((j + 1) as nat, 126);
            }
        }
        p = p * 2;
        j = j + 1;
    }
    p
}

/// The terms of the index arithmetic for one input length and one rate.
struct Stride {
    /// The number of output samples.
    output_len: usize,
    /// By how much the position in the input grows with each output sample.
    step: u128,
    /// The length of one input sample, in the same parts.
    span: u128,
}

/// Computes the output length, and with it the numerator of the rate and
/// the span, unless the output length is more than a `usize` holds.
fn stride(input_len: usize, rate: SampleRate) -> (r: Option<Stride>)
    ensures
        match r {
            Some(s) => {
                &&& s.output_len == output_length(input_len as nat, rate@)
                &&& s.output_len > 0 ==> {
                    &&& s.step == rate@.numerator()
                    &&& s.span == span(rate@)
                    &&& s.output_len * s.step <= u128::MAX
                }
            },
            None => output_length(input_len as nat, rate@) > usize::MAX,
        },
{
    let mantissa: u128 = rate.mantissa() as u128;
    let exponent: i32 = rate.exponent();
    let target: u128 = TARGET_RATE as u128;
    proof {
        lemma_rate_is_positive(rate@);
        lemma_powers_of_two();
    }
    if input_len == 0 {
        proof {
            lemma_empty_input(rate@);
        }
        return Some(Stride { output_len: 0, step: 0, span: 0 });
    }
    if exponent >= 26 {
        // The rate is beyond the longest input there is, in parts: nothing comes out.
        proof {
            let scale = pow2(exponent as nat);
            if exponent > 26 {
                lemma_pow2_strictly_increases(26, exponent as nat);
            }
            assert(mantissa * scale > input_len * 16000) by (nonlinear_arith)
                requires
                    mantissa >= 0x10_0000_0000_0000,
                    scale >= 0x400_0000,
                    input_len < 0x1_0000_0000_0000_0000,
            ;
            lemma_basic_div((input_len * 16000) as int, rate@.numerator() as int);
        }
        Some(Stride { output_len: 0, step: 0, span: 0 })
    } else if exponent >= 0 {
        let scale: u128 = power_of_two(exponent as u32);
        proof {
            lemma_pow2_pos(exponent as nat);
            if exponent < 25 {
                lemma_pow2_strictly_increases(exponent as nat, 25);
            }
            assert(16000 <= mantissa * scale <= 0x20_0000_0000_0000 * 0x200_0000)
                by (nonlinear_arith)
                requires
                    0x10_0000_0000_0000 <= mantissa < 0x20_0000_0000_0000,
                    1 <= scale <= 0x200_0000,
            ;
        }
        let step: u128 = mantissa * scale;
        let total: u128 = input_len as u128 * target;
        let quotient: u128 = total / step;
        proof {
            lemma_fundamental_div_mod(total as int, step as int);
            assert(quotient * step <= total && quotient <= input_len) by (nonlinear_arith)
                requires
                    total == step * quotient + total % step,
                    total % step >= 0,
                    total == input_len * 16000,
                    step >= 16000,
                    quotient >= 0,
            ;
        }
        Some(Stride { output_len: quotient as usize, step, span: target })
    } else if exponent <= -104 {
        // One sample of input alone is longer, in parts, than any output that fits.
        proof {
            let scale = pow2((-exponent) as nat);
            if exponent < -104 {
                lemma_pow2_strictly_increases(104, (-exponent) as nat);
            }
            assert(0x1_0000_0000_0000_0000 * mantissa <= input_len * (16000 * scale))
                by (nonlinear_arith)
                requires
                    mantissa < 0x20_0000_0000_0000,
                    scale >= 0x100_0000_0000_0000_0000_0000_0000,
                    input_len >= 1,
            ;
            lemma_length_is_at_least(input_len as nat, rate@, 0x1_0000_0000_0000_0000);
        }
        None
    } else {
        let scale: u128 = power_of_two((-exponent) as u32);
        proof {
            if exponent > -103 {
                lemma_pow2_strictly_increases((-exponent) as nat, 103);
            }
            assert(16000 * scale <= 16000 * 0x80_0000_0000_0000_0000_0000_0000)
                by (nonlinear_arith)
                requires
                    scale <= 0x80_0000_0000_0000_0000_0000_0000,
            ;
        }
        let width: u128 = target * scale;
        match (input_len as u128).checked_mul(width) {
            None => {
                proof {
                    let total = input_len * span(rate@);
                    assert(0x1_0000_0000_0000_0000 * mantissa <= total) by (nonlinear_arith)
                        requires
                            mantissa < 0x20_0000_0000_0000,
                            total > 0xffff_ffff_ffff_ffff_ffff_ffff_ffff_ffff,
                    ;
                    lemma_length_is_at_least(input_len as nat, rate@, 0x1_0000_0000_0000_0000);
                }
                None
            },
            Some(total) => {
                let quotient: u128 = total / mantissa;
                if quotient > usize::MAX as u128 {
                    None
                } else {
                    proof {
                        lemma_fundamental_div_mod(total as int, mantissa as int);
                        assert(quotient * mantissa <= total) by (nonlinear_arith)
                            requires
                                total == mantissa * quotient + total % mantissa,
                                total % mantissa >= 0,
                        ;
                    }
                    Some(Stride { output_len: quotient as usize, step: mantissa, span: width })
                }
            },
        }
    }
}

/// The number of output samples that `input_len` input samples at `rate`
/// give, or `None` where that number is more than a `usize` holds.
pub fn checked_output_length(input_len: usize, rate: SampleRate) -> (n: Option<usize>)
    ensures
        match n {
            Some(n) => n == output_length(input_len as nat, rate@),
            None => output_length(input_len as nat, rate@) > usize::MAX,
        },
{
    match stride(input_len, rate) {
        Some(terms) => Some(terms.output_len),
        None => None,
    }
}

/// Converts `samples`, recorded at `source_sample_rate`, to 16000 samples per
/// second by linear interpolation.
///
/// Audio that is at 16000 Hz already is handed back as it came. Otherwise
/// output sample `i` lies at `i` times the rate over 16000 in the input.
/// Where the input has a sample on both sides of that position, the output
/// is `mix` of the two and of the fraction by which the position exceeds the
/// first; where it has only the first, the output is that sample; where it
/// has neither, the output is `silence`. With positions computed exactly
/// the last does not arise (`lemma_tail_is_safe`); it stands so that every
/// position has a value.
///
/// The output length must fit in a `usize`: `checked_output_length` tells.
pub fn resample_to_16khz_mono<T: Copy, F: Fn(T, T, Fraction) -> T>(
    samples: Vec<T>,
    source_sample_rate: SampleRate,
    silence: T,
    mix: F,
) -> (output: Vec<T>)
    requires
        output_length(samples.len() as nat, source_sample_rate@) <= usize::MAX,
        forall|a: T, b: T, t: Fraction| t.is_proper() ==> call_requires(mix, (a, b, t)),
    ensures
        output.len() == output_length(samples.len() as nat, source_sample_rate@),
        source_sample_rate@.is_target() ==> output@ == samples@,
        forall|i: int|
            0 <= i < output.len() ==> #[trigger] source_index(i as nat, source_sample_rate@)
                < samples.len(),
        !source_sample_rate@.is_target() ==> forall|i: int|
            0 <= i < output.len() ==> resampled_at(
                samples@,
                source_sample_rate@,
                silence,
                mix,
                i,
                #[trigger] output[i],
            ),
{
    let ghost rate = source_sample_rate@;
    proof {
        use_type_invariant(&source_sample_rate);
        assert forall|i: int| 0 <= i < output_length(samples.len() as nat, rate) implies
            #[trigger] source_index(i as nat, rate) < samples.len() by {
            lemma_tail_is_safe(samples.len() as nat, rate, i as nat);
        }
    }
    if source_sample_rate.is_target() {
        proof {
            lemma_identity_length(samples.len() as nat, rate);
        }
        return samples;
    }
    let input_len: usize = samples.len();
    let terms: Stride = match stride(input_len, source_sample_rate) {
        Some(terms) => terms,
        None => unreached(),
    };
    let output_len: usize = terms.output_len;
    let mut output: Vec<T> = Vec::new();
    let mut i: usize = 0;
    while i < output_len
        invariant
            i <= output_len,
            output.len() == i,
            input_len == samples.len(),
            rate == source_sample_rate@,
            rate.wf(),
            output_len == output_length(input_len as nat, rate),
            output_len > 0 ==> terms.step == rate.numerator() && terms.span == span(rate)
                && output_len * terms.step <= u128::MAX,
            forall|a: T, b: T, t: Fraction| t.is_proper() ==> call_requires(mix, (a, b, t)),
            forall|j: int|
                0 <= j < i ==> resampled_at(samples@, rate, silence, mix, j, #[trigger] output[j]),
        decreases output_len - i,
    {
        proof {
            lemma_rate_is_positive(rate);
            lemma_tail_is_safe(input_len as nat, rate, i as nat);
            assert(i * terms.step <= output_len * terms.step) by (nonlinear_arith)
                requires
                    i < output_len,
                    terms.step >= 0,
            ;
        }
        let position: u128 = i as u128 * terms.step;
        let base: u128 = position / terms.span;
        let part: u128 = position % terms.span;
        let value: T = if base + 1 < input_len as u128 {
            let first: T = samples[base as usize];
            let second: T = samples[base as usize + 1];
            mix(first, second, Fraction { numerator: part, denominator: terms.span })
        } else if base < input_len as u128 {
            samples[base as usize]
        } else {
            silence
        };
        output.push(value);
        i = i + 1;
    }
    output
}

} // verus!
