use fluid_audio::error::ServiceError;
use fluid_audio::rate::SampleRate;
use fluid_audio::resample::{checked_output_length, resample_to_16khz_mono, Fraction};

fn rate(hz: f64) -> SampleRate {
    SampleRate::from_bits(hz.to_bits()).expect("a positive finite rate")
}

fn lerp(a: f32, b: f32, t: Fraction) -> f32 {
    let fraction = t.numerator as f64 / t.denominator as f64;
    a + (b - a) * fraction as f32
}

fn resample(samples: Vec<f32>, hz: f64) -> Vec<f32> {
    let rate = rate(hz);
    assert!(checked_output_length(samples.len(), rate).is_some());
    resample_to_16khz_mono(samples, rate, 0.0, lerp)
}

#[test]
fn identity_at_target_rate() {
    let input = vec![0.25f32, -1.0, 3.5, 1.0e38, -3.0e38, 0.0];
    assert_eq!(resample(input.clone(), 16000.0), input);
}

#[test]
fn identity_keeps_not_a_number_bits() {
    let input = vec![f32::NAN, f32::INFINITY, -0.0];
    let output = resample(input.clone(), 16000.0);
    let bits = |v: &Vec<f32>| v.iter().map(|s| s.to_bits()).collect::<Vec<u32>>();
    assert_eq!(bits(&output), bits(&input));
}

#[test]
fn upsampling_by_two_interpolates_halfway() {
    let output = resample(vec![0.0, 1.0, 2.0, 3.0], 8000.0);
    assert_eq!(output.len(), 8);
    assert_eq!(output[1], 0.5);
    assert_eq!(output, vec![0.0, 0.5, 1.0, 1.5, 2.0, 2.5, 3.0, 3.0]);
}

#[test]
fn downsampling_by_two_keeps_every_other_sample() {
    let output = resample(vec![10.0, 11.0, 12.0, 13.0, 14.0, 15.0], 32000.0);
    assert_eq!(output, vec![10.0, 12.0, 14.0]);
}

#[test]
fn downsampling_by_three_from_48_khz() {
    let input: Vec<f32> = (0..12).map(|i| i as f32).collect();
    assert_eq!(resample(input, 48000.0), vec![0.0, 3.0, 6.0, 9.0]);
}

#[test]
fn fraction_is_exact_for_cd_rate() {
    // 44100 / 16000 = 2.75625: the second output sample lies at 2.75625.
    let input: Vec<f32> = (0..10).map(|i| (i * i) as f32).collect();
    let output = resample(input, 44100.0);
    assert_eq!(output.len(), 3);
    assert_eq!(output[0], 0.0);
    assert_eq!(output[1], 4.0 + (9.0 - 4.0) * 0.75625);
    assert_eq!(output[2], 25.0 + (36.0 - 25.0) * 0.5125);
}

#[test]
fn mix_receives_the_neighbours_and_the_fraction() {
    let rate = rate(12000.0);
    let seen = resample_to_16khz_mono(vec![1u32, 2, 3], rate, 0u32, |a, b, t: Fraction| {
        assert!(t.numerator < t.denominator);
        let quarters = t.numerator * 4 / t.denominator;
        assert_eq!(quarters * t.denominator, t.numerator * 4);
        a * 100 + b * 10 + quarters as u32
    });
    // positions 0, 0.75, 1.5, 2.25: the last has no right neighbour.
    assert_eq!(seen, vec![120, 123, 232, 3]);
}

#[test]
fn length_is_floor_of_scaled_length() {
    let cases: [(usize, f64, usize); 9] = [
        (4, 8000.0, 8),
        (3, 48000.0, 1),
        (2, 48000.0, 0),
        (44100, 44100.0, 16000),
        (44099, 44100.0, 15999),
        (1000, 22050.0, 725),
        (7, 16000.0, 7),
        (5, 11025.5, 7),
        (1, 0.5, 32000),
    ];
    for (len, hz, expected) in cases {
        let rate = rate(hz);
        assert_eq!(checked_output_length(len, rate), Some(expected));
        let output = resample_to_16khz_mono(vec![0.0f32; len], rate, 0.0, lerp);
        assert_eq!(output.len(), expected);
    }
}

#[test]
fn empty_input_gives_empty_output() {
    for hz in [1.0, 8000.0, 16000.0, 44100.0, 1.0e300, 5.0e-324] {
        assert_eq!(resample(Vec::new(), hz), Vec::<f32>::new());
    }
}

#[test]
fn tail_is_the_last_sample_and_never_silence() {
    for hz in [4000.0, 8000.0, 11025.0, 12000.0, 15999.0, 16001.0, 22050.0, 44100.0, 48000.0] {
        for len in 1..40usize {
            let input: Vec<f32> = (0..len).map(|i| 1.0 + i as f32).collect();
            let rate = rate(hz);
            let output = resample_to_16khz_mono(input.clone(), rate, f32::NAN, lerp);
            assert!(output.iter().all(|s| *s >= 1.0 && *s <= len as f32));
            if hz <= 8000.0 {
                assert_eq!(output.last(), input.last());
            }
        }
    }
}

#[test]
fn huge_rate_gives_no_output() {
    assert_eq!(resample(vec![1.0; 1000], f64::MAX), Vec::<f32>::new());
    assert_eq!(resample(vec![1.0; 1000], 1.0e20), Vec::<f32>::new());
}

#[test]
fn output_too_long_is_told() {
    assert_eq!(checked_output_length(1, rate(f64::MIN_POSITIVE)), None);
    assert_eq!(checked_output_length(1, rate(5.0e-324)), None);
    assert_eq!(checked_output_length(usize::MAX, rate(8000.0)), None);
    assert_eq!(checked_output_length(usize::MAX, rate(32000.0)), Some(usize::MAX / 2));
    assert_eq!(checked_output_length(0, rate(5.0e-324)), Some(0));
}

#[test]
fn rate_must_be_positive_and_finite() {
    for hz in [0.0, -0.0, -16000.0, f64::NAN, f64::INFINITY, f64::NEG_INFINITY, -5.0e-324] {
        assert_eq!(SampleRate::from_bits(hz.to_bits()), Err(ServiceError::InvalidAudioInput));
    }
    for hz in [5.0e-324, f64::MIN_POSITIVE, 1.0, 16000.0, 44100.5, f64::MAX] {
        assert!(SampleRate::from_bits(hz.to_bits()).is_ok());
    }
}

#[test]
fn rate_is_decoded_exactly() {
    let target = rate(16000.0);
    assert!(target.is_target());
    assert_eq!((target.mantissa(), target.exponent()), (16000u64 << 39, -39));
    let half = rate(0.5);
    assert!(!half.is_target());
    assert_eq!((half.mantissa(), half.exponent()), (1u64 << 52, -53));
    let least = rate(5.0e-324);
    assert_eq!((least.mantissa(), least.exponent()), (1, -1074));
    let most = rate(f64::MAX);
    assert_eq!((most.mantissa(), most.exponent()), ((1u64 << 53) - 1, 971));
    assert!(!rate(16000.000000000002).is_target());
    assert!(!rate(15999.999999999998).is_target());
}
