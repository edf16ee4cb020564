use heightfield::field::{HeightField, INITIAL_MAX_CODE, INITIAL_MIN_CODE};
use heightfield::BuildError;

/// Sign-folded order code of a scalar sample: unsigned comparison of codes
/// matches numeric comparison of the samples.
fn code(v: f64) -> u64 {
    let b = v.to_bits();
    if b >> 63 == 1 {
        !b
    } else {
        b | 0x8000_0000_0000_0000
    }
}

#[test]
fn initial_codes_are_numeric_extremes() {
    assert_eq!(INITIAL_MAX_CODE, code(f64::MIN));
    assert_eq!(INITIAL_MIN_CODE, code(f64::MAX));
    assert!(INITIAL_MAX_CODE < INITIAL_MIN_CODE);
}

#[test]
fn code_order_matches_numeric_order() {
    assert!(code(-2.0) < code(-1.0));
    assert!(code(-1.0) < code(0.0));
    assert!(code(0.0) < code(0.25));
    assert!(code(0.25) < code(0.5));
    assert!(code(f64::MIN) < code(-1.0e300));
    assert!(code(1.0e300) < code(f64::MAX));
}

#[test]
fn observe_updates_one_branch_only() {
    let mut e = heightfield::field::Extrema::start();
    assert_eq!(e.max_code, INITIAL_MAX_CODE);
    assert_eq!(e.min_code, INITIAL_MIN_CODE);
    // The first sample beats the starting maximum; the minimum is untouched.
    e.observe(code(0.4));
    assert_eq!(e.max_code, code(0.4));
    assert_eq!(e.min_code, INITIAL_MIN_CODE);
    e.observe(code(0.2));
    assert_eq!(e.max_code, code(0.4));
    assert_eq!(e.min_code, code(0.2));
    // A sample between the extrema changes nothing.
    e.observe(code(0.3));
    assert_eq!(e.max_code, code(0.4));
    assert_eq!(e.min_code, code(0.2));
}

#[test]
fn extrema_track_simple_fill() {
    let samples = vec![code(0.5), code(0.3), code(0.8), code(0.4)];
    let f = HeightField::from_samples(2, 2, samples).unwrap();
    assert_eq!(f.max_code(), code(0.8));
    assert_eq!(f.min_code(), code(0.3));
}

#[test]
fn extrema_handle_negative_samples() {
    let samples = vec![code(-1.0), code(0.5), code(-2.0), code(0.25)];
    let f = HeightField::from_samples(2, 2, samples).unwrap();
    assert_eq!(f.max_code(), code(0.5));
    assert_eq!(f.min_code(), code(-2.0));
}

#[test]
fn rising_fill_leaves_min_at_sentinel() {
    // Every sample is a strict running maximum, so the single-branch update
    // never reaches the minimum check: the minimum stays at its start value.
    let samples = vec![code(0.3), code(0.5)];
    let f = HeightField::from_samples(2, 1, samples).unwrap();
    assert_eq!(f.max_code(), code(0.5));
    assert_eq!(f.min_code(), INITIAL_MIN_CODE);
}

#[test]
fn single_sample_field() {
    let samples = vec![code(0.7)];
    let f = HeightField::from_samples(1, 1, samples).unwrap();
    assert_eq!(f.max_code(), code(0.7));
    assert_eq!(f.min_code(), INITIAL_MIN_CODE);
}

#[test]
fn equal_minimum_seen_again_is_recorded() {
    // The first slot holds the smallest sample, but it reappears later and
    // the second occurrence is not a running maximum, so it is recorded.
    let samples = vec![code(0.3), code(0.5), code(0.3), code(0.4)];
    let f = HeightField::from_samples(4, 1, samples).unwrap();
    assert_eq!(f.max_code(), code(0.5));
    assert_eq!(f.min_code(), code(0.3));
}

#[test]
fn rejects_zero_width() {
    assert_eq!(
        HeightField::from_samples(0, 3, vec![]).unwrap_err(),
        BuildError::InvalidDimensions
    );
}

#[test]
fn rejects_zero_height() {
    assert_eq!(
        HeightField::from_samples(3, 0, vec![]).unwrap_err(),
        BuildError::InvalidDimensions
    );
}

#[test]
fn rejects_sample_count_mismatch() {
    let samples = vec![code(0.1), code(0.2), code(0.3)];
    assert_eq!(
        HeightField::from_samples(2, 2, samples).unwrap_err(),
        BuildError::InvalidDimensions
    );
}

#[test]
fn stores_row_major() {
    let samples: Vec<u64> = (1..=6).map(|i| code(i as f64)).collect();
    let f = HeightField::from_samples(3, 2, samples.clone()).unwrap();
    assert_eq!(f.width(), 3);
    assert_eq!(f.height(), 2);
    assert_eq!(f.values(), &samples);
    assert_eq!(f.value_at(0, 0), samples[0]);
    assert_eq!(f.value_at(2, 0), samples[2]);
    assert_eq!(f.value_at(0, 1), samples[3]);
    assert_eq!(f.value_at(2, 1), samples[5]);
}
