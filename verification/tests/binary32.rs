use srs_scheduler::binary32::{
    are_all_finite, is_finite_bits, is_in_open_unit_interval, is_not_below_zero, is_positive,
    INFINITY, NEGATIVE_ZERO, NINE_TENTHS, ONE,
};

fn sample_bits() -> Vec<u32> {
    let mut bits: Vec<u32> = Vec::new();
    let mut current: u32 = 0;
    loop {
        bits.push(current);
        match current.checked_add(65_521) {
            Some(next) => current = next,
            None => break,
        }
    }
    for edge in [
        0u32, 1, 0x007F_FFFF, 0x0080_0000, 0x3F7F_FFFF, 0x3F80_0000, 0x3F80_0001, 0x7F7F_FFFF,
        0x7F80_0000, 0x7F80_0001, 0x7FC0_0000, 0x7FFF_FFFF, 0x8000_0000, 0x8000_0001,
        0xBF80_0000, 0xFF7F_FFFF, 0xFF80_0000, 0xFFC0_0000, 0xFFFF_FFFF,
    ] {
        bits.push(edge);
    }
    bits
}

#[test]
fn constants_encode_their_numbers() {
    assert_eq!(ONE, 1.0f32.to_bits());
    assert_eq!(NINE_TENTHS, 0.9f32.to_bits());
    assert_eq!(f32::from_bits(NINE_TENTHS), 0.9);
    assert_eq!(INFINITY, f32::INFINITY.to_bits());
    assert_eq!(NEGATIVE_ZERO, (-0.0f32).to_bits());
}

#[test]
fn positive_values_are_recognised() {
    for bits in sample_bits() {
        assert_eq!(is_positive(bits), f32::from_bits(bits) > 0.0, "{:#010X}", bits);
    }
}

#[test]
fn values_not_below_zero_are_recognised() {
    for bits in sample_bits() {
        assert_eq!(is_not_below_zero(bits), f32::from_bits(bits) >= 0.0, "{:#010X}", bits);
    }
}

#[test]
fn sequences_of_finite_values_are_recognised() {
    assert!(are_all_finite(&Vec::new()));
    assert!(are_all_finite(&vec![0, ONE, NINE_TENTHS, NEGATIVE_ZERO, f32::MIN.to_bits()]));
    assert!(!are_all_finite(&vec![ONE, INFINITY]));
    assert!(!are_all_finite(&vec![f32::NAN.to_bits(), ONE]));
    assert!(!are_all_finite(&vec![ONE, f32::NEG_INFINITY.to_bits(), ONE]));
}

#[test]
fn finite_encodings_are_recognised() {
    for bits in sample_bits() {
        assert_eq!(is_finite_bits(bits), f32::from_bits(bits).is_finite(), "{:#010X}", bits);
    }
}

#[test]
fn open_unit_interval_is_recognised() {
    for bits in sample_bits() {
        let value = f32::from_bits(bits);
        assert_eq!(is_in_open_unit_interval(bits), 0.0 < value && value < 1.0, "{:#010X}", bits);
    }
}

#[test]
fn interval_bounds_are_left_out() {
    assert!(!is_in_open_unit_interval(0.0f32.to_bits()));
    assert!(!is_in_open_unit_interval((-0.0f32).to_bits()));
    assert!(!is_in_open_unit_interval(1.0f32.to_bits()));
    assert!(!is_in_open_unit_interval(f32::NAN.to_bits()));
    assert!(!is_in_open_unit_interval(f32::INFINITY.to_bits()));
    assert!(!is_in_open_unit_interval((-0.5f32).to_bits()));
    assert!(is_in_open_unit_interval(f32::MIN_POSITIVE.to_bits()));
    assert!(is_in_open_unit_interval(1));
    assert!(is_in_open_unit_interval(0.5f32.to_bits()));
    assert!(is_in_open_unit_interval((1.0f32 - f32::EPSILON / 2.0).to_bits()));
}
