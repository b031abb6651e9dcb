use flv_remux::io::float::{f64_thousandfold_to_u32, f64_to_u32, f64_to_u8};

fn scaled_by_cast(value: f64) -> u32 {
    (value * 1000.0) as u32
}

#[test]
fn conversion_truncates_toward_zero() {
    assert_eq!(f64_to_u32(0.0f64.to_bits()), 0);
    assert_eq!(f64_to_u32(0.999f64.to_bits()), 0);
    assert_eq!(f64_to_u32(1.0f64.to_bits()), 1);
    assert_eq!(f64_to_u32(128.75f64.to_bits()), 128);
    assert_eq!(f64_to_u32(4294967295.0f64.to_bits()), 4294967295);
    assert_eq!(f64_to_u8(7.0f64.to_bits()), 7);
    assert_eq!(f64_to_u8(10.9f64.to_bits()), 10);
}

#[test]
fn conversion_saturates_and_zeroes() {
    assert_eq!(f64_to_u32(4294967296.0f64.to_bits()), u32::MAX);
    assert_eq!(f64_thousandfold_to_u32(1e300f64.to_bits()), u32::MAX);
    assert_eq!(f64_to_u32(f64::INFINITY.to_bits()), u32::MAX);
    assert_eq!(f64_to_u32(f64::NEG_INFINITY.to_bits()), 0);
    assert_eq!(f64_thousandfold_to_u32(f64::NAN.to_bits()), 0);
    assert_eq!(f64_thousandfold_to_u32((-3.5f64).to_bits()), 0);
    assert_eq!(f64_thousandfold_to_u32((-0.0f64).to_bits()), 0);
    assert_eq!(f64_thousandfold_to_u32(f64::MIN_POSITIVE.to_bits()), 0);
    assert_eq!(f64_thousandfold_to_u32(5e-324f64.to_bits()), 0);
    assert_eq!(f64_to_u8(256.0f64.to_bits()), 255);
    assert_eq!(f64_to_u8(300.5f64.to_bits()), 255);
    assert_eq!(f64_to_u8((-1.0f64).to_bits()), 0);
}

#[test]
fn scaling_rounds_like_a_double_product() {
    assert_eq!(f64_thousandfold_to_u32(0.29f64.to_bits()), 290);
    assert_eq!(f64_thousandfold_to_u32(1.5f64.to_bits()), 1500);
    assert_eq!(f64_thousandfold_to_u32(29.97f64.to_bits()), 29970);
    assert_eq!(f64_thousandfold_to_u32(23.976f64.to_bits()), 23976);
    assert_eq!(f64_thousandfold_to_u32(0.001f64.to_bits()), 1);
    assert_eq!(f64_thousandfold_to_u32(4294967.295f64.to_bits()), scaled_by_cast(4294967.295));
    assert_eq!(f64_thousandfold_to_u32(4294967.296f64.to_bits()), u32::MAX);
}

#[test]
fn scaling_agrees_with_the_cast_on_a_sweep() {
    let mut value: f64 = 0.0;
    let mut step: f64 = 0.000_123_4;
    let mut n: u32 = 0;
    while n < 200_000 {
        assert_eq!(f64_thousandfold_to_u32(value.to_bits()), scaled_by_cast(value), "value {}", value);
        assert_eq!(f64_to_u32(value.to_bits()), value as u32, "value {}", value);
        assert_eq!(f64_to_u8(value.to_bits()), value as u8, "value {}", value);
        value += step;
        step *= 1.000_05;
        n += 1;
    }
}

#[test]
fn scaling_agrees_with_the_cast_on_hundredths() {
    let mut n: u32 = 0;
    while n < 100_000 {
        let value = n as f64 / 100.0;
        assert_eq!(f64_thousandfold_to_u32(value.to_bits()), scaled_by_cast(value), "value {}", value);
        n += 1;
    }
}
