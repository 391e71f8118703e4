use sndwrks_hud::float_cast::f32_bits_to_u32;

fn check(x: f32) {
    assert_eq!(f32_bits_to_u32(x.to_bits()), x as u32, "value {:?}", x);
}

#[test]
fn matches_as_cast_on_chosen_values() {
    let values = [
        0.0f32, -0.0, 0.5, 0.999_999_9, 1.0, 1.5, 2.0, 72.0, 72.9, 255.5, 65536.0, 8388607.5,
        8388608.0, 16777216.0, 4294967040.0, 4294967296.0, 1e20, -1.0, -1e20, f32::MIN_POSITIVE,
        1e-40, f32::MAX, f32::MIN, f32::INFINITY, f32::NEG_INFINITY, f32::NAN,
    ];
    for v in values {
        check(v);
    }
}

#[test]
fn matches_as_cast_on_a_sweep_of_bit_patterns() {
    let mut bits: u32 = 0;
    loop {
        check(f32::from_bits(bits));
        match bits.checked_add(65_521) {
            Some(next) => bits = next,
            None => break,
        }
    }
}
