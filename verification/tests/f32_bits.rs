use sndwrks_hud::event::{HudEvent, Number};
use sndwrks_hud::f32_bits::{f32_bits_eq, number_to_f32_bits};

fn check_double(x: f64) {
    let got = f32::from_bits(number_to_f32_bits(Number::Double(x.to_bits())));
    let want = x as f32;
    if want.is_nan() {
        assert!(got.is_nan(), "{:e}", x);
    } else {
        assert_eq!(got.to_bits(), want.to_bits(), "{:e}", x);
    }
}

fn check_int(i: i32) {
    assert_eq!(number_to_f32_bits(Number::Int(i)), (i as f32).to_bits(), "{}", i);
}

#[test]
fn int_as_f32_matches_the_cast() {
    let values = [
        0, 1, -1, 3, 255, 16777215, 16777216, 16777217, 16777218, 16777219, -16777217,
        33554431, 33554433, 33554435, 2147483647, -2147483648, -2147483647, 1 << 30, 123456789,
    ];
    for v in values {
        check_int(v);
    }
    let mut i: i64 = i32::MIN as i64;
    while i <= i32::MAX as i64 {
        check_int(i as i32);
        i += 9_973;
    }
}

#[test]
fn double_as_f32_matches_the_cast() {
    let two = 2f64;
    let values = [
        0.0, -0.0, 1.0, -1.0, 0.1, 2.5, 1e-300, -1e-300, 1e300, -1e300, f64::MAX, f64::MIN,
        f64::MIN_POSITIVE, 5e-324, f64::INFINITY, f64::NEG_INFINITY, f64::NAN,
        1.0 + two.powi(-24), 1.0 + 3.0 * two.powi(-24), 1.0 + two.powi(-24) + two.powi(-40),
        f32::MAX as f64, f32::MAX as f64 + two.powi(103), f32::MAX as f64 + two.powi(103) - two.powi(60),
        two.powi(-149), two.powi(-150), 1.5 * two.powi(-150), two.powi(-151), 3.0 * two.powi(-150),
        f32::MIN_POSITIVE as f64, f32::MIN_POSITIVE as f64 * (1.0 - two.powi(-30)),
        two.powi(128), -two.powi(127) * 1.9999999,
    ];
    for v in values {
        check_double(v);
    }
    let mut bits: u64 = 0;
    loop {
        check_double(f64::from_bits(bits));
        match bits.checked_add(0x0000_3f1f_0ab7_a5c3) {
            Some(next) => bits = next,
            None => break,
        }
    }
}

#[test]
fn float_is_kept() {
    for x in [0.0f32, -2.5, f32::INFINITY] {
        assert_eq!(number_to_f32_bits(Number::Float(x.to_bits())), x.to_bits());
    }
}

#[test]
fn f32_equality_matches_float_eq() {
    let values = [0.0f32, -0.0, 1.0, -1.0, 1.5, f32::NAN, -f32::NAN, f32::INFINITY, f32::NEG_INFINITY, f32::MIN_POSITIVE, 1e-45];
    for a in values {
        for b in values {
            assert_eq!(f32_bits_eq(a.to_bits(), b.to_bits()), a == b, "{:?} {:?}", a, b);
        }
    }
}

#[test]
fn numbers_compare_as_f32() {
    assert_eq!(Number::Int(3), Number::Float(3.0f32.to_bits()));
    assert_eq!(Number::Double(3.0f64.to_bits()), Number::Int(3));
    assert_eq!(Number::Int(16777217), Number::Float(16777216.0f32.to_bits()));
    assert_eq!(Number::Float(0.0f32.to_bits()), Number::Float((-0.0f32).to_bits()));
    assert_ne!(Number::Float(f32::NAN.to_bits()), Number::Float(f32::NAN.to_bits()));
    assert_ne!(Number::Int(3), Number::Int(4));
}

#[test]
fn flash_events_compare_durations_as_f32() {
    let a = HudEvent::Flash { message: "GO".into(), duration_s: Number::Int(3), color: None };
    let b = HudEvent::Flash { message: "GO".into(), duration_s: Number::Float(3.0f32.to_bits()), color: None };
    assert_eq!(a, b);
    let n = HudEvent::Flash { message: "GO".into(), duration_s: Number::Float(f32::NAN.to_bits()), color: None };
    assert_ne!(n, n.clone());
}
