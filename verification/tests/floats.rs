use codedesign::ds::tokens::TokenValue;
use codedesign::json::{channel_of, Decimal};

/// The decimal that `{}` prints of a float.
fn decimal(f: f64) -> Decimal {
    let text = format!("{}", f.abs());
    let (whole, frac) = match text.split_once('.') {
        Some((w, f)) => (w.to_string(), f.to_string()),
        None => (text.clone(), String::new()),
    };
    let mut all = format!("{whole}{frac}").trim_start_matches('0').to_string();
    let mut exponent: i32 = -(frac.len() as i32);
    while all.len() > 19 {
        all.pop();
        exponent += 1;
    }
    let digits: u64 = if all.is_empty() { 0 } else { all.parse().unwrap() };
    Decimal { negative: f < 0.0 && digits != 0, digits, exponent, integer: false }
}

fn float_channel(x: f64) -> u8 {
    let v = (x.clamp(0.0, 1.0) * 255.0).round() as i32;
    v.clamp(0, 255) as u8
}

fn float_label(n: f64) -> String {
    if (n.fract()).abs() < f64::EPSILON {
        format!("{}", n as i64)
    } else {
        format!("{n}")
    }
}

#[test]
fn channel_follows_float_rounding_at_half_steps() {
    assert_eq!(channel_of(&decimal(0.00196078431372549)), 1);
    for k in 0..=255u32 {
        for x in [k as f64 / 255.0, (k as f64 + 0.5) / 255.0, (k as f64 - 0.5) / 255.0] {
            assert_eq!(channel_of(&decimal(x)), float_channel(x), "x = {x}");
        }
    }
}

#[test]
fn channel_follows_float_rounding_on_many_values() {
    let mut state: u64 = 0x2545_f491_4f6c_dd1d;
    for _ in 0..20000 {
        state ^= state << 13;
        state ^= state >> 7;
        state ^= state << 17;
        let x = (state >> 11) as f64 / (1u64 << 53) as f64;
        let y = x * x * x * 1.2 - 0.1;
        for v in [x, y] {
            assert_eq!(channel_of(&decimal(v)), float_channel(v), "x = {v}");
        }
    }
    for v in [0.0, -0.0, 1.0, 1.5, 2.0, -0.3, 1e-9, 0.0009765625, 0.001, 0.99999, 0.998039215686] {
        assert_eq!(channel_of(&decimal(v)), float_channel(v), "x = {v}");
    }
}

#[test]
fn number_label_follows_float_fraction_test() {
    let values = [
        1.0000000000000002,
        f64::EPSILON,
        f64::EPSILON / 2.0,
        1e-16,
        3e-16,
        2.220446049250313e-16,
        22.5,
        3.0,
        -2.5,
        -4.0,
        0.0,
        1e15 + 0.5,
        4503599627370496.5,
        9007199254740993.0,
        123456789.0,
        0.1 + 0.2,
    ];
    for v in values {
        assert_eq!(TokenValue::Number(decimal(v)).display(), float_label(v), "n = {v}");
    }
    assert_eq!(TokenValue::Number(decimal(1.0000000000000002)).display(), "1.0000000000000002");
}
