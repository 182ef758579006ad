use stl_thumb::scalar::{is_finite, key_le, key_max, key_min};

fn samples() -> Vec<f32> {
    vec![
        0.0,
        -0.0,
        1.0,
        -1.0,
        1.5,
        -1.5,
        0.0625,
        -0.0625,
        123456.78,
        -123456.78,
        f32::MIN_POSITIVE,
        -f32::MIN_POSITIVE,
        3.0e38,
        -3.0e38,
        1.0e-41, // below the smallest normal magnitude
        -1.0e-41,
    ]
}

#[test]
fn key_order_agrees_with_value_order() {
    for &a in samples().iter() {
        for &b in samples().iter() {
            assert_eq!(
                key_le(a.to_bits(), b.to_bits()),
                a <= b,
                "ordering {} against {}",
                a,
                b
            );
        }
    }
}

#[test]
fn key_min_max_pick_extremes() {
    for &a in samples().iter() {
        for &b in samples().iter() {
            let mn = f32::from_bits(key_min(a.to_bits(), b.to_bits()));
            let mx = f32::from_bits(key_max(a.to_bits(), b.to_bits()));
            assert_eq!(mn, a.min(b), "min of {} and {}", a, b);
            assert_eq!(mx, a.max(b), "max of {} and {}", a, b);
        }
    }
}

#[test]
fn finiteness_classification() {
    for &a in samples().iter() {
        assert!(is_finite(a.to_bits()), "{} is finite", a);
    }
    assert!(!is_finite(f32::INFINITY.to_bits()));
    assert!(!is_finite(f32::NEG_INFINITY.to_bits()));
    assert!(!is_finite(f32::NAN.to_bits()));
}
