use pso_rastrigin::fitness::{cos_fixed, rastrigin};

#[test]
fn rastrigin_is_zero_at_origin_one_dim() {
    assert_eq!(rastrigin(&vec![0]), 0);
}

#[test]
fn rastrigin_is_zero_at_origin_ten_dims() {
    assert_eq!(rastrigin(&vec![0; 10]), 0);
}

#[test]
fn rastrigin_is_pure() {
    let x = vec![123_456, -654_321, 999_999];
    let first = rastrigin(&x);
    let second = rastrigin(&x);
    assert_eq!(first, second);
}

#[test]
fn rastrigin_exact_at_one() {
    // x = 1.0: 10 + 1 - 10*cos(2*pi) = 1, exactly representable.
    assert_eq!(rastrigin(&vec![1_000_000]), 1_000_000);
}

#[test]
fn rastrigin_exact_at_minus_one() {
    assert_eq!(rastrigin(&vec![-1_000_000]), 1_000_000);
}

#[test]
fn rastrigin_exact_at_half() {
    // x = 0.5: 10 + 0.25 - 10*cos(pi) = 20.25, exactly representable.
    assert_eq!(rastrigin(&vec![500_000]), 20_250_000);
}

#[test]
fn rastrigin_exact_two_dims() {
    assert_eq!(rastrigin(&vec![500_000, -500_000]), 40_500_000);
}

#[test]
fn rastrigin_near_true_value_at_quarter() {
    // x = 0.25: 10 + 0.0625 - 10*cos(pi/2) = 10.0625; the fixed-point
    // evaluation may be off by the Taylor truncation and flooring only.
    let f = rastrigin(&vec![250_000]);
    assert!((f - 10_062_500).abs() < 2_000, "got {}", f);
}

#[test]
fn cosine_exact_points() {
    assert_eq!(cos_fixed(0), 1_000_000);
    assert_eq!(cos_fixed(500_000), -1_000_000);
    assert_eq!(cos_fixed(-500_000), -1_000_000);
    assert_eq!(cos_fixed(1_000_000), 1_000_000);
    assert_eq!(cos_fixed(-1_000_000), 1_000_000);
    assert_eq!(cos_fixed(3_000_000), 1_000_000);
}

#[test]
fn cosine_near_zero_at_quarter_turn() {
    let c = cos_fixed(250_000);
    assert!(c.abs() < 1_500, "got {}", c);
    let c2 = cos_fixed(750_000);
    assert!(c2.abs() < 1_500, "got {}", c2);
}

#[test]
fn cosine_periodic() {
    for k in -3i64..4 {
        assert_eq!(cos_fixed(123_456 + k * 1_000_000), cos_fixed(123_456));
    }
}
