use pc_fourier::angles::{cosine_of, sine_of, ANGLE_UNIT, ROOT_THREE};

#[test]
fn sines_of_the_quarter_turns_are_exact() {
    assert_eq!(ANGLE_UNIT, 1 << 30);
    assert_eq!((sine_of(0), cosine_of(0)), (0, ANGLE_UNIT));
    assert_eq!((sine_of(90), cosine_of(90)), (ANGLE_UNIT, 0));
    assert_eq!((sine_of(180), cosine_of(180)), (0, -ANGLE_UNIT));
    assert_eq!((sine_of(270), cosine_of(270)), (-ANGLE_UNIT, 0));
    assert_eq!((sine_of(360), cosine_of(360)), (0, ANGLE_UNIT));
    assert_eq!((sine_of(-90), cosine_of(-90)), (-ANGLE_UNIT, 0));
    assert_eq!(sine_of(30), ANGLE_UNIT / 2);
    assert_eq!(cosine_of(60), ANGLE_UNIT / 2);
    assert_eq!(sine_of(-150), -ANGLE_UNIT / 2);
}

#[test]
fn sines_follow_the_floating_point_ones_at_every_degree() {
    for degrees in -720..=720 {
        let angle = (degrees as f64).to_radians();
        let s = sine_of(degrees) as f64 / ANGLE_UNIT as f64;
        let c = cosine_of(degrees) as f64 / ANGLE_UNIT as f64;
        assert!((s - angle.sin()).abs() < 1e-9, "sine of {}", degrees);
        assert!((c - angle.cos()).abs() < 1e-9, "cosine of {}", degrees);
    }
    for degrees in [i32::MIN, i32::MIN + 1, -2_000_000_001, 2_000_000_001, i32::MAX - 1, i32::MAX] {
        let angle = (degrees as f64 % 360.0).to_radians();
        assert!((sine_of(degrees) as f64 / ANGLE_UNIT as f64 - angle.sin()).abs() < 1e-9);
        assert!((cosine_of(degrees) as f64 / ANGLE_UNIT as f64 - angle.cos()).abs() < 1e-9);
    }
}

#[test]
fn root_three_is_rounded_to_the_nearest_count() {
    assert_eq!(ROOT_THREE, (3f64.sqrt() * ANGLE_UNIT as f64).round() as i64);
    let root = ROOT_THREE as i128;
    let unit = ANGLE_UNIT as i128;
    assert!((2 * root - 1) * (2 * root - 1) < 12 * unit * unit);
    assert!(12 * unit * unit < (2 * root + 1) * (2 * root + 1));
}
