use hooray::{Color, Point3, Scalar, Vec3};

fn s(x: f64) -> Scalar {
    Scalar::from_bits(x.to_bits())
}

fn f(x: Scalar) -> f64 {
    f64::from_bits(x.to_bits())
}

fn v(x: f64, y: f64, z: f64) -> Vec3 {
    Vec3::new(s(x), s(y), s(z))
}

#[test]
fn a_vector_gives_back_its_components() {
    let a = v(1.0, -2.5, 3e10);
    assert_eq!(f(a.x()), 1.0);
    assert_eq!(f(a.y()), -2.5);
    assert_eq!(f(a.z()), 3e10);
    assert_eq!(f(a.index(0)), 1.0);
    assert_eq!(f(a.index(1)), -2.5);
    assert_eq!(f(a.index(2)), 3e10);
}

#[test]
fn the_opposite_vector_has_every_sign_changed() {
    let a = v(1.0, -2.5, 0.0).neg();
    assert_eq!(a.x().to_bits(), (-1.0_f64).to_bits());
    assert_eq!(a.y().to_bits(), 2.5_f64.to_bits());
    assert_eq!(a.z().to_bits(), (-0.0_f64).to_bits());
    let b = v(f64::INFINITY, f64::NAN, -0.0).neg();
    assert_eq!(f(b.x()), f64::NEG_INFINITY);
    assert!(f(b.y()).is_nan());
    assert_eq!(b.z().to_bits(), 0.0_f64.to_bits());
}

#[test]
fn near_zero_asks_every_component_to_be_below_the_threshold() {
    assert!(v(0.0, 0.0, 0.0).near_zero());
    assert!(v(-0.0, 9.9e-9, -9.9e-9).near_zero());
    assert!(v(5e-324, -5e-324, 1e-300).near_zero());
    // the threshold itself is not below the threshold
    assert!(!v(1e-8, 0.0, 0.0).near_zero());
    assert!(!v(0.0, -1e-8, 0.0).near_zero());
    assert!(v(0.0, 0.0, 9.999999999999999e-9).near_zero());
    assert!(!v(0.0, 0.0, 1.0000000000000002e-8).near_zero());
    assert!(!v(1.0, 0.0, 0.0).near_zero());
    assert!(!v(0.0, 0.0, f64::NAN).near_zero());
    assert!(!v(0.0, f64::INFINITY, 0.0).near_zero());
}

#[test]
fn near_zero_agrees_with_the_hardware() {
    let values = [0.0, -0.0, 1e-9, -1e-9, 1e-8, -1e-8, 1.1e-8, 0.5, f64::NAN, 2e-8, 9e-9];
    for &x in values.iter() {
        for &y in values.iter() {
            for &z in values.iter() {
                let expected = x.abs() < 1e-8 && y.abs() < 1e-8 && z.abs() < 1e-8;
                assert_eq!(v(x, y, z).near_zero(), expected, "{} {} {}", x, y, z);
            }
        }
    }
}

#[test]
fn the_default_values_are_zero() {
    assert_eq!(Scalar::default().to_bits(), 0);
    assert_eq!(Vec3::default(), v(0.0, 0.0, 0.0));
    assert_eq!(Point3::default(), Point3::new(s(0.0), s(0.0), s(0.0)));
    assert_eq!(Color::default(), Color::black());
    assert_eq!(Color::default().0.x().to_bits(), 0);
}

#[test]
fn equality_is_that_of_the_numbers() {
    assert_eq!(s(0.0), s(-0.0));
    assert_ne!(s(f64::NAN), s(f64::NAN));
    assert_ne!(s(1.0), s(1.0000000000000002));
    assert_eq!(v(1.0, 0.0, -3.0), v(1.0, -0.0, -3.0));
    assert_ne!(v(1.0, 0.0, -3.0), v(1.0, 0.0, 3.0));
    assert_ne!(v(1.0, f64::NAN, -3.0), v(1.0, f64::NAN, -3.0));
    assert_eq!(Point3::new(s(1.0), s(2.0), s(3.0)), Point3(v(1.0, 2.0, 3.0)));
    assert_ne!(Point3::new(s(1.0), s(2.0), s(3.0)), Point3(v(1.0, 2.0, 4.0)));
    assert_eq!(Color::new(s(0.5), s(0.7), s(1.0)), Color(v(0.5, 0.7, 1.0)));
    assert_ne!(Color::new(s(0.5), s(0.7), s(1.0)), Color::white());
}

#[test]
fn white_and_black() {
    assert_eq!(Color::white(), Color::new(s(1.0), s(1.0), s(1.0)));
    assert_eq!(Color::black(), Color::new(s(0.0), s(0.0), s(0.0)));
}
