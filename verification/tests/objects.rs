use hooray::object::{closer, passes_by, select_root};
use hooray::{Color, ConfigError, HitRecord, Material, Point3, Scalar, Sphere, Vec3};

fn s(x: f64) -> Scalar {
    Scalar::from_bits(x.to_bits())
}

fn f(x: Scalar) -> f64 {
    f64::from_bits(x.to_bits())
}

fn v(x: f64, y: f64, z: f64) -> Vec3 {
    Vec3::new(s(x), s(y), s(z))
}

fn bits(a: Vec3) -> [u64; 3] {
    [a.x().to_bits(), a.y().to_bits(), a.z().to_bits()]
}

fn glass() -> Material {
    Material::dielectric(s(1.5))
}

#[test]
fn a_sphere_needs_a_radius_above_zero() {
    let center = Point3::new(s(0.0), s(1.0), s(-1.0));
    let sphere = Sphere::new(center, s(0.5), glass()).unwrap();
    assert_eq!(sphere.center(), center);
    assert_eq!(f(sphere.radius()), 0.5);
    assert!(matches!(*sphere.material(), Material::Dielectric { refractive_index } if f(refractive_index) == 1.5));
    assert!(Sphere::new(center, s(5e-324), glass()).is_ok());
    assert!(Sphere::new(center, s(f64::INFINITY), glass()).is_ok());

    assert_eq!(Sphere::new(center, s(0.0), glass()).err(), Some(ConfigError::Radius));
    assert_eq!(Sphere::new(center, s(-0.0), glass()).err(), Some(ConfigError::Radius));
    assert_eq!(Sphere::new(center, s(-0.5), glass()).err(), Some(ConfigError::Radius));
    assert_eq!(Sphere::new(center, s(f64::NAN), glass()).err(), Some(ConfigError::Radius));
    assert_eq!(Sphere::new(center, s(f64::NEG_INFINITY), glass()).err(), Some(ConfigError::Radius));
}

#[test]
fn a_ray_passes_by_where_the_discriminant_is_below_zero() {
    assert!(passes_by(s(-1.0)));
    assert!(passes_by(s(-5e-324)));
    assert!(passes_by(s(f64::NEG_INFINITY)));
    assert!(!passes_by(s(0.0)));
    assert!(!passes_by(s(-0.0)));
    assert!(!passes_by(s(5e-324)));
    assert!(!passes_by(s(2.0)));
    assert!(!passes_by(s(f64::NAN)));
}

fn root(near: f64, far: f64, t_min: f64, t_max: f64) -> Option<f64> {
    select_root(s(near), s(far), s(t_min), s(t_max)).map(f)
}

#[test]
fn the_smaller_root_is_taken_where_it_lies_in_the_interval() {
    assert_eq!(root(0.5, 1.5, 0.001, f64::INFINITY), Some(0.5));
    assert_eq!(root(-0.5, 1.5, 0.001, f64::INFINITY), Some(1.5));
    assert_eq!(root(-1.5, -0.5, 0.001, f64::INFINITY), None);
    assert_eq!(root(1.0, 1.0, 0.001, f64::INFINITY), Some(1.0));
    // the ends of the interval do not belong to it
    assert_eq!(root(0.001, 1.5, 0.001, f64::INFINITY), Some(1.5));
    assert_eq!(root(0.5, 1.5, 0.001, 0.5), None);
    assert_eq!(root(0.5, 1.5, 0.5, 1.5), None);
    assert_eq!(root(0.5, f64::INFINITY, 0.5, f64::INFINITY), None);
    // roots that are not numbers are in no interval
    assert_eq!(root(f64::NAN, f64::NAN, 0.001, f64::INFINITY), None);
    assert_eq!(root(f64::NAN, 2.0, 0.001, f64::INFINITY), Some(2.0));
    assert_eq!(root(0.5, 1.5, f64::NAN, f64::INFINITY), None);
}

#[test]
fn the_stored_normal_is_the_outward_one_at_the_front_face() {
    let material = glass();
    let p = Point3::new(s(1.0), s(2.0), s(3.0));
    let outward = v(0.0, 0.6, -0.8);

    let rec = HitRecord::new(s(2.0), p, outward, s(-0.25), &material);
    assert!(rec.is_front);
    assert_eq!(f(rec.t), 2.0);
    assert_eq!(rec.p, p);
    assert_eq!(bits(rec.normal), bits(outward));

    let rec = HitRecord::new(s(2.0), p, outward, s(0.25), &material);
    assert!(!rec.is_front);
    assert_eq!(bits(rec.normal), bits(v(-0.0, -0.6, 0.8)));

    // a ray along the surface counts as hitting the back
    let rec = HitRecord::new(s(2.0), p, outward, s(0.0), &material);
    assert!(!rec.is_front);
    assert_eq!(bits(rec.normal), bits(v(-0.0, -0.6, 0.8)));
    let rec = HitRecord::new(s(2.0), p, outward, s(f64::NAN), &material);
    assert!(!rec.is_front);
}

#[test]
fn a_hit_on_a_sphere_carries_its_material() {
    let material = Material::lambertian(Color::new(s(0.7), s(0.3), s(0.3)));
    let sphere = Sphere::new(Point3::new(s(0.0), s(0.0), s(-1.0)), s(0.5), material).unwrap();
    let p = Point3::new(s(0.0), s(0.0), s(-0.5));
    let rec = sphere.hit_at(s(0.5), p, v(0.0, 0.0, 1.0), s(-1.0));
    assert!(rec.is_front);
    assert_eq!(f(rec.t), 0.5);
    assert_eq!(rec.p, p);
    assert_eq!(bits(rec.normal), bits(v(0.0, 0.0, 1.0)));
    assert!(matches!(*rec.material, Material::Lambertian { albedo } if f(albedo.0.x()) == 0.7));
}

#[test]
fn of_two_hits_the_closer_is_kept_and_of_equal_ones_the_first() {
    let first = glass();
    let second = Material::dielectric(s(2.5));
    let p = Point3::new(s(0.0), s(0.0), s(0.0));
    let n = v(0.0, 0.0, 1.0);
    let a = HitRecord::new(s(2.0), p, n, s(-1.0), &first);
    let b = HitRecord::new(s(1.0), p, n, s(-1.0), &second);
    let c = HitRecord::new(s(2.0), p, n, s(-1.0), &second);
    let index = |h: Option<HitRecord>| match h {
        Some(h) => match *h.material {
            Material::Dielectric { refractive_index } => Some((f(h.t), f(refractive_index))),
            _ => None,
        },
        None => None,
    };
    assert_eq!(index(closer(None, None)), None);
    assert_eq!(index(closer(Some(a), None)), Some((2.0, 1.5)));
    assert_eq!(index(closer(None, Some(b))), Some((1.0, 2.5)));
    assert_eq!(index(closer(Some(a), Some(b))), Some((1.0, 2.5)));
    assert_eq!(index(closer(Some(b), Some(a))), Some((1.0, 2.5)));
    assert_eq!(index(closer(Some(a), Some(c))), Some((2.0, 1.5)));
    assert_eq!(index(closer(Some(c), Some(a))), Some((2.0, 2.5)));
}
