use raytracer::math::{Aabb, Scalar, Slab, Vec3};

fn s(x: f64) -> Scalar {
    Scalar::from_bits(x.to_bits())
}

fn f(x: Scalar) -> f64 {
    f64::from_bits(x.to_bits())
}

fn v(x: f64, y: f64, z: f64) -> Vec3 {
    Vec3::new(s(x), s(y), s(z))
}

fn slabs(min: [f64; 3], max: [f64; 3], origin: [f64; 3], direction: [f64; 3]) -> [Slab; 3] {
    let mut out = [Slab { at_min: s(0.0), at_max: s(0.0) }; 3];
    for a in 0..3 {
        out[a] = Slab {
            at_min: s((min[a] - origin[a]) / direction[a]),
            at_max: s((max[a] - origin[a]) / direction[a]),
        };
    }
    out
}

// Clips the interval against the six planes one by one, with no early exit.
fn brute_force(
    min: [f64; 3],
    max: [f64; 3],
    origin: [f64; 3],
    direction: [f64; 3],
    t_min: f64,
    t_max: f64,
) -> bool {
    let mut lo = t_min;
    let mut hi = t_max;
    for a in 0..3 {
        let q0 = (min[a] - origin[a]) / direction[a];
        let q1 = (max[a] - origin[a]) / direction[a];
        lo = q0.min(q1).max(lo);
        hi = q0.max(q1).min(hi);
    }
    !(hi <= lo)
}

struct Lcg(u64);

impl Lcg {
    fn next(&mut self) -> f64 {
        self.0 = self.0.wrapping_mul(6364136223846793005).wrapping_add(1442695040888963407);
        ((self.0 >> 11) as f64) / ((1u64 << 53) as f64)
    }

    fn range(&mut self, lo: f64, hi: f64) -> f64 {
        lo + (hi - lo) * self.next()
    }
}

#[test]
fn hit_agrees_with_brute_force_on_random_rays() {
    let mut rng = Lcg(7);
    let mut hits = 0;
    for _ in 0..5000 {
        let a = [rng.range(-5.0, 5.0), rng.range(-5.0, 5.0), rng.range(-5.0, 5.0)];
        let b = [rng.range(-5.0, 5.0), rng.range(-5.0, 5.0), rng.range(-5.0, 5.0)];
        let min = [a[0].min(b[0]), a[1].min(b[1]), a[2].min(b[2])];
        let max = [a[0].max(b[0]), a[1].max(b[1]), a[2].max(b[2])];
        let origin = [rng.range(-10.0, 10.0), rng.range(-10.0, 10.0), rng.range(-10.0, 10.0)];
        let direction = [rng.range(-1.0, 1.0), rng.range(-1.0, 1.0), rng.range(-1.0, 1.0)];
        let got = Aabb::hit(&slabs(min, max, origin, direction), s(0.001), s(f64::INFINITY));
        let want = brute_force(min, max, origin, direction, 0.001, f64::INFINITY);
        assert_eq!(got, want);
        if got {
            hits += 1;
        }
    }
    assert!(hits > 0);
}

#[test]
fn hit_handles_rays_parallel_to_an_axis() {
    let min = [-1.0, -1.0, -1.0];
    let max = [1.0, 1.0, 1.0];
    // Along x, inside the y and z slabs: the divisions give infinities of both signs.
    let inside = slabs(min, max, [-5.0, 0.0, 0.0], [1.0, 0.0, 0.0]);
    assert!(Aabb::hit(&inside, s(0.0), s(f64::INFINITY)));
    // Along x, outside the y slab.
    let outside = slabs(min, max, [-5.0, 2.0, 0.0], [1.0, 0.0, 0.0]);
    assert!(!Aabb::hit(&outside, s(0.0), s(f64::INFINITY)));
    // Along x with a direction of negative zero.
    let negative_zero = slabs(min, max, [-5.0, 0.5, 0.0], [1.0, -0.0, 0.0]);
    assert!(Aabb::hit(&negative_zero, s(0.0), s(f64::INFINITY)));
    // Running inside a bounding plane: 0/0 is NaN and gives way to the other
    // plane's parameter, which is infinite.
    let grazing = slabs(min, max, [-5.0, 1.0, 0.0], [1.0, 0.0, 0.0]);
    assert!(grazing[1].at_max.is_nan());
    assert_eq!(
        Aabb::hit(&grazing, s(0.0), s(f64::INFINITY)),
        brute_force(min, max, [-5.0, 1.0, 0.0], [1.0, 0.0, 0.0], 0.0, f64::INFINITY)
    );
    assert!(!Aabb::hit(&grazing, s(0.0), s(f64::INFINITY)));
    // The box lies behind the interval.
    assert!(!Aabb::hit(&inside, s(0.0), s(3.0)));
    assert!(Aabb::hit(&inside, s(0.0), s(4.5)));
}

#[test]
fn hit_gives_up_on_an_empty_interval() {
    let crossing = slabs([0.0; 3], [1.0; 3], [-1.0, 0.5, 0.5], [1.0, 0.0, 0.0]);
    assert!(Aabb::hit(&crossing, s(0.0), s(10.0)));
    assert!(!Aabb::hit(&crossing, s(5.0), s(5.0)));
    assert!(!Aabb::hit(&crossing, s(2.0), s(10.0)));
}

#[test]
fn surrounding_box_is_the_union() {
    let a = Aabb::new(v(0.0, -1.0, 2.0), v(1.0, 1.0, 3.0));
    let b = Aabb::new(v(-2.0, 0.0, 2.5), v(0.5, 4.0, 2.75));
    let u = Aabb::surrounding_box(&a, &b);
    assert_eq!((f(u.min().x()), f(u.min().y()), f(u.min().z())), (-2.0, -1.0, 2.0));
    assert_eq!((f(u.max().x()), f(u.max().y()), f(u.max().z())), (1.0, 4.0, 3.0));
}

#[test]
fn corners_are_listed_with_x_slowest() {
    let b = Aabb::new(v(0.0, 10.0, 20.0), v(1.0, 11.0, 21.0));
    let c = b.corners();
    assert_eq!(c.len(), 8);
    let got: Vec<(f64, f64, f64)> = c.iter().map(|p| (f(p.x()), f(p.y()), f(p.z()))).collect();
    assert_eq!(
        got,
        vec![
            (0.0, 10.0, 20.0),
            (0.0, 10.0, 21.0),
            (0.0, 11.0, 20.0),
            (0.0, 11.0, 21.0),
            (1.0, 10.0, 20.0),
            (1.0, 10.0, 21.0),
            (1.0, 11.0, 20.0),
            (1.0, 11.0, 21.0),
        ]
    );
    let p = b.corner(true, false, true);
    assert_eq!((f(p.x()), f(p.y()), f(p.z())), (1.0, 10.0, 21.0));
}

#[test]
fn around_is_the_tight_box() {
    let points = vec![v(1.0, 5.0, -1.0), v(-3.0, 2.0, 0.0), v(0.0, 7.0, -4.0)];
    let b = Aabb::around(&points);
    assert_eq!((f(b.min().x()), f(b.min().y()), f(b.min().z())), (-3.0, 2.0, -4.0));
    assert_eq!((f(b.max().x()), f(b.max().y()), f(b.max().z())), (1.0, 7.0, 0.0));
    let empty = Aabb::around(&Vec::new());
    assert_eq!(f(empty.min().x()), f64::INFINITY);
    assert_eq!(f(empty.max().x()), f64::NEG_INFINITY);
}

#[test]
fn vectors_give_their_components() {
    let a = v(1.0, -2.0, 0.0);
    assert_eq!((f(a.x()), f(a.y()), f(a.z())), (1.0, -2.0, 0.0));
    assert_eq!((f(a.get(0)), f(a.get(1)), f(a.get(2))), (1.0, -2.0, 0.0));
    let n = a.neg();
    assert_eq!((f(n.x()), f(n.y())), (-1.0, 2.0));
    assert!(f(n.z()) == 0.0 && f(n.z()).is_sign_negative());
    let zero = Vec3::default();
    assert_eq!((zero.x().to_bits(), zero.y().to_bits(), zero.z().to_bits()), (0, 0, 0));
    let d = Aabb::default();
    assert_eq!(d.min().x().to_bits(), 0);
    assert_eq!(d.max().z().to_bits(), 0);
}

#[test]
fn vectors_turn_into_the_hemisphere() {
    let a = v(1.0, -2.0, 3.0);
    let same = a.in_hemisphere(s(0.5));
    assert_eq!((f(same.x()), f(same.y()), f(same.z())), (1.0, -2.0, 3.0));
    let turned = a.in_hemisphere(s(-0.5));
    assert_eq!((f(turned.x()), f(turned.y()), f(turned.z())), (-1.0, 2.0, -3.0));
    let flat = a.in_hemisphere(s(0.0));
    assert_eq!((f(flat.x()), f(flat.y()), f(flat.z())), (-1.0, 2.0, -3.0));
}
