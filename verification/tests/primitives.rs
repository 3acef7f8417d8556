use raytracer::hittable::HitRecord;
use raytracer::math::{Aabb, Scalar, Vec3};
use raytracer::primitives::{
    AaBox, ConstantMedium, Flight, MovingSphere, PlaneCrossing, Roots, Side, Sphere,
    SurfacePoint, XyPlane, XzPlane, YzPlane,
};
use raytracer::primitives::sphere::{first_crossing, select_root};

fn s(x: f64) -> Scalar {
    Scalar::from_bits(x.to_bits())
}

fn f(x: Scalar) -> f64 {
    f64::from_bits(x.to_bits())
}

fn v(x: f64, y: f64, z: f64) -> Vec3 {
    Vec3::new(s(x), s(y), s(z))
}

fn triple(p: Vec3) -> (f64, f64, f64) {
    (f(p.x()), f(p.y()), f(p.z()))
}

fn crossing(t: f64, a: f64, b: f64, facing: f64) -> PlaneCrossing {
    PlaneCrossing {
        t: s(t),
        u: s(a / 10.0),
        v: s(b / 10.0),
        point: v(a, b, t),
        facing: s(facing),
    }
}

#[test]
fn rectangle_is_hit_within_its_extent() {
    let plane = XyPlane::new(s(0.0), s(10.0), s(0.0), s(10.0), s(-3.0), 4);
    let rec = plane.hit(&crossing(2.0, 5.0, 2.5, -1.0), s(0.001), s(f64::INFINITY)).unwrap();
    assert_eq!(f(rec.t), 2.0);
    assert_eq!((f(rec.u), f(rec.v)), (0.5, 0.25));
    assert_eq!(triple(rec.point), (5.0, 2.5, 2.0));
    assert_eq!(triple(rec.normal), (0.0, 0.0, 1.0));
    assert!(rec.front_face);
    assert_eq!(rec.material, Some(4));
    // Seen from behind, the normal is turned.
    let back = plane.hit(&crossing(2.0, 5.0, 2.5, 1.0), s(0.001), s(f64::INFINITY)).unwrap();
    assert!(!back.front_face);
    assert_eq!(triple(back.normal), (0.0, 0.0, -1.0));
    // The edges belong to the rectangle.
    assert!(plane.hit(&crossing(2.0, 0.0, 10.0, -1.0), s(0.001), s(f64::INFINITY)).is_some());
}

#[test]
fn rectangle_is_missed_outside_extent_or_interval() {
    let plane = XyPlane::new(s(0.0), s(10.0), s(0.0), s(10.0), s(-3.0), 4);
    let far = s(f64::INFINITY);
    assert!(plane.hit(&crossing(2.0, -0.1, 5.0, -1.0), s(0.001), far).is_none());
    assert!(plane.hit(&crossing(2.0, 10.1, 5.0, -1.0), s(0.001), far).is_none());
    assert!(plane.hit(&crossing(2.0, 5.0, -0.1, -1.0), s(0.001), far).is_none());
    assert!(plane.hit(&crossing(2.0, 5.0, 10.1, -1.0), s(0.001), far).is_none());
    assert!(plane.hit(&crossing(0.0005, 5.0, 5.0, -1.0), s(0.001), far).is_none());
    assert!(plane.hit(&crossing(-2.0, 5.0, 5.0, -1.0), s(0.001), far).is_none());
    assert!(plane.hit(&crossing(2.0, 5.0, 5.0, -1.0), s(0.001), s(1.5)).is_none());
    assert!(plane.hit(&crossing(2.0, 5.0, 5.0, -1.0), s(0.001), s(2.0)).is_some());
}

#[test]
fn each_orientation_has_its_normal_and_box() {
    let far = s(f64::INFINITY);
    let xz = XzPlane::new(s(0.0), s(10.0), s(0.0), s(10.0), s(7.0), 1);
    let rec = xz.hit(&crossing(1.0, 1.0, 1.0, -1.0), s(0.0), far).unwrap();
    assert_eq!(triple(rec.normal), (0.0, 1.0, 0.0));
    let yz = YzPlane::new(s(0.0), s(10.0), s(0.0), s(10.0), s(7.0), 1);
    let rec = yz.hit(&crossing(1.0, 1.0, 1.0, -1.0), s(0.0), far).unwrap();
    assert_eq!(triple(rec.normal), (1.0, 0.0, 0.0));

    let xy = XyPlane::new(s(1.0), s(2.0), s(3.0), s(4.0), s(7.0), 1);
    let b = xy.bounding_box(s(6.9999), s(7.0001)).unwrap();
    assert_eq!(triple(b.min()), (1.0, 3.0, 6.9999));
    assert_eq!(triple(b.max()), (2.0, 4.0, 7.0001));
    let xz = XzPlane::new(s(1.0), s(2.0), s(3.0), s(4.0), s(7.0), 1);
    let b = xz.bounding_box(s(6.9999), s(7.0001)).unwrap();
    assert_eq!(triple(b.min()), (1.0, 6.9999, 3.0));
    assert_eq!(triple(b.max()), (2.0, 7.0001, 4.0));
    let yz = YzPlane::new(s(1.0), s(2.0), s(3.0), s(4.0), s(7.0), 1);
    let b = yz.bounding_box(s(6.9999), s(7.0001)).unwrap();
    assert_eq!(triple(b.min()), (6.9999, 1.0, 3.0));
    assert_eq!(triple(b.max()), (7.0001, 2.0, 4.0));
    assert_eq!((f(yz.y0), f(yz.y1), f(yz.z0), f(yz.z1)), (1.0, 2.0, 3.0, 4.0));
}

#[test]
fn box_has_six_faces_on_its_bounds() {
    let b = AaBox::new(v(0.0, 1.0, 2.0), v(10.0, 11.0, 12.0), 3);
    let sides = b.sides.objects();
    assert_eq!(sides.len(), 6);
    let mut ks = Vec::new();
    for side in sides.iter() {
        match side {
            Side::Xy(p) => {
                assert_eq!((f(p.x0), f(p.x1), f(p.y0), f(p.y1)), (0.0, 10.0, 1.0, 11.0));
                assert_eq!(p.material, 3);
                ks.push(('z', f(p.k)));
            }
            Side::Xz(p) => {
                assert_eq!((f(p.x0), f(p.x1), f(p.z0), f(p.z1)), (0.0, 10.0, 2.0, 12.0));
                ks.push(('y', f(p.k)));
            }
            Side::Yz(p) => {
                assert_eq!((f(p.y0), f(p.y1), f(p.z0), f(p.z1)), (1.0, 11.0, 2.0, 12.0));
                ks.push(('x', f(p.k)));
            }
        }
    }
    assert_eq!(
        ks,
        vec![('z', 12.0), ('z', 2.0), ('y', 11.0), ('y', 1.0), ('x', 10.0), ('x', 0.0)]
    );
    let bb: Aabb = b.bounding_box().unwrap();
    assert_eq!(triple(bb.min()), (0.0, 1.0, 2.0));
    assert_eq!(triple(bb.max()), (10.0, 11.0, 12.0));
}

#[test]
fn box_hit_is_the_nearest_face() {
    let b = AaBox::new(v(0.0, 0.0, 0.0), v(1.0, 1.0, 1.0), 3);
    // A ray down the z axis through the middle meets the two Xy faces.
    let probe = |i: usize, limit: Scalar| match &b.sides.objects()[i] {
        Side::Xy(p) => {
            let t = 5.0 - f(p.k);
            p.hit(
                &PlaneCrossing {
                    t: s(t),
                    u: s(0.5),
                    v: s(0.5),
                    point: v(0.5, 0.5, f(p.k)),
                    facing: s(-1.0),
                },
                s(0.001),
                limit,
            )
        }
        _ => None,
    };
    let rec = b.hit(s(f64::INFINITY), &probe).unwrap();
    assert_eq!(f(rec.t), 4.0);
    assert_eq!(triple(rec.point), (0.5, 0.5, 1.0));
}

#[test]
fn nearer_root_is_taken_when_in_range() {
    let roots = Roots { discriminant: s(4.0), near: s(1.0), far: s(3.0) };
    assert_eq!(f(select_root(&roots, s(0.001), s(f64::INFINITY)).unwrap()), 1.0);
    // From inside the sphere the nearer root lies behind the ray.
    let inside = Roots { discriminant: s(4.0), near: s(-1.0), far: s(3.0) };
    assert_eq!(f(select_root(&inside, s(0.001), s(f64::INFINITY)).unwrap()), 3.0);
    assert!(select_root(&inside, s(0.001), s(2.0)).is_none());
    let behind = Roots { discriminant: s(4.0), near: s(-3.0), far: s(-1.0) };
    assert!(select_root(&behind, s(0.001), s(f64::INFINITY)).is_none());
    // The ends of the interval belong to it.
    assert_eq!(f(select_root(&roots, s(1.0), s(1.0)).unwrap()), 1.0);
    assert_eq!(f(select_root(&roots, s(2.0), s(3.0)).unwrap()), 3.0);
}

#[test]
fn negative_discriminant_is_a_miss() {
    let roots = Roots { discriminant: s(-0.5), near: s(1.0), far: s(3.0) };
    assert!(select_root(&roots, s(0.001), s(f64::INFINITY)).is_none());
    // A tangent ray has discriminant zero and one root.
    let tangent = Roots { discriminant: s(0.0), near: s(2.0), far: s(2.0) };
    assert_eq!(f(select_root(&tangent, s(0.001), s(f64::INFINITY)).unwrap()), 2.0);
}

#[test]
fn sphere_hit_records_the_selected_root() {
    let sphere = Sphere::new(v(0.0, 0.0, 0.0), s(1.0), 9);
    let asked = std::cell::RefCell::new(Vec::new());
    let surface = |t: Scalar| {
        asked.borrow_mut().push(f(t));
        SurfacePoint {
            point: v(0.0, 0.0, f(t)),
            outward_normal: v(0.0, 0.0, -1.0),
            facing: s(-1.0),
            u: s(0.25),
            v: s(0.5),
        }
    };
    let roots = Roots { discriminant: s(1.0), near: s(4.0), far: s(6.0) };
    let rec: HitRecord = sphere.hit(&roots, s(0.001), s(f64::INFINITY), &surface).unwrap();
    assert_eq!(f(rec.t), 4.0);
    assert_eq!(triple(rec.point), (0.0, 0.0, 4.0));
    assert_eq!(triple(rec.normal), (0.0, 0.0, -1.0));
    assert!(rec.front_face);
    assert_eq!((f(rec.u), f(rec.v)), (0.25, 0.5));
    assert_eq!(rec.material, Some(9));
    assert_eq!(*asked.borrow(), vec![4.0]);
    let miss = Roots { discriminant: s(-1.0), near: s(4.0), far: s(6.0) };
    assert!(sphere.hit(&miss, s(0.001), s(f64::INFINITY), &surface).is_none());
    assert_eq!(asked.borrow().len(), 1);
}

#[test]
fn moving_sphere_hits_like_a_sphere_and_boxes_its_motion() {
    let sphere = MovingSphere::new(v(0.0, 0.0, 0.0), v(0.0, 2.0, 0.0), s(1.0), s(0.0), s(1.0), 2);
    assert_eq!(triple(sphere.center_1), (0.0, 2.0, 0.0));
    assert_eq!((f(sphere.time_0), f(sphere.time_1), f(sphere.radius)), (0.0, 1.0, 1.0));
    let surface = |t: Scalar| SurfacePoint {
        point: v(0.0, 0.0, f(t)),
        outward_normal: v(0.0, 0.0, 1.0),
        facing: s(1.0),
        u: s(0.0),
        v: s(0.0),
    };
    let roots = Roots { discriminant: s(1.0), near: s(-4.0), far: s(6.0) };
    let rec = sphere.hit(&roots, s(0.001), s(f64::INFINITY), &surface).unwrap();
    assert_eq!(f(rec.t), 6.0);
    assert!(!rec.front_face);
    assert_eq!(triple(rec.normal), (0.0, 0.0, -1.0));
    let at_start = Aabb::new(v(-1.0, -1.0, -1.0), v(1.0, 1.0, 1.0));
    let at_end = Aabb::new(v(-1.0, 1.0, -1.0), v(1.0, 3.0, 1.0));
    let b = MovingSphere::bounding_box(&at_start, &at_end).unwrap();
    assert_eq!(triple(b.min()), (-1.0, -1.0, -1.0));
    assert_eq!(triple(b.max()), (1.0, 3.0, 1.0));
}

#[test]
fn medium_span_is_held_to_the_interval() {
    let span = |a: f64, b: f64, lo: f64, hi: f64| {
        ConstantMedium::clip_span(s(a), s(b), s(lo), s(hi)).map(|(x, y)| (f(x), f(y)))
    };
    assert_eq!(span(2.0, 5.0, 0.001, f64::INFINITY), Some((2.0, 5.0)));
    assert_eq!(span(2.0, 5.0, 3.0, 4.0), Some((3.0, 4.0)));
    assert_eq!(span(2.0, 5.0, 5.0, 9.0), None);
    assert_eq!(span(2.0, 5.0, 0.0, 2.0), None);
    // A ray that starts inside: the entry lies behind the origin.
    assert_eq!(span(-3.0, 5.0, -10.0, 9.0), Some((0.0, 5.0)));
    assert_eq!(span(-3.0, 5.0, 0.001, 9.0), Some((0.001, 5.0)));
    // A medium that lies behind the origin altogether: the start is moved to
    // the origin and the stretch has no length, so that no flight ends in it.
    assert_eq!(span(-5.0, -1.0, -10.0, 10.0), Some((0.0, -1.0)));
    assert_eq!(span(-5.0, -1.0, 0.001, 10.0), None);
}

#[test]
fn medium_scatters_when_the_flight_ends_inside() {
    let medium = ConstantMedium::new(6);
    let enter = || Some(s(2.0));
    let leave = |t: Scalar| Some(s(f(t) + 3.0));
    let short = |t0: Scalar, t1: Scalar| Flight {
        distance_inside: s(f(t1) - f(t0)),
        hit_dist: s(1.0),
        t: s(f(t0) + 1.0),
        point: v(f(t0) + 1.0, 0.0, 0.0),
    };
    let rec = medium.hit(s(0.001), s(f64::INFINITY), &enter, &leave, &short).unwrap();
    assert_eq!(f(rec.t), 3.0);
    assert_eq!(triple(rec.point), (3.0, 0.0, 0.0));
    assert_eq!(triple(rec.normal), (1.0, 0.0, 0.0));
    assert!(rec.front_face);
    assert_eq!(rec.material, Some(6));
    let long = |t0: Scalar, t1: Scalar| Flight {
        distance_inside: s(f(t1) - f(t0)),
        hit_dist: s(3.5),
        t: s(f(t0) + 3.5),
        point: v(0.0, 0.0, 0.0),
    };
    assert!(medium.hit(s(0.001), s(f64::INFINITY), &enter, &leave, &long).is_none());
    // A flight that ends on the boundary still scatters.
    let exact = |t0: Scalar, t1: Scalar| Flight {
        distance_inside: s(f(t1) - f(t0)),
        hit_dist: s(3.0),
        t: s(f(t0) + 3.0),
        point: v(0.0, 0.0, 0.0),
    };
    assert!(medium.hit(s(0.001), s(f64::INFINITY), &enter, &leave, &exact).is_some());
}

#[test]
fn medium_asks_no_more_than_it_needs() {
    let medium = ConstantMedium::new(6);
    let drawn = std::cell::Cell::new(0);
    let left = std::cell::Cell::new(0);
    let draw = |_t0: Scalar, _t1: Scalar| {
        drawn.set(drawn.get() + 1);
        Flight { distance_inside: s(1.0), hit_dist: s(0.5), t: s(1.0), point: v(0.0, 0.0, 0.0) }
    };
    let leave = |t: Scalar| {
        left.set(left.get() + 1);
        Some(s(f(t) + 3.0))
    };
    let no_entry = || None;
    assert!(medium.hit(s(0.001), s(9.0), &no_entry, &leave, &draw).is_none());
    assert_eq!((left.get(), drawn.get()), (0, 0));
    let enter = || Some(s(2.0));
    let no_exit = |_t: Scalar| None;
    assert!(medium.hit(s(0.001), s(9.0), &enter, &no_exit, &draw).is_none());
    assert_eq!(drawn.get(), 0);
    // The boundary lies beyond the interval: nothing is drawn.
    assert!(medium.hit(s(0.001), s(1.0), &enter, &leave, &draw).is_none());
    assert_eq!((left.get(), drawn.get()), (1, 0));
    assert!(medium.hit(s(0.001), s(9.0), &enter, &leave, &draw).is_some());
    assert_eq!((left.get(), drawn.get()), (2, 1));
}

#[test]
fn first_crossing_is_minus_one_on_a_miss() {
    let miss = Roots { discriminant: s(-0.5), near: s(1.0), far: s(3.0) };
    assert_eq!(f(first_crossing(&miss)), -1.0);
    let hit = Roots { discriminant: s(4.0), near: s(1.0), far: s(3.0) };
    assert_eq!(f(first_crossing(&hit)), 1.0);
    let behind = Roots { discriminant: s(0.0), near: s(-2.0), far: s(-2.0) };
    assert_eq!(f(first_crossing(&behind)), -2.0);
}

#[test]
fn sphere_is_aimed_at_only_where_it_is_seen() {
    assert_eq!(f(Sphere::pdf_value(&Some(HitRecord::new()), s(2.5))), 2.5);
    assert_eq!(f(Sphere::pdf_value(&None, s(2.5))), 0.0);
}

// The crossing of a ray with the plane z = k, as the arithmetic gives it.
fn crossing_of(origin: [f64; 3], direction: [f64; 3], k: f64, extent: [f64; 4]) -> PlaneCrossing {
    let t = (k - origin[2]) / direction[2];
    let x = origin[0] + t * direction[0];
    let y = origin[1] + t * direction[1];
    PlaneCrossing {
        t: s(t),
        u: s((x - extent[0]) / (extent[1] - extent[0])),
        v: s((y - extent[2]) / (extent[3] - extent[2])),
        point: v(x, y, origin[2] + t * direction[2]),
        facing: s(direction[2]),
    }
}

#[test]
fn rectangle_is_missed_by_a_ray_along_its_plane() {
    let plane = XyPlane::new(s(0.0), s(10.0), s(0.0), s(10.0), s(3.0), 4);
    let extent = [0.0, 10.0, 0.0, 10.0];
    let far = s(f64::INFINITY);
    // Inside the plane: the parameter is 0/0.
    let inside = crossing_of([-5.0, 5.0, 3.0], [1.0, 0.0, 0.0], 3.0, extent);
    assert!(inside.t.is_nan());
    assert!(plane.hit(&inside, s(0.001), far).is_none());
    assert!(plane.hit(&inside, s(f64::NEG_INFINITY), far).is_none());
    // Beside the plane: the parameter is infinite.
    let beside = crossing_of([-5.0, 5.0, 1.0], [1.0, 0.0, 0.0], 3.0, extent);
    assert_eq!(f(beside.t), f64::INFINITY);
    assert!(plane.hit(&beside, s(0.001), far).is_none());
    let beside = crossing_of([5.0, 5.0, 1.0], [0.0, 0.0, -0.0], 3.0, extent);
    assert!(plane.hit(&beside, s(f64::NEG_INFINITY), far).is_none());
    // A ray that does cross is hit, with its record inside all bounds.
    let across = crossing_of([5.0, 2.5, 1.0], [0.0, 0.0, 1.0], 3.0, extent);
    let rec = plane.hit(&across, s(0.001), far).unwrap();
    assert_eq!((f(rec.t), f(rec.u), f(rec.v)), (2.0, 0.5, 0.25));
    assert_eq!(triple(rec.point), (5.0, 2.5, 3.0));
}

#[test]
fn rectangle_is_missed_where_a_coordinate_is_no_number() {
    let plane = XzPlane::new(s(0.0), s(10.0), s(0.0), s(10.0), s(3.0), 4);
    let far = s(f64::INFINITY);
    let good = crossing(2.0, 5.0, 5.0, -1.0);
    assert!(plane.hit(&good, s(0.001), far).is_some());
    let mut c = good;
    c.point = v(f64::NAN, 3.0, 5.0);
    assert!(plane.hit(&c, s(0.001), far).is_none());
    let mut c = good;
    c.point = v(5.0, 3.0, f64::NAN);
    assert!(plane.hit(&c, s(0.001), far).is_none());
    let mut c = good;
    c.u = s(f64::NAN);
    assert!(plane.hit(&c, s(0.001), far).is_none());
    let mut c = good;
    c.v = s(1.5);
    assert!(plane.hit(&c, s(0.001), far).is_none());
    assert!(plane.hit(&good, s(f64::NAN), far).is_none());
    assert!(plane.hit(&good, s(0.001), s(f64::NAN)).is_none());
    // A rectangle without width: the scaled coordinate is 0/0.
    let thin = XyPlane::new(s(5.0), s(5.0), s(0.0), s(10.0), s(3.0), 4);
    let at = crossing_of([5.0, 2.5, 1.0], [0.0, 0.0, 1.0], 3.0, [5.0, 5.0, 0.0, 10.0]);
    assert!(at.u.is_nan());
    assert!(thin.hit(&at, s(0.001), far).is_none());
}

#[test]
fn roots_that_are_no_numbers_are_not_selected() {
    let far = s(f64::INFINITY);
    // A ray without direction: both roots are 0/0, the discriminant is zero.
    let still = Roots { discriminant: s(0.0), near: s(f64::NAN), far: s(f64::NAN) };
    assert!(select_root(&still, s(0.001), far).is_none());
    assert!(select_root(&still, s(f64::NEG_INFINITY), far).is_none());
    let unknown = Roots { discriminant: s(f64::NAN), near: s(1.0), far: s(3.0) };
    assert!(select_root(&unknown, s(0.001), far).is_none());
    let endless = Roots { discriminant: s(1.0), near: s(f64::NEG_INFINITY), far: s(f64::INFINITY) };
    assert!(select_root(&endless, s(f64::NEG_INFINITY), far).is_none());
    // A nearer root that is no number gives way to the farther one.
    let half = Roots { discriminant: s(1.0), near: s(f64::NAN), far: s(3.0) };
    assert_eq!(f(select_root(&half, s(0.001), far).unwrap()), 3.0);
    let good = Roots { discriminant: s(1.0), near: s(1.0), far: s(3.0) };
    assert!(select_root(&good, s(f64::NAN), far).is_none());
    assert_eq!(f(first_crossing(&still)), -1.0);
    assert_eq!(f(first_crossing(&unknown)), -1.0);
    assert_eq!(f(first_crossing(&endless)), -1.0);
    let sphere = Sphere::new(v(0.0, 0.0, 0.0), s(1.0), 9);
    let never = |_t: Scalar| -> SurfacePoint { panic!("no root, no surface") };
    assert!(sphere.hit(&still, s(0.001), far, &never).is_none());
}

#[test]
fn medium_does_not_scatter_on_what_is_no_number() {
    let span = |a: f64, b: f64, lo: f64, hi: f64| {
        ConstantMedium::clip_span(s(a), s(b), s(lo), s(hi)).map(|(x, y)| (f(x), f(y)))
    };
    assert_eq!(span(f64::NAN, 5.0, 0.001, 9.0), None);
    assert_eq!(span(2.0, f64::NAN, 0.001, 9.0), None);
    assert_eq!(span(2.0, 5.0, f64::NAN, 9.0), None);
    assert_eq!(span(2.0, 5.0, 0.001, f64::NAN), None);
    let medium = ConstantMedium::new(6);
    let enter = || Some(s(2.0));
    let leave = |t: Scalar| Some(s(f(t) + 3.0));
    let flight = |distance_inside: f64, hit_dist: f64, t: f64| {
        move |_t0: Scalar, _t1: Scalar| Flight {
            distance_inside: s(distance_inside),
            hit_dist: s(hit_dist),
            t: s(t),
            point: v(0.0, 0.0, 0.0),
        }
    };
    let far = s(f64::INFINITY);
    assert!(medium.hit(s(0.001), far, &enter, &leave, &flight(3.0, 1.0, 3.0)).is_some());
    // A ray without direction has no length: the distances are 0 * x and x / 0.
    assert!(medium.hit(s(0.001), far, &enter, &leave, &flight(f64::NAN, 1.0, 3.0)).is_none());
    assert!(medium.hit(s(0.001), far, &enter, &leave, &flight(3.0, f64::NAN, 3.0)).is_none());
    assert!(medium.hit(s(0.001), far, &enter, &leave, &flight(3.0, 1.0, f64::NAN)).is_none());
    assert!(medium.hit(s(0.001), far, &enter, &leave, &flight(0.0, 0.0, f64::INFINITY)).is_none());
}
