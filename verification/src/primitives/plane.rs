use vstd::prelude::*;
use crate::hittable::HitRecord;
use crate::math::aabb::Aabb;
use crate::math::scalar::{Scalar, ONE_BITS};
use crate::math::vec3::{Point3, Vec3};

verus! {

/// Where a ray meets the plane of a rectangle.
///
/// `t` is the ray parameter of the crossing, `point` the crossing itself, `u`
/// and `v` its two coordinates within the plane scaled to the rectangle's
/// extent, and `facing` the dot product of the ray's direction with the
/// rectangle's outward normal. For a ray that runs along the plane the
/// division that gives `t` is one by zero, and `t` is infinite or NaN.
#[derive(Clone, Copy, Debug)]
pub struct PlaneCrossing {
    pub t: Scalar,
    pub u: Scalar,
    pub v: Scalar,
    pub point: Point3,
    pub facing: Scalar,
}

/// Whether a crossing is a hit of the rectangle that spans `[a0, a1]` on the
/// axis `axis_a` and `[b0, b1]` on the axis `axis_b`: its parameter is a
/// finite number in `[t_min, t_max]`, its point lies within the extent on both
/// axes, and its surface coordinates lie in `[0, 1]`. A crossing that holds a
/// NaN where any of these is tested is no hit.
pub open spec fn lies_on(
    a0: Scalar,
    a1: Scalar,
    b0: Scalar,
    b1: Scalar,
    axis_a: int,
    axis_b: int,
    c: PlaneCrossing,
    t_min: Scalar,
    t_max: Scalar,
) -> bool {
    &&& c.t.finite()
    &&& c.t.between(t_min, t_max)
    &&& c.point.component(axis_a).between(a0, a1)
    &&& c.point.component(axis_b).between(b0, b1)
    &&& c.u.between(Scalar { bits: 0 }, Scalar { bits: ONE_BITS })
    &&& c.v.between(Scalar { bits: 0 }, Scalar { bits: ONE_BITS })
}

/// The record of a crossing, its normal turned against the ray.
pub open spec fn crossing_record(
    outward_normal: Vec3,
    material: usize,
    c: PlaneCrossing,
) -> HitRecord {
    (HitRecord {
        point: c.point,
        normal: Vec3::origin(),
        t: c.t,
        u: c.u,
        v: c.v,
        front_face: false,
        material: Some(material),
    }).faced(c.facing, outward_normal)
}

/// The hit of a ray on a rectangle: the record of the crossing where the
/// crossing lies on the rectangle, none otherwise.
pub open spec fn rectangle_hit(
    a0: Scalar,
    a1: Scalar,
    b0: Scalar,
    b1: Scalar,
    axis_a: int,
    axis_b: int,
    outward_normal: Vec3,
    material: usize,
    c: PlaneCrossing,
    t_min: Scalar,
    t_max: Scalar,
) -> Option<HitRecord> {
    if lies_on(a0, a1, b0, b1, axis_a, axis_b, c, t_min, t_max) {
        Some(crossing_record(outward_normal, material, c))
    } else {
        None
    }
}

/// Whether a hit record lies on a rectangle: its parameter is a finite
/// number in `[t_min, t_max]`, its point lies within the extent, and its
/// surface coordinates lie in `[0, 1]`.
pub open spec fn on_rectangle(
    a0: Scalar,
    a1: Scalar,
    b0: Scalar,
    b1: Scalar,
    axis_a: int,
    axis_b: int,
    h: HitRecord,
    t_min: Scalar,
    t_max: Scalar,
) -> bool {
    &&& h.t.finite()
    &&& h.t.between(t_min, t_max)
    &&& h.point.component(axis_a).between(a0, a1)
    &&& h.point.component(axis_b).between(b0, b1)
    &&& h.u.between(Scalar { bits: 0 }, Scalar { bits: ONE_BITS })
    &&& h.v.between(Scalar { bits: 0 }, Scalar { bits: ONE_BITS })
}

/// The unit vector along `axis`.
pub open spec fn unit_axis(axis: int) -> Vec3 {
    Vec3 {
        x: Scalar { bits: if axis == 0 { ONE_BITS } else { 0 } },
        y: Scalar { bits: if axis == 1 { ONE_BITS } else { 0 } },
        z: Scalar { bits: if axis == 2 { ONE_BITS } else { 0 } },
    }
}

fn rectangle(
    a0: Scalar,
    a1: Scalar,
    b0: Scalar,
    b1: Scalar,
    axis_a: usize,
    axis_b: usize,
    outward_normal: &Vec3,
    material: usize,
    c: &PlaneCrossing,
    t_min: Scalar,
    t_max: Scalar,
) -> (r: Option<HitRecord>)
    requires
        axis_a < 3,
        axis_b < 3,
    ensures
        r == rectangle_hit(
            a0,
            a1,
            b0,
            b1,
            axis_a as int,
            axis_b as int,
            *outward_normal,
            material,
            *c,
            t_min,
            t_max,
        ),
        r is Some ==> on_rectangle(
            a0,
            a1,
            b0,
            b1,
            axis_a as int,
            axis_b as int,
            r.unwrap(),
            t_min,
            t_max,
        ),
{
    if !c.t.is_finite() || !c.t.within(t_min, t_max) {
        return None;
    }
    if !c.point.get(axis_a).within(a0, a1) || !c.point.get(axis_b).within(b0, b1) {
        return None;
    }
    if !c.u.within(Scalar::zero(), Scalar::one()) || !c.v.within(Scalar::zero(), Scalar::one()) {
        return None;
    }
    let mut hit_rec = HitRecord::new();
    hit_rec.u = c.u;
    hit_rec.v = c.v;
    hit_rec.t = c.t;
    hit_rec.set_face_normal(c.facing, outward_normal);
    hit_rec.material = Some(material);
    hit_rec.point = c.point;
    Some(hit_rec)
}

/// A rectangle in the plane `z = k`.
#[derive(Clone, Copy, Debug)]
pub struct XyPlane {
    pub x0: Scalar,
    pub x1: Scalar,
    pub y0: Scalar,
    pub y1: Scalar,
    pub k: Scalar,
    pub material: usize,
}

impl XyPlane {
    pub fn new(x0: Scalar, x1: Scalar, y0: Scalar, y1: Scalar, k: Scalar, material: usize) -> (p:
        Self)
        ensures
            p == (XyPlane { x0, x1, y0, y1, k, material }),
    {
        Self { x0, x1, y0, y1, k, material }
    }

    /// The hit of a ray that crosses the plane as `crossing` says: the record
    /// of the crossing where its parameter is a finite number within the
    /// interval, its point lies within the rectangle's extent in x and y, and its
    /// surface coordinates lie in `[0, 1]`; none otherwise, and none for a ray
    /// that runs along the plane.
    pub fn hit(&self, crossing: &PlaneCrossing, t_min: Scalar, t_max: Scalar) -> (r: Option<
        HitRecord,
    >)
        ensures
            r == rectangle_hit(
                self.x0,
                self.x1,
                self.y0,
                self.y1,
                0,
                1,
                unit_axis(2),
                self.material,
                *crossing,
                t_min,
                t_max,
            ),
            r is Some ==> on_rectangle(
                self.x0,
                self.x1,
                self.y0,
                self.y1,
                0,
                1,
                r.unwrap(),
                t_min,
                t_max,
            ),
    {
        let outward_normal = Vec3::new(Scalar::zero(), Scalar::zero(), Scalar::one());
        rectangle(
            self.x0,
            self.x1,
            self.y0,
            self.y1,
            0,
            1,
            &outward_normal,
            self.material,
            crossing,
            t_min,
            t_max,
        )
    }

    /// The box of the rectangle, which reaches from `below` to `above` on the
    /// z axis: the plane's `k` less and plus a small thickness.
    pub fn bounding_box(&self, below: Scalar, above: Scalar) -> (b: Option<Aabb>)
        ensures
            b == Some(
                Aabb {
                    min: Vec3 { x: self.x0, y: self.y0, z: below },
                    max: Vec3 { x: self.x1, y: self.y1, z: above },
                },
            ),
    {
        Some(Aabb::new(Point3::new(self.x0, self.y0, below), Point3::new(self.x1, self.y1, above)))
    }
}

/// A rectangle in the plane `y = k`.
#[derive(Clone, Copy, Debug)]
pub struct XzPlane {
    pub x0: Scalar,
    pub x1: Scalar,
    pub z0: Scalar,
    pub z1: Scalar,
    pub k: Scalar,
    pub material: usize,
}

impl XzPlane {
    pub fn new(x0: Scalar, x1: Scalar, z0: Scalar, z1: Scalar, k: Scalar, material: usize) -> (p:
        Self)
        ensures
            p == (XzPlane { x0, x1, z0, z1, k, material }),
    {
        Self { x0, x1, z0, z1, k, material }
    }

    /// The hit of a ray that crosses the plane as `crossing` says: the record
    /// of the crossing where its parameter is a finite number within the
    /// interval, its point lies within the rectangle's extent in x and z, and its
    /// surface coordinates lie in `[0, 1]`; none otherwise, and none for a ray
    /// that runs along the plane.
    pub fn hit(&self, crossing: &PlaneCrossing, t_min: Scalar, t_max: Scalar) -> (r: Option<
        HitRecord,
    >)
        ensures
            r == rectangle_hit(
                self.x0,
                self.x1,
                self.z0,
                self.z1,
                0,
                2,
                unit_axis(1),
                self.material,
                *crossing,
                t_min,
                t_max,
            ),
            r is Some ==> on_rectangle(
                self.x0,
                self.x1,
                self.z0,
                self.z1,
                0,
                2,
                r.unwrap(),
                t_min,
                t_max,
            ),
    {
        let outward_normal = Vec3::new(Scalar::zero(), Scalar::one(), Scalar::zero());
        rectangle(
            self.x0,
            self.x1,
            self.z0,
            self.z1,
            0,
            2,
            &outward_normal,
            self.material,
            crossing,
            t_min,
            t_max,
        )
    }

    /// The box of the rectangle, which reaches from `below` to `above` on the
    /// y axis: the plane's `k` less and plus a small thickness.
    pub fn bounding_box(&self, below: Scalar, above: Scalar) -> (b: Option<Aabb>)
        ensures
            b == Some(
                Aabb {
                    min: Vec3 { x: self.x0, y: below, z: self.z0 },
                    max: Vec3 { x: self.x1, y: above, z: self.z1 },
                },
            ),
    {
        Some(Aabb::new(Point3::new(self.x0, below, self.z0), Point3::new(self.x1, above, self.z1)))
    }
}

/// A rectangle in the plane `x = k`.
#[derive(Clone, Copy, Debug)]
pub struct YzPlane {
    pub z0: Scalar,
    pub z1: Scalar,
    pub y0: Scalar,
    pub y1: Scalar,
    pub k: Scalar,
    pub material: usize,
}

impl YzPlane {
    pub fn new(y0: Scalar, y1: Scalar, z0: Scalar, z1: Scalar, k: Scalar, material: usize) -> (p:
        Self)
        ensures
            p == (YzPlane { z0, z1, y0, y1, k, material }),
    {
        Self { y0, y1, z0, z1, k, material }
    }

    /// The hit of a ray that crosses the plane as `crossing` says: the record
    /// of the crossing where its parameter is a finite number within the
    /// interval, its point lies within the rectangle's extent in y and z, and its
    /// surface coordinates lie in `[0, 1]`; none otherwise, and none for a ray
    /// that runs along the plane.
    pub fn hit(&self, crossing: &PlaneCrossing, t_min: Scalar, t_max: Scalar) -> (r: Option<
        HitRecord,
    >)
        ensures
            r == rectangle_hit(
                self.y0,
                self.y1,
                self.z0,
                self.z1,
                1,
                2,
                unit_axis(0),
                self.material,
                *crossing,
                t_min,
                t_max,
            ),
            r is Some ==> on_rectangle(
                self.y0,
                self.y1,
                self.z0,
                self.z1,
                1,
                2,
                r.unwrap(),
                t_min,
                t_max,
            ),
    {
        let outward_normal = Vec3::new(Scalar::one(), Scalar::zero(), Scalar::zero());
        rectangle(
            self.y0,
            self.y1,
            self.z0,
            self.z1,
            1,
            2,
            &outward_normal,
            self.material,
            crossing,
            t_min,
            t_max,
        )
    }

    /// The box of the rectangle, which reaches from `below` to `above` on the
    /// x axis: the plane's `k` less and plus a small thickness.
    pub fn bounding_box(&self, below: Scalar, above: Scalar) -> (b: Option<Aabb>)
        ensures
            b == Some(
                Aabb {
                    min: Vec3 { x: below, y: self.y0, z: self.z0 },
                    max: Vec3 { x: above, y: self.y1, z: self.z1 },
                },
            ),
    {
        Some(Aabb::new(Point3::new(below, self.y0, self.z0), Point3::new(above, self.y1, self.z1)))
    }
}

} // verus!
