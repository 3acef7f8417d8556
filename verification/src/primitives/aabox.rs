use vstd::prelude::*;
use crate::hittable::{probing, scan_admits, HitRecord, HittableList};
use crate::math::aabb::Aabb;
use crate::math::scalar::Scalar;
use crate::math::vec3::Point3;
use crate::primitives::plane::{XyPlane, XzPlane, YzPlane};

verus! {

/// One face of a box.
#[derive(Clone, Copy, Debug)]
pub enum Side {
    Xy(XyPlane),
    Xz(XzPlane),
    Yz(YzPlane),
}

/// An axis-aligned box made of its six faces.
pub struct AaBox {
    pub min: Point3,
    pub max: Point3,
    pub sides: HittableList<Side>,
}

impl AaBox {
    /// The six faces of the box between `min` and `max`: for each pair of
    /// axes the rectangle over the box's extent, once at the upper and once at
    /// the lower bound of the third axis.
    pub open spec fn faces(min: Point3, max: Point3, material: usize) -> Seq<Side> {
        seq![
            Side::Xy(XyPlane { x0: min.x, x1: max.x, y0: min.y, y1: max.y, k: max.z, material }),
            Side::Xy(XyPlane { x0: min.x, x1: max.x, y0: min.y, y1: max.y, k: min.z, material }),
            Side::Xz(XzPlane { x0: min.x, x1: max.x, z0: min.z, z1: max.z, k: max.y, material }),
            Side::Xz(XzPlane { x0: min.x, x1: max.x, z0: min.z, z1: max.z, k: min.y, material }),
            Side::Yz(YzPlane { y0: min.y, y1: max.y, z0: min.z, z1: max.z, k: max.x, material }),
            Side::Yz(YzPlane { y0: min.y, y1: max.y, z0: min.z, z1: max.z, k: min.x, material }),
        ]
    }

    pub fn new(min: Point3, max: Point3, material: usize) -> (b: Self)
        ensures
            b.min == min,
            b.max == max,
            b.sides.objects@ == Self::faces(min, max, material),
    {
        let mut sides = HittableList::new();

        sides.add(Side::Xy(XyPlane::new(min.x(), max.x(), min.y(), max.y(), max.z(), material)));
        sides.add(Side::Xy(XyPlane::new(min.x(), max.x(), min.y(), max.y(), min.z(), material)));

        sides.add(Side::Xz(XzPlane::new(min.x(), max.x(), min.z(), max.z(), max.y(), material)));
        sides.add(Side::Xz(XzPlane::new(min.x(), max.x(), min.z(), max.z(), min.y(), material)));

        sides.add(Side::Yz(YzPlane::new(min.y(), max.y(), min.z(), max.z(), max.x(), material)));
        sides.add(Side::Yz(YzPlane::new(min.y(), max.y(), min.z(), max.z(), min.x(), material)));

        Self { min, max, sides }
    }

    /// The box itself, not the union of the faces' boxes.
    pub fn bounding_box(&self) -> (b: Option<Aabb>)
        ensures
            b == Some(Aabb { min: self.min, max: self.max }),
    {
        Some(Aabb::new(self.min, self.max))
    }

    /// The closest hit among the six faces; `probe` intersects the face at an
    /// index of `sides` with the ray up to the limit it is given.
    pub fn hit<F: Fn(usize, Scalar) -> Option<HitRecord>>(&self, t_max: Scalar, probe: &F) -> (r:
        Option<HitRecord>)
        requires
            forall|i: usize, limit: Scalar|
                i < self.sides.objects@.len() ==> call_requires(*probe, (i, limit)),
        ensures
            scan_admits(self.sides.objects@.len(), t_max, probing(*probe), r),
    {
        self.sides.hit(t_max, probe)
    }
}

} // verus!
