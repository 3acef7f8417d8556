use vstd::prelude::*;
use crate::hittable::HitRecord;
use crate::math::aabb::Aabb;
use crate::math::scalar::Scalar;
use crate::math::vec3::{Point3, Vec3};

verus! {

/// What the quadratic of a ray and a sphere gives: its discriminant and the
/// ray parameters of the two crossings, the nearer first. The roots mean
/// nothing where the discriminant is negative.
#[derive(Clone, Copy, Debug)]
pub struct Roots {
    pub discriminant: Scalar,
    pub near: Scalar,
    pub far: Scalar,
}

/// What is known of the sphere's surface at a crossing: the point, the
/// outward unit normal, the dot product of the ray's direction with that
/// normal, and the surface coordinates.
#[derive(Clone, Copy, Debug)]
pub struct SurfacePoint {
    pub point: Point3,
    pub outward_normal: Vec3,
    pub facing: Scalar,
    pub u: Scalar,
    pub v: Scalar,
}

/// Whether a root can be hit at: it is a finite number in `[t_min, t_max]`.
/// A root that is NaN or infinite, as a ray without direction gives, cannot.
pub open spec fn reachable(t: Scalar, t_min: Scalar, t_max: Scalar) -> bool {
    t.finite() && t.between(t_min, t_max)
}

/// The crossing at which a ray hits a sphere: none where the discriminant is
/// negative or NaN; otherwise the nearer root where it can be hit at, else
/// the farther root where that can, else none.
pub open spec fn selected_root(roots: Roots, t_min: Scalar, t_max: Scalar) -> Option<Scalar> {
    if !(Scalar { bits: 0 }).at_most(roots.discriminant) {
        None
    } else if reachable(roots.near, t_min, t_max) {
        Some(roots.near)
    } else if reachable(roots.far, t_min, t_max) {
        Some(roots.far)
    } else {
        None
    }
}

/// The pattern of `-1.0`.
pub const MINUS_ONE_BITS: u64 = 0xBFF0_0000_0000_0000;

/// The parameter at which a ray's line first meets a sphere, or -1 where it
/// does not meet the sphere at all or the parameter is no finite number.
pub fn first_crossing(roots: &Roots) -> (t: Scalar)
    ensures
        t == if (Scalar { bits: 0 }).at_most(roots.discriminant) && roots.near.finite() {
            roots.near
        } else {
            Scalar { bits: MINUS_ONE_BITS }
        },
{
    if Scalar::zero().le(roots.discriminant) && roots.near.is_finite() {
        roots.near
    } else {
        Scalar::from_bits(MINUS_ONE_BITS)
    }
}

/// The record of a hit at parameter `root` on a surface point.
pub open spec fn surface_record(root: Scalar, at: SurfacePoint, material: usize) -> HitRecord {
    (HitRecord {
        point: at.point,
        normal: Vec3::origin(),
        t: root,
        u: at.u,
        v: at.v,
        front_face: false,
        material: Some(material),
    }).faced(at.facing, at.outward_normal)
}

/// Whether `r` can be the hit of a sphere: nothing where no root is selected,
/// otherwise the record of what `surface` answers at the selected root.
pub open spec fn sphere_admits<F: Fn(Scalar) -> SurfacePoint>(
    material: usize,
    roots: Roots,
    t_min: Scalar,
    t_max: Scalar,
    surface: F,
    r: Option<HitRecord>,
) -> bool {
    match selected_root(roots, t_min, t_max) {
        None => r is None,
        Some(root) => exists|at: SurfacePoint|
            {
                &&& #[trigger] call_ensures(surface, (root,), at)
                &&& r == Some(surface_record(root, at, material))
            },
    }
}

/// Selects the root at which the ray hits.
pub fn select_root(roots: &Roots, t_min: Scalar, t_max: Scalar) -> (r: Option<Scalar>)
    ensures
        r == selected_root(*roots, t_min, t_max),
        r is Some ==> r.unwrap().finite() && r.unwrap().between(t_min, t_max),
{
    if !Scalar::zero().le(roots.discriminant) {
        return None;
    }
    let mut root = roots.near;
    if !root.is_finite() || !root.within(t_min, t_max) {
        root = roots.far;
        if !root.is_finite() || !root.within(t_min, t_max) {
            return None;
        }
    }
    Some(root)
}

fn sphere_hit<F: Fn(Scalar) -> SurfacePoint>(
    material: usize,
    roots: &Roots,
    t_min: Scalar,
    t_max: Scalar,
    surface: &F,
) -> (r: Option<HitRecord>)
    requires
        forall|t: Scalar| call_requires(*surface, (t,)),
    ensures
        sphere_admits(material, *roots, t_min, t_max, *surface, r),
        r is Some ==> r.unwrap().t.finite() && r.unwrap().t.between(t_min, t_max),
{
    match select_root(roots, t_min, t_max) {
        None => None,
        Some(root) => {
            let at = surface(root);
            let mut hit_rec = HitRecord {
                t: root,
                point: at.point,
                normal: Vec3::default(),
                front_face: false,
                material: Some(material),
                u: at.u,
                v: at.v,
            };
            hit_rec.set_face_normal(at.facing, &at.outward_normal);
            Some(hit_rec)
        },
    }
}

/// A sphere at rest.
#[derive(Clone, Copy, Debug)]
pub struct Sphere {
    pub center: Point3,
    pub radius: Scalar,
    pub material: usize,
}

impl Sphere {
    pub fn new(center: Point3, radius: Scalar, material: usize) -> (s: Self)
        ensures
            s == (Sphere { center, radius, material }),
    {
        Self { center, radius, material }
    }

    /// The hit of a ray whose quadratic with the sphere has the given roots.
    /// `surface` describes the sphere's surface at a ray parameter; it is asked
    /// for the selected root only.
    pub fn hit<F: Fn(Scalar) -> SurfacePoint>(
        &self,
        roots: &Roots,
        t_min: Scalar,
        t_max: Scalar,
        surface: &F,
    ) -> (r: Option<HitRecord>)
        requires
            forall|t: Scalar| call_requires(*surface, (t,)),
        ensures
            sphere_admits(self.material, *roots, t_min, t_max, *surface, r),
            r is Some ==> r.unwrap().t.finite() && r.unwrap().t.between(t_min, t_max),
    {
        sphere_hit(self.material, roots, t_min, t_max, surface)
    }
}

impl Sphere {
    /// The density with which a direction towards the sphere is drawn: none
    /// where a ray in that direction misses the sphere, otherwise `density`, one
    /// over the solid angle under which the sphere is seen.
    pub fn pdf_value(hit: &Option<HitRecord>, density: Scalar) -> (r: Scalar)
        ensures
            r == if hit is Some {
                density
            } else {
                Scalar { bits: 0 }
            },
    {
        if hit.is_some() {
            density
        } else {
            Scalar::zero()
        }
    }
}

/// A sphere whose centre moves on a line from `center_0` at `time_0` to
/// `center_1` at `time_1`.
#[derive(Clone, Copy, Debug)]
pub struct MovingSphere {
    pub center_0: Point3,
    pub time_0: Scalar,
    pub center_1: Point3,
    pub time_1: Scalar,
    pub radius: Scalar,
    pub material: usize,
}

impl MovingSphere {
    pub fn new(
        center_0: Point3,
        center_1: Point3,
        radius: Scalar,
        time_0: Scalar,
        time_1: Scalar,
        material: usize,
    ) -> (s: Self)
        ensures
            s == (MovingSphere { center_0, time_0, center_1, time_1, radius, material }),
    {
        Self { center_0, time_0, center_1, time_1, radius, material }
    }

    /// The hit of a ray whose quadratic with the sphere, taken where the sphere
    /// is at the ray's time, has the given roots.
    pub fn hit<F: Fn(Scalar) -> SurfacePoint>(
        &self,
        roots: &Roots,
        t_min: Scalar,
        t_max: Scalar,
        surface: &F,
    ) -> (r: Option<HitRecord>)
        requires
            forall|t: Scalar| call_requires(*surface, (t,)),
        ensures
            sphere_admits(self.material, *roots, t_min, t_max, *surface, r),
            r is Some ==> r.unwrap().t.finite() && r.unwrap().t.between(t_min, t_max),
    {
        sphere_hit(self.material, roots, t_min, t_max, surface)
    }

    /// The box of the whole motion: the union of the sphere's boxes at the two
    /// ends of the time interval.
    pub fn bounding_box(box_0: &Aabb, box_1: &Aabb) -> (b: Option<Aabb>)
        ensures
            b == Some(Aabb::union(*box_0, *box_1)),
    {
        Some(Aabb::surrounding_box(box_0, box_1))
    }
}

/// The selected root is one of the two roots, and a finite number in the
/// interval; it is the nearer one wherever that can be hit at; and none is
/// selected only where the discriminant is negative or NaN, or neither root
/// can be hit at.
pub proof fn lemma_selected_root_is_first(roots: Roots, t_min: Scalar, t_max: Scalar)
    ensures
        selected_root(roots, t_min, t_max) is Some ==> {
            let t = selected_root(roots, t_min, t_max).unwrap();
            &&& t == roots.near || t == roots.far
            &&& t.finite() && !t.nan() && t.between(t_min, t_max)
            &&& reachable(roots.near, t_min, t_max) ==> t == roots.near
        },
        selected_root(roots, t_min, t_max) is None <==> !(Scalar { bits: 0 }).at_most(
            roots.discriminant,
        ) || (!reachable(roots.near, t_min, t_max) && !reachable(roots.far, t_min, t_max)),
{
}

} // verus!
