use vstd::prelude::*;
use crate::math::scalar::Scalar;
use crate::math::vec3::{Point3, Vec3};

verus! {

/// An axis-aligned box, given by its two extreme corners.
#[derive(Clone, Copy, Debug)]
pub struct Aabb {
    pub min: Point3,
    pub max: Point3,
}

/// The two ray parameters at which a ray meets the planes that bound a box on
/// one axis: `(bound - origin) / direction` for the lower and the upper bound.
/// Either is NaN where the ray runs inside a bounding plane.
#[derive(Clone, Copy, Debug)]
pub struct Slab {
    pub at_min: Scalar,
    pub at_max: Scalar,
}

impl Slab {
    /// The parameter at which the ray enters the slab.
    pub open spec fn entry(self) -> Scalar {
        self.at_min.lower(self.at_max)
    }

    /// The parameter at which the ray leaves the slab.
    pub open spec fn exit(self) -> Scalar {
        self.at_min.upper(self.at_max)
    }
}

impl Aabb {
    /// On every axis the lower corner is at most the upper corner; no
    /// coordinate is then a NaN.
    pub open spec fn wf(self) -> bool {
        &&& self.min.x.at_most(self.max.x)
        &&& self.min.y.at_most(self.max.y)
        &&& self.min.z.at_most(self.max.z)
    }

    /// Whether `p` lies in the box, faces included.
    pub open spec fn contains(self, p: Point3) -> bool {
        &&& self.min.x.at_most(p.x) && p.x.at_most(self.max.x)
        &&& self.min.y.at_most(p.y) && p.y.at_most(self.max.y)
        &&& self.min.z.at_most(p.z) && p.z.at_most(self.max.z)
    }

    /// Whether every point of `inner` lies in the box.
    pub open spec fn encloses(self, inner: Aabb) -> bool {
        self.contains(inner.min) && self.contains(inner.max)
    }

    /// The box whose corners are the component-wise extremes of two boxes' corners.
    pub open spec fn union(box_0: Aabb, box_1: Aabb) -> Aabb {
        Aabb {
            min: Vec3 {
                x: box_0.min.x.lower(box_1.min.x),
                y: box_0.min.y.lower(box_1.min.y),
                z: box_0.min.z.lower(box_1.min.z),
            },
            max: Vec3 {
                x: box_0.max.x.upper(box_1.max.x),
                y: box_0.max.y.upper(box_1.max.y),
                z: box_0.max.z.upper(box_1.max.z),
            },
        }
    }

    /// The lower end of the parameter interval once the first `axes` slabs have
    /// clipped it.
    pub open spec fn clipped_low(slabs: Seq<Slab>, t_min: Scalar, axes: int) -> Scalar {
        if axes <= 0 {
            t_min
        } else if axes == 1 {
            slabs[0].entry().upper(t_min)
        } else if axes == 2 {
            slabs[1].entry().upper(slabs[0].entry().upper(t_min))
        } else {
            slabs[2].entry().upper(slabs[1].entry().upper(slabs[0].entry().upper(t_min)))
        }
    }

    /// The upper end of the parameter interval once the first `axes` slabs have
    /// clipped it.
    pub open spec fn clipped_high(slabs: Seq<Slab>, t_max: Scalar, axes: int) -> Scalar {
        if axes <= 0 {
            t_max
        } else if axes == 1 {
            slabs[0].exit().lower(t_max)
        } else if axes == 2 {
            slabs[1].exit().lower(slabs[0].exit().lower(t_max))
        } else {
            slabs[2].exit().lower(slabs[1].exit().lower(slabs[0].exit().lower(t_max)))
        }
    }

    /// The exhaustive slab test: `[t_min, t_max]` is clipped against all six
    /// bounding planes, and the ray hits when what is left has its upper end
    /// strictly above its lower end.
    pub open spec fn survives(slabs: Seq<Slab>, t_min: Scalar, t_max: Scalar) -> bool {
        !Self::clipped_high(slabs, t_max, 3).at_most(Self::clipped_low(slabs, t_min, 3))
    }

    /// The corner picked by three flags: the upper bound on an axis whose flag is
    /// set, the lower bound otherwise.
    pub open spec fn vertex(self, upper_x: bool, upper_y: bool, upper_z: bool) -> Point3 {
        Vec3 {
            x: if upper_x { self.max.x } else { self.min.x },
            y: if upper_y { self.max.y } else { self.min.y },
            z: if upper_z { self.max.z } else { self.min.z },
        }
    }

    /// The box that starts out empty (lower corner at positive infinity, upper
    /// corner at negative infinity) and is widened by each point in turn.
    pub open spec fn hull(points: Seq<Point3>) -> Aabb
        decreases points.len(),
    {
        if points.len() == 0 {
            Aabb {
                min: Vec3 {
                    x: Scalar { bits: crate::math::scalar::INFINITY_BITS },
                    y: Scalar { bits: crate::math::scalar::INFINITY_BITS },
                    z: Scalar { bits: crate::math::scalar::INFINITY_BITS },
                },
                max: Vec3 {
                    x: Scalar { bits: crate::math::scalar::NEG_INFINITY_BITS },
                    y: Scalar { bits: crate::math::scalar::NEG_INFINITY_BITS },
                    z: Scalar { bits: crate::math::scalar::NEG_INFINITY_BITS },
                },
            }
        } else {
            let rest = Self::hull(points.drop_last());
            let p = points.last();
            Aabb {
                min: Vec3 {
                    x: rest.min.x.lower(p.x),
                    y: rest.min.y.lower(p.y),
                    z: rest.min.z.lower(p.z),
                },
                max: Vec3 {
                    x: rest.max.x.upper(p.x),
                    y: rest.max.y.upper(p.y),
                    z: rest.max.z.upper(p.z),
                },
            }
        }
    }

    pub fn new(min: Point3, max: Point3) -> (b: Aabb)
        ensures
            b == (Aabb { min, max }),
    {
        Aabb { min, max }
    }

    pub fn min(&self) -> (p: Point3)
        ensures
            p == self.min,
    {
        self.min
    }

    pub fn max(&self) -> (p: Point3)
        ensures
            p == self.max,
    {
        self.max
    }

    /// The slab test of a ray against a box, on the ray's crossing parameters
    /// for the three axes in the order x, y, z.
    ///
    /// The axes are clipped in turn and the test gives up at the first axis that
    /// leaves nothing; the answer is that of the exhaustive test all the same.
    pub fn hit(slabs: &[Slab; 3], t_min: Scalar, t_max: Scalar) -> (r: bool)
        ensures
            r == Self::survives(slabs@, t_min, t_max),
    {
        let mut low: Scalar = t_min;
        let mut high: Scalar = t_max;
        let mut a: usize = 0;
        while a < 3
            invariant
                a <= 3,
                low == Self::clipped_low(slabs@, t_min, a as int),
                high == Self::clipped_high(slabs@, t_max, a as int),
                a > 0 ==> !high.at_most(low),
            decreases 3 - a,
        {
            let t0: Scalar = slabs[a].at_min.min(slabs[a].at_max);
            let t1: Scalar = slabs[a].at_min.max(slabs[a].at_max);
            low = t0.max(low);
            high = t1.min(high);
            if high.le(low) {
                return false;
            }
            a = a + 1;
        }
        true
    }

    /// The smallest box that holds both boxes.
    pub fn surrounding_box(box_0: &Aabb, box_1: &Aabb) -> (b: Aabb)
        ensures
            b == Self::union(*box_0, *box_1),
    {
        let small = Point3::new(
            box_0.min().x().min(box_1.min().x()),
            box_0.min().y().min(box_1.min().y()),
            box_0.min().z().min(box_1.min().z()),
        );
        let big = Point3::new(
            box_0.max().x().max(box_1.max().x()),
            box_0.max().y().max(box_1.max().y()),
            box_0.max().z().max(box_1.max().z()),
        );
        Aabb::new(small, big)
    }

    /// One of the eight corners of the box.
    pub fn corner(&self, upper_x: bool, upper_y: bool, upper_z: bool) -> (p: Point3)
        ensures
            p == self.vertex(upper_x, upper_y, upper_z),
    {
        Point3::new(
            if upper_x { self.max.x } else { self.min.x },
            if upper_y { self.max.y } else { self.min.y },
            if upper_z { self.max.z } else { self.min.z },
        )
    }

    /// The eight corners, the x flag changing slowest and the z flag fastest.
    pub open spec fn vertices(self) -> Seq<Point3> {
        Seq::new(8, |n: int| self.vertex(n / 4 == 1, (n / 2) % 2 == 1, n % 2 == 1))
    }

    /// The eight corners of the box.
    pub fn corners(&self) -> (c: Vec<Point3>)
        ensures
            c@ == self.vertices(),
    {
        let mut c: Vec<Point3> = Vec::new();
        let mut n: usize = 0;
        while n < 8
            invariant
                n <= 8,
                c@.len() == n,
                forall|m: int| 0 <= m < n ==> c@[m] == #[trigger] self.vertices()[m],
            decreases 8 - n,
        {
            c.push(self.corner(n / 4 == 1, (n / 2) % 2 == 1, n % 2 == 1));
            n = n + 1;
        }
        c
    }

    /// The smallest box that holds every point of `points`.
    pub fn around(points: &Vec<Point3>) -> (b: Aabb)
        ensures
            b == Self::hull(points@),
    {
        let mut min = Point3::new(Scalar::infinity(), Scalar::infinity(), Scalar::infinity());
        let mut max = Point3::new(
            Scalar::neg_infinity(),
            Scalar::neg_infinity(),
            Scalar::neg_infinity(),
        );
        let mut i: usize = 0;
        while i < points.len()
            invariant
                i <= points.len(),
                (Aabb { min, max }) == Self::hull(points@.take(i as int)),
            decreases points.len() - i,
        {
            let p = points[i];
            proof {
                assert(points@.take(i as int + 1).drop_last() == points@.take(i as int));
            }
            min = Point3::new(min.x().min(p.x()), min.y().min(p.y()), min.z().min(p.z()));
            max = Point3::new(max.x().max(p.x()), max.y().max(p.y()), max.z().max(p.z()));
            i = i + 1;
        }
        proof {
            assert(points@.take(points.len() as int) == points@);
        }
        Aabb { min, max }
    }
}

impl Default for Aabb {
    fn default() -> (b: Aabb)
        ensures
            b == (Aabb { min: Vec3::origin(), max: Vec3::origin() }),
    {
        Aabb { min: Vec3::default(), max: Vec3::default() }
    }
}

/// The union of two well-formed boxes is well-formed, holds both, and lies
/// inside every box that holds both.
pub proof fn lemma_union_is_least(box_0: Aabb, box_1: Aabb, other: Aabb)
    requires
        box_0.wf(),
        box_1.wf(),
    ensures
        Aabb::union(box_0, box_1).wf(),
        Aabb::union(box_0, box_1).encloses(box_0),
        Aabb::union(box_0, box_1).encloses(box_1),
        other.encloses(box_0) && other.encloses(box_1) ==> other.encloses(
            Aabb::union(box_0, box_1),
        ),
{
}

/// The hull of points without NaN holds each of them, and, when there is a
/// point at all, it is well-formed and each of its six bounds is a coordinate
/// of one of the points.
pub proof fn lemma_hull_is_tight(points: Seq<Point3>)
    requires
        forall|i: int|
            0 <= i < points.len() ==> !(#[trigger] points[i]).x.nan() && !points[i].y.nan()
                && !points[i].z.nan(),
    ensures
        forall|i: int| 0 <= i < points.len() ==> Aabb::hull(points).contains(#[trigger] points[i]),
        points.len() > 0 ==> {
            &&& Aabb::hull(points).wf()
            &&& exists|i: int| 0 <= i < points.len() && points[i].x == Aabb::hull(points).min.x
            &&& exists|i: int| 0 <= i < points.len() && points[i].y == Aabb::hull(points).min.y
            &&& exists|i: int| 0 <= i < points.len() && points[i].z == Aabb::hull(points).min.z
            &&& exists|i: int| 0 <= i < points.len() && points[i].x == Aabb::hull(points).max.x
            &&& exists|i: int| 0 <= i < points.len() && points[i].y == Aabb::hull(points).max.y
            &&& exists|i: int| 0 <= i < points.len() && points[i].z == Aabb::hull(points).max.z
        },
    decreases points.len(),
{
    if points.len() > 0 {
        let rest = points.drop_last();
        lemma_hull_is_tight(rest);
        assert forall|i: int| 0 <= i < points.len() implies Aabb::hull(points).contains(
            #[trigger] points[i],
        ) by {
            if i < rest.len() {
                assert(rest[i] == points[i]);
            }
        }
        if rest.len() > 0 {
            // Each bound of the hull is that bound of the hull of the points
            // before the last, where a point has it, or a coordinate of the last.
            let r = Aabb::hull(rest);
            let ix = choose|i: int| 0 <= i < rest.len() && rest[i].x == r.min.x;
            let iy = choose|i: int| 0 <= i < rest.len() && rest[i].y == r.min.y;
            let iz = choose|i: int| 0 <= i < rest.len() && rest[i].z == r.min.z;
            let jx = choose|i: int| 0 <= i < rest.len() && rest[i].x == r.max.x;
            let jy = choose|i: int| 0 <= i < rest.len() && rest[i].y == r.max.y;
            let jz = choose|i: int| 0 <= i < rest.len() && rest[i].z == r.max.z;
            assert(points[ix] == rest[ix] && points[iy] == rest[iy] && points[iz] == rest[iz]);
            assert(points[jx] == rest[jx] && points[jy] == rest[jy] && points[jz] == rest[jz]);
        }
    }
}

} // verus!
