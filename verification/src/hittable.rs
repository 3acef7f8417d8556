//! Hit records and the linear aggregate of objects.

use vstd::prelude::*;
use crate::math::aabb::{lemma_union_is_least, Aabb};
use crate::math::scalar::Scalar;
use crate::math::vec3::{Point3, Vec3};
use crate::random::random_below;

verus! {

/// What is known of the place where a ray meets a surface.
///
/// `material` is the index of the surface's material in the scene's table of
/// materials; many records name the same one.
#[derive(Clone, Copy, Debug)]
pub struct HitRecord {
    pub point: Point3,
    pub normal: Vec3,
    pub t: Scalar,
    pub u: Scalar,
    pub v: Scalar,
    pub front_face: bool,
    pub material: Option<usize>,
}

impl HitRecord {
    /// The record with the normal turned against the ray: the ray meets the
    /// front when `facing`, the dot product of its direction with the outward
    /// normal, is below zero.
    pub open spec fn faced(self, facing: Scalar, outward_normal: Vec3) -> HitRecord {
        let front = facing.precedes(Scalar { bits: 0 });
        HitRecord {
            front_face: front,
            normal: if front { outward_normal } else { outward_normal.negated() },
            ..self
        }
    }

    /// The record seen from the other side of the surface.
    pub open spec fn flipped(self) -> HitRecord {
        HitRecord { front_face: !self.front_face, ..self }
    }

    pub fn new() -> (rec: HitRecord)
        ensures
            rec.point == Vec3::origin(),
            rec.normal == Vec3::origin(),
            rec.t.bits == 0 && rec.u.bits == 0 && rec.v.bits == 0,
            !rec.front_face,
            rec.material is None,
    {
        HitRecord {
            point: Point3::default(),
            normal: Vec3::default(),
            t: Scalar::zero(),
            u: Scalar::zero(),
            v: Scalar::zero(),
            front_face: false,
            material: None,
        }
    }

    /// Records on which side the ray arrives and turns the normal against it.
    /// `facing` is the dot product of the ray's direction with `outward_normal`.
    pub fn set_face_normal(&mut self, facing: Scalar, outward_normal: &Vec3)
        ensures
            *final(self) == old(self).faced(facing, *outward_normal),
    {
        self.front_face = facing.lt(Scalar::zero());
        self.normal = if self.front_face {
            *outward_normal
        } else {
            outward_normal.neg()
        };
    }

    /// Inverts the side on which the hit is taken to lie, as a surface does
    /// that is to be seen from behind.
    pub fn flip_face(&mut self)
        ensures
            *final(self) == old(self).flipped(),
    {
        self.front_face = !self.front_face;
    }
}

/// Of two candidate hits the one with the smaller parameter, the second where
/// the first is not strictly nearer; the one that exists where only one does.
pub open spec fn nearer(first: Option<HitRecord>, second: Option<HitRecord>) -> Option<
    HitRecord,
> {
    match (first, second) {
        (Some(a), Some(b)) => if a.t.precedes(b.t) {
            first
        } else {
            second
        },
        (Some(_), None) => first,
        _ => second,
    }
}

/// Picks between the hits that two subtrees report.
pub fn pick_nearer(first: Option<HitRecord>, second: Option<HitRecord>) -> (r: Option<
    HitRecord,
>)
    ensures
        r == nearer(first, second),
{
    match (first, second) {
        (Some(a), Some(b)) => if a.t.lt(b.t) {
            first
        } else {
            second
        },
        (Some(_), None) => first,
        _ => second,
    }
}

/// The upper end of the interval in which the next object is probed: the
/// parameter of the closest hit so far, or `t_max` before any hit.
pub open spec fn limit_after(best: Option<HitRecord>, t_max: Scalar) -> Scalar {
    match best {
        Some(rec) => rec.t,
        None => t_max,
    }
}

/// What a probe can answer: `probing(probe)(i, limit, out)` says that `probe`,
/// asked for object `i` up to `limit`, may give `out`.
pub open spec fn probing<F: Fn(usize, Scalar) -> Option<HitRecord>>(probe: F) -> spec_fn(
    usize,
    Scalar,
    Option<HitRecord>,
) -> bool {
    |i: usize, limit: Scalar, out: Option<HitRecord>| call_ensures(probe, (i, limit), out)
}

/// What a bound can answer: `bounding(bound)(i, out)` says that `bound`, asked
/// for the box of object `i`, may give `out`.
pub open spec fn bounding<F: Fn(usize) -> Option<Aabb>>(bound: F) -> spec_fn(
    usize,
    Option<Aabb>,
) -> bool {
    |i: usize, out: Option<Aabb>| call_ensures(bound, (i,), out)
}

/// One step of the scan: after the best hit `prev`, object `i` answers `cur`
/// within the interval that `prev` has left, and `r` is the best of both.
pub open spec fn scan_step(
    answers: spec_fn(usize, Scalar, Option<HitRecord>) -> bool,
    i: usize,
    t_max: Scalar,
    prev: Option<HitRecord>,
    cur: Option<HitRecord>,
    r: Option<HitRecord>,
) -> bool {
    &&& answers(i, limit_after(prev, t_max), cur)
    &&& r == if cur is Some {
        cur
    } else {
        prev
    }
}

/// Whether `r` can come out of probing the objects `0..count` in order, each
/// within the interval that the hits before it have left.
pub open spec fn scan_admits(
    count: nat,
    t_max: Scalar,
    answers: spec_fn(usize, Scalar, Option<HitRecord>) -> bool,
    r: Option<HitRecord>,
) -> bool
    decreases count,
{
    if count == 0 {
        r is None
    } else {
        exists|prev: Option<HitRecord>, cur: Option<HitRecord>|
            {
                &&& scan_admits((count - 1) as nat, t_max, answers, prev)
                &&& #[trigger] scan_step(answers, (count - 1) as usize, t_max, prev, cur, r)
            }
    }
}

/// One step of folding boxes: after `prev`, object `i` answers `cur` (it is
/// not asked once a box was missing) and `r` is what comes of both.
pub open spec fn fold_step(
    answers: spec_fn(usize, Option<Aabb>) -> bool,
    i: usize,
    prev: Option<Aabb>,
    cur: Option<Aabb>,
    r: Option<Aabb>,
) -> bool {
    match prev {
        None => r is None,
        Some(so_far) => {
            &&& answers(i, cur)
            &&& r == match cur {
                None => None::<Aabb>,
                Some(b) => Some(Aabb::union(so_far, b)),
            }
        },
    }
}

/// Whether `r` can come out of folding the boxes of the objects `0..count`,
/// of which there is at least one: no box as soon as one object has none, and
/// no object asked after that.
pub open spec fn fold_admits(
    count: nat,
    answers: spec_fn(usize, Option<Aabb>) -> bool,
    r: Option<Aabb>,
) -> bool
    decreases count,
{
    if count <= 1 {
        count == 1 && answers(0usize, r)
    } else {
        exists|prev: Option<Aabb>, cur: Option<Aabb>|
            {
                &&& fold_admits((count - 1) as nat, answers, prev)
                &&& #[trigger] fold_step(answers, (count - 1) as usize, prev, cur, r)
            }
    }
}

/// An object turned about the y axis, with the box of the turned object.
#[derive(Clone, Copy, Debug)]
pub struct RotateY {
    pub sin_theta: Scalar,
    pub cos_theta: Scalar,
    pub aabb: Option<Aabb>,
}

/// Whether `turned` can be the images of `points` under `turn`, one for one.
pub open spec fn images<F: Fn(Point3) -> Point3>(
    turn: F,
    points: Seq<Point3>,
    turned: Seq<Point3>,
) -> bool {
    &&& turned.len() == points.len()
    &&& forall|i: int|
        0 <= i < points.len() ==> call_ensures(turn, (points[i],), #[trigger] turned[i])
}

impl RotateY {
    /// The turn by the angle whose sine and cosine are given, of an object
    /// whose box is `aabb`. `turn` turns a point; the box of the turned object
    /// is the smallest one around the turned corners of `aabb`.
    pub fn new<F: Fn(Point3) -> Point3>(
        sin_theta: Scalar,
        cos_theta: Scalar,
        aabb: &Aabb,
        turn: &F,
    ) -> (r: Self)
        requires
            forall|p: Point3| call_requires(*turn, (p,)),
        ensures
            r.sin_theta == sin_theta,
            r.cos_theta == cos_theta,
            exists|turned: Seq<Point3>|
                #[trigger] images(*turn, aabb.vertices(), turned) && r.aabb == Some(
                    Aabb::hull(turned),
                ),
    {
        let corners = aabb.corners();
        let mut turned: Vec<Point3> = Vec::new();
        let mut n: usize = 0;
        while n < corners.len()
            invariant
                n <= corners@.len(),
                forall|p: Point3| call_requires(*turn, (p,)),
                turned@.len() == n,
                forall|i: int|
                    0 <= i < n ==> call_ensures(*turn, (corners@[i],), #[trigger] turned@[i]),
            decreases corners@.len() - n,
        {
            turned.push(turn(corners[n]));
            n = n + 1;
        }
        let around = Aabb::around(&turned);
        proof {
            assert(images(*turn, aabb.vertices(), turned@));
        }
        Self { sin_theta, cos_theta, aabb: Some(around) }
    }

    /// The box that was computed when the turn was made.
    pub fn bounding_box(&self) -> (b: Option<Aabb>)
        ensures
            b == self.aabb,
    {
        self.aabb
    }
}

/// A list of scene objects, probed one after the other.
pub struct HittableList<T> {
    pub objects: Vec<T>,
}

impl<T> HittableList<T> {
    pub fn new() -> (list: Self)
        ensures
            list.objects@.len() == 0,
    {
        Self { objects: Vec::new() }
    }

    pub fn add(&mut self, object: T)
        ensures
            final(self).objects@ == old(self).objects@.push(object),
    {
        self.objects.push(object);
    }

    pub fn clear(&mut self)
        ensures
            final(self).objects@.len() == 0,
    {
        self.objects.clear()
    }

    pub fn objects(&self) -> (objects: &Vec<T>)
        ensures
            objects == &self.objects,
    {
        &self.objects
    }

    /// The index of an object of the list, drawn at random; none where the
    /// list is empty.
    pub fn random_index(&self) -> (r: Option<usize>)
        ensures
            r is None <==> self.objects@.len() == 0,
            r is Some ==> r.unwrap() < self.objects@.len(),
    {
        if self.objects.len() == 0 {
            None
        } else {
            Some(random_below(self.objects.len()))
        }
    }

    /// The closest hit among the objects. `probe` intersects the object at an
    /// index of the list with the ray, from the ray's `t_min` up to the limit it
    /// is given; each object is asked only for a hit at or before the closest
    /// one found so far.
    pub fn hit<F: Fn(usize, Scalar) -> Option<HitRecord>>(&self, t_max: Scalar, probe: &F) -> (r:
        Option<HitRecord>)
        requires
            forall|i: usize, limit: Scalar|
                i < self.objects@.len() ==> call_requires(*probe, (i, limit)),
        ensures
            scan_admits(self.objects@.len(), t_max, probing(*probe), r),
    {
        let mut closest_so_far = t_max;
        let mut hit: Option<HitRecord> = None;
        let mut i: usize = 0;
        while i < self.objects.len()
            invariant
                i <= self.objects@.len(),
                forall|k: usize, limit: Scalar|
                    k < self.objects@.len() ==> call_requires(*probe, (k, limit)),
                scan_admits(i as nat, t_max, probing(*probe), hit),
                closest_so_far == limit_after(hit, t_max),
            decreases self.objects@.len() - i,
        {
            let ghost prev = hit;
            let found = probe(i, closest_so_far);
            if let Some(temp_rec) = found {
                closest_so_far = temp_rec.t;
                hit = Some(temp_rec);
            }
            proof {
                let count = (i + 1) as nat;
                assert(scan_step(probing(*probe), (count - 1) as usize, t_max, prev, found, hit));
            }
            i = i + 1;
        }
        hit
    }

    /// The box around all the objects, or none if the list is empty or some
    /// object has none. `bound` gives the box of the object at an index of the list.
    pub fn bounding_box<F: Fn(usize) -> Option<Aabb>>(&self, bound: &F) -> (r: Option<Aabb>)
        requires
            forall|i: usize| i < self.objects@.len() ==> call_requires(*bound, (i,)),
        ensures
            self.objects@.len() == 0 ==> r is None,
            self.objects@.len() > 0 ==> fold_admits(self.objects@.len(), bounding(*bound), r),
    {
        if self.objects.len() == 0 {
            return None;
        }
        let mut output_box: Option<Aabb> = bound(0);
        let mut i: usize = 1;
        while i < self.objects.len()
            invariant
                1 <= i <= self.objects@.len(),
                forall|k: usize| k < self.objects@.len() ==> call_requires(*bound, (k,)),
                fold_admits(i as nat, bounding(*bound), output_box),
            decreases self.objects@.len() - i,
        {
            let ghost count = (i + 1) as nat;
            match output_box {
                None => {
                    proof {
                        assert(fold_step(bounding(*bound), (count - 1) as usize, None, None, None));
                    }
                },
                Some(so_far) => {
                    let cur = bound(i);
                    output_box =
                    match cur {
                        Some(temp_box) => Some(Aabb::surrounding_box(&so_far, &temp_box)),
                        None => None,
                    };
                    proof {
                        assert(fold_step(
                            bounding(*bound),
                            (count - 1) as usize,
                            Some(so_far),
                            cur,
                            output_box,
                        ));
                    }
                },
            }
            i = i + 1;
        }
        output_box
    }
}

/// A hit that is kept only where it lies at or before `limit`.
pub open spec fn within(hit: Option<HitRecord>, limit: Scalar) -> Option<HitRecord> {
    match hit {
        Some(rec) => if rec.t.at_most(limit) {
            hit
        } else {
            None
        },
        None => None,
    }
}

/// Whether `out` is the closest of the hits that `raw` gives for the objects
/// `0..count`: none where no object is hit, otherwise the hit of one of them,
/// with no other hit before it.
pub open spec fn nearest_of(
    count: nat,
    raw: spec_fn(usize) -> Option<HitRecord>,
    out: Option<HitRecord>,
) -> bool {
    match out {
        None => forall|i: usize| i < count ==> (#[trigger] raw(i)) is None,
        Some(rec) => {
            &&& exists|i: usize| i < count && #[trigger] raw(i) == out
            &&& forall|j: usize|
                j < count && (#[trigger] raw(j)) is Some ==> rec.t.at_most(raw(j).unwrap().t)
        },
    }
}

/// The scan of a list reports the closest hit of all its objects.
///
/// It is asked that object `i`, probed up to a limit, answers with the hit
/// `raw(i)` where that lies at or before the limit and with nothing otherwise,
/// and that the hits' parameters are no NaN and at most `t_max`.
pub proof fn lemma_scan_is_nearest(
    count: nat,
    t_max: Scalar,
    answers: spec_fn(usize, Scalar, Option<HitRecord>) -> bool,
    raw: spec_fn(usize) -> Option<HitRecord>,
    out: Option<HitRecord>,
)
    requires
        count <= usize::MAX,
        scan_admits(count, t_max, answers, out),
        !t_max.nan(),
        forall|i: usize, limit: Scalar, x: Option<HitRecord>|
            i < count && #[trigger] answers(i, limit, x) ==> x == within(raw(i), limit),
        forall|i: usize|
            i < count && raw(i) is Some ==> !(#[trigger] raw(i)).unwrap().t.nan() && raw(
                i,
            ).unwrap().t.at_most(t_max),
    ensures
        nearest_of(count, raw, out),
    decreases count,
{
    if count > 0 {
        let (prev, cur) = choose|prev: Option<HitRecord>, cur: Option<HitRecord>|
            {
                &&& scan_admits((count - 1) as nat, t_max, answers, prev)
                &&& #[trigger] scan_step(answers, (count - 1) as usize, t_max, prev, cur, out)
            };
        lemma_scan_is_nearest((count - 1) as nat, t_max, answers, raw, prev);
        // The last object answers with its hit unless a hit before it is nearer.
        assert(cur == within(raw((count - 1) as usize), limit_after(prev, t_max)));
        if prev is Some {
            let i = choose|i: usize| i < count - 1 && #[trigger] raw(i) == prev;
            assert(i < count);
        }
    }
}

/// The box of a list is missing exactly when the box of one of its objects
/// is; otherwise it is the smallest box that holds the boxes of all the
/// objects, where those are well-formed.
///
/// It is asked that object `i` answers with `boxes(i)`.
pub proof fn lemma_fold_is_union(
    count: nat,
    answers: spec_fn(usize, Option<Aabb>) -> bool,
    boxes: spec_fn(usize) -> Option<Aabb>,
    r: Option<Aabb>,
    other: Aabb,
)
    requires
        1 <= count <= usize::MAX,
        fold_admits(count, answers, r),
        forall|i: usize, x: Option<Aabb>| i < count && #[trigger] answers(i, x) ==> x == boxes(i),
    ensures
        r is None <==> exists|i: usize| i < count && (#[trigger] boxes(i)) is None,
        r is Some && (forall|i: usize| i < count ==> (#[trigger] boxes(i)).unwrap().wf()) ==> {
            &&& r.unwrap().wf()
            &&& forall|i: usize| i < count ==> r.unwrap().encloses((#[trigger] boxes(i)).unwrap())
            &&& (forall|i: usize| i < count ==> other.encloses((#[trigger] boxes(i)).unwrap()))
                ==> other.encloses(r.unwrap())
        },
    decreases count,
{
    if count > 1 {
        let (prev, cur) = choose|prev: Option<Aabb>, cur: Option<Aabb>|
            {
                &&& fold_admits((count - 1) as nat, answers, prev)
                &&& #[trigger] fold_step(answers, (count - 1) as usize, prev, cur, r)
            };
        lemma_fold_is_union((count - 1) as nat, answers, boxes, prev, other);
        match prev {
            None => {
                let i = choose|i: usize| i < count - 1 && (#[trigger] boxes(i)) is None;
                assert(i < count);
            },
            Some(so_far) => {
                assert(cur == boxes((count - 1) as usize));
                if cur is Some && forall|i: usize|
                    i < count ==> (#[trigger] boxes(i)).unwrap().wf() {
                    lemma_union_is_least(so_far, cur.unwrap(), other);
                }
            },
        }
    }
}

} // verus!
