use vstd::prelude::*;
use crate::hittable::HitRecord;
use crate::math::scalar::{Scalar, ONE_BITS};
use crate::math::vec3::{Point3, Vec3};

verus! {

/// A free flight through a medium: how far the ray runs inside the boundary,
/// how far the drawn flight reaches, and where the flight would end (the ray
/// parameter and the point).
#[derive(Clone, Copy, Debug)]
pub struct Flight {
    pub distance_inside: Scalar,
    pub hit_dist: Scalar,
    pub t: Scalar,
    pub point: Point3,
}

/// A medium of constant density inside a boundary. `phase_fn` is the index of
/// the material that scatters the light inside.
#[derive(Clone, Copy, Debug)]
pub struct ConstantMedium {
    pub phase_fn: usize,
}

/// The stretch of the ray inside the medium: entry and exit held to
/// `[t_min, t_max]`, nothing where that leaves no stretch or one of the four
/// parameters is NaN, and the entry not before the ray's origin.
pub open spec fn clipped_span(entry: Scalar, exit: Scalar, t_min: Scalar, t_max: Scalar) -> Option<
    (Scalar, Scalar),
> {
    let t0 = if entry.precedes(t_min) {
        t_min
    } else {
        entry
    };
    let t1 = if t_max.precedes(exit) {
        t_max
    } else {
        exit
    };
    if entry.nan() || exit.nan() || t_min.nan() || t_max.nan() {
        None
    } else if t1.at_most(t0) {
        None
    } else if t0.precedes(Scalar { bits: 0 }) {
        Some((Scalar { bits: 0 }, t1))
    } else {
        Some((t0, t1))
    }
}

/// The record of a scattering inside the medium: no surface, so the normal
/// is the x axis and the hit counts as one from the front.
pub open spec fn scattering_record(flight: Flight, phase_fn: usize) -> HitRecord {
    HitRecord {
        point: flight.point,
        normal: Vec3 { x: Scalar { bits: ONE_BITS }, y: Scalar { bits: 0 }, z: Scalar { bits: 0 } },
        t: flight.t,
        u: Scalar { bits: 0 },
        v: Scalar { bits: 0 },
        front_face: true,
        material: Some(phase_fn),
    }
}

/// What comes of a flight: a scattering where the flight ends within the
/// medium at a finite parameter; nothing where it reaches beyond, or where
/// one of the distances is NaN, as for a ray without direction.
pub open spec fn flight_outcome(flight: Flight, phase_fn: usize) -> Option<HitRecord> {
    if flight.hit_dist.at_most(flight.distance_inside) && flight.t.finite() {
        Some(scattering_record(flight, phase_fn))
    } else {
        None
    }
}

/// Whether `r` can be the hit of a medium, its closures answering as their
/// contracts allow: the boundary is entered, then left, and a flight drawn on
/// the stretch between; each is asked only where the one before gave an answer.
pub open spec fn medium_admits<
    E: Fn() -> Option<Scalar>,
    X: Fn(Scalar) -> Option<Scalar>,
    D: Fn(Scalar, Scalar) -> Flight,
>(phase_fn: usize, t_min: Scalar, t_max: Scalar, enter: E, leave: X, draw: D, r: Option<
    HitRecord,
>) -> bool {
    exists|entry: Option<Scalar>, exit: Option<Scalar>, flight: Flight|
        #[trigger] medium_step(phase_fn, t_min, t_max, enter, leave, draw, entry, exit, flight, r)
}

/// One run through the medium with the closures' answers named.
pub open spec fn medium_step<
    E: Fn() -> Option<Scalar>,
    X: Fn(Scalar) -> Option<Scalar>,
    D: Fn(Scalar, Scalar) -> Flight,
>(
    phase_fn: usize,
    t_min: Scalar,
    t_max: Scalar,
    enter: E,
    leave: X,
    draw: D,
    entry: Option<Scalar>,
    exit: Option<Scalar>,
    flight: Flight,
    r: Option<HitRecord>,
) -> bool {
    &&& call_ensures(enter, (), entry)
    &&& match entry {
        None => r is None,
        Some(t_in) => {
            &&& call_ensures(leave, (t_in,), exit)
            &&& match exit {
                None => r is None,
                Some(t_out) => match clipped_span(t_in, t_out, t_min, t_max) {
                    None => r is None,
                    Some(span) => {
                        &&& call_ensures(draw, (span.0, span.1), flight)
                        &&& r == flight_outcome(flight, phase_fn)
                    },
                },
            }
        },
    }
}

impl ConstantMedium {
    pub fn new(phase_fn: usize) -> (m: Self)
        ensures
            m.phase_fn == phase_fn,
    {
        Self { phase_fn }
    }

    /// Holds the stretch between entry and exit to the interval of the query.
    pub fn clip_span(entry: Scalar, exit: Scalar, t_min: Scalar, t_max: Scalar) -> (r: Option<
        (Scalar, Scalar),
    >)
        ensures
            r == clipped_span(entry, exit, t_min, t_max),
    {
        if entry.is_nan() || exit.is_nan() || t_min.is_nan() || t_max.is_nan() {
            return None;
        }
        let mut t0 = entry;
        let mut t1 = exit;
        if t0.lt(t_min) {
            t0 = t_min;
        }
        if t_max.lt(t1) {
            t1 = t_max;
        }
        if t1.le(t0) {
            return None;
        }
        if t0.lt(Scalar::zero()) {
            t0 = Scalar::zero();
        }
        Some((t0, t1))
    }

    /// The scattering of a ray inside the medium, if the ray scatters before it
    /// leaves.
    ///
    /// `enter` gives the parameter at which the ray's line first meets the
    /// boundary, `leave` the parameter at which it meets the boundary again
    /// after a given entry, and `draw` a random free flight on a stretch of the
    /// ray.
    pub fn hit<
        E: Fn() -> Option<Scalar>,
        X: Fn(Scalar) -> Option<Scalar>,
        D: Fn(Scalar, Scalar) -> Flight,
    >(&self, t_min: Scalar, t_max: Scalar, enter: &E, leave: &X, draw: &D) -> (r: Option<
        HitRecord,
    >)
        requires
            call_requires(*enter, ()),
            forall|t: Scalar| call_requires(*leave, (t,)),
            forall|t0: Scalar, t1: Scalar| call_requires(*draw, (t0, t1)),
        ensures
            medium_admits(self.phase_fn, t_min, t_max, *enter, *leave, *draw, r),
            r is Some ==> r.unwrap().t.finite(),
    {
        let ghost any = Flight {
            distance_inside: Scalar { bits: 0 },
            hit_dist: Scalar { bits: 0 },
            t: Scalar { bits: 0 },
            point: Vec3::origin(),
        };
        let entry = enter();
        let t_in = match entry {
            Some(t) => t,
            None => {
                proof {
                    assert(medium_step(
                        self.phase_fn,
                        t_min,
                        t_max,
                        *enter,
                        *leave,
                        *draw,
                        entry,
                        None,
                        any,
                        None,
                    ));
                }
                return None;
            },
        };
        let exit = leave(t_in);
        let t_out = match exit {
            Some(t) => t,
            None => {
                proof {
                    assert(medium_step(
                        self.phase_fn,
                        t_min,
                        t_max,
                        *enter,
                        *leave,
                        *draw,
                        entry,
                        exit,
                        any,
                        None,
                    ));
                }
                return None;
            },
        };
        let span = match Self::clip_span(t_in, t_out, t_min, t_max) {
            Some(span) => span,
            None => {
                proof {
                    assert(medium_step(
                        self.phase_fn,
                        t_min,
                        t_max,
                        *enter,
                        *leave,
                        *draw,
                        entry,
                        exit,
                        any,
                        None,
                    ));
                }
                return None;
            },
        };
        let flight = draw(span.0, span.1);
        let r = if !flight.hit_dist.le(flight.distance_inside) || !flight.t.is_finite() {
            None
        } else {
            let mut hit_rec = HitRecord::new();
            hit_rec.t = flight.t;
            hit_rec.point = flight.point;
            hit_rec.normal = Vec3::new(Scalar::one(), Scalar::zero(), Scalar::zero());
            hit_rec.front_face = true;
            hit_rec.material = Some(self.phase_fn);
            Some(hit_rec)
        };
        proof {
            assert(medium_step(
                self.phase_fn,
                t_min,
                t_max,
                *enter,
                *leave,
                *draw,
                entry,
                exit,
                flight,
                r,
            ));
        }
        r
    }
}

/// A clipped stretch holds no NaN; it ends within the interval of the query
/// and within the medium, and starts within both and not behind the ray's
/// origin. It is not empty unless the medium lies behind the origin altogether.
pub proof fn lemma_clipped_span_is_inside(
    entry: Scalar,
    exit: Scalar,
    t_min: Scalar,
    t_max: Scalar,
)
    requires
        clipped_span(entry, exit, t_min, t_max) is Some,
    ensures
        ({
            let span = clipped_span(entry, exit, t_min, t_max).unwrap();
            let zero = Scalar { bits: 0 };
            &&& !span.0.nan() && !span.1.nan()
            &&& span.1.at_most(t_max) && span.1.at_most(exit)
            &&& t_min.at_most(span.0) && entry.at_most(span.0) && zero.at_most(span.0)
            &&& zero.precedes(span.1) ==> span.0.precedes(span.1)
        }),
{
}

} // verus!
