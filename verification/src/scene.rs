//! The path tracer's walk: which way a path goes on after each encounter, and
//! where it ends.

use vstd::prelude::*;
use crate::hittable::{HitRecord, HittableList};
use crate::material::{ScatterKind, ScatterRecord};
use crate::math::ray::Ray;
use crate::math::scalar::{Scalar, ONE_BITS};
use crate::math::vec3::{Color, Vec3};

verus! {

/// The objects of a scene, its lights, the colour of the void and the camera.
pub struct Scene<H, L, C> {
    pub hittables: HittableList<H>,
    pub lights: L,
    pub background: Color,
    pub camera: C,
}

impl<H, L, C> Scene<H, L, C> {
    pub fn new(hittables: HittableList<H>, lights: L, background: Color, camera: C) -> (s: Self)
        ensures
            s.hittables == hittables,
            s.lights == lights,
            s.background == background,
            s.camera == camera,
    {
        Self { hittables, lights, background, camera }
    }
}

/// What a ray of type `R` meets in the scene.
pub enum Encounter<R> {
    /// Nothing.
    Miss,
    /// A surface without a material.
    Bare,
    /// A surface that only gives off light.
    Light { emitted: Color },
    /// A surface that sends the ray on as `next` and weakens the light that
    /// comes back along it by `attenuation`.
    Specular { emitted: Color, attenuation: Color, next: R },
    /// A surface from which the direction of `next` was drawn with the given
    /// `density`; `weight` is the attenuation times the density with which the
    /// surface itself scatters that way.
    Diffuse { emitted: Color, weight: Color, density: Scalar, next: R },
}

/// What a surface answers for a ray that hits it: the light it gives off
/// and how it scatters the ray, if it does.
pub struct Shading<P> {
    pub emitted: Color,
    pub scatter: Option<ScatterRecord<P>>,
}

/// A direction drawn at a diffuse surface: the ray that goes on in it, the
/// density with which it was drawn, and the attenuation times the density with
/// which the surface itself scatters that way.
#[derive(Clone, Copy, Debug)]
pub struct Drawn {
    pub weight: Color,
    pub density: Scalar,
    pub next: Ray,
}

/// How the directions at a diffuse surface are drawn.
#[derive(Clone, Copy, Debug, PartialEq, Eq, Structural)]
pub enum Sampling {
    /// From the surface's own distribution alone.
    Surface,
    /// From the even mixture of the surface's distribution and one that aims
    /// at the lights.
    Mixture,
}

/// The way to draw in a scene with the given number of lights: without a
/// light there is nothing to aim at, and the surface's distribution is used
/// alone.
pub fn sampling(lights: usize) -> (r: Sampling)
    ensures
        r == if lights == 0 {
            Sampling::Surface
        } else {
            Sampling::Mixture
        },
{
    if lights == 0 {
        Sampling::Surface
    } else {
        Sampling::Mixture
    }
}

/// What comes of a shaded hit: a surface that scatters nothing, or neither
/// way, is a light; a specular ray is followed as it is; otherwise `drawn` is
/// the direction drawn from the surface's distribution.
pub open spec fn shaded<P>(shading: Shading<P>, drawn: Drawn) -> Encounter<Ray> {
    match shading.scatter {
        None => Encounter::Light { emitted: shading.emitted },
        Some(rec) => match rec.kind_of() {
            ScatterKind::Absorbed => Encounter::Light { emitted: shading.emitted },
            ScatterKind::Specular => Encounter::Specular {
                emitted: shading.emitted,
                attenuation: rec.attenuation,
                next: rec.specular_ray.unwrap(),
            },
            ScatterKind::Diffuse => Encounter::Diffuse {
                emitted: shading.emitted,
                weight: drawn.weight,
                density: drawn.density,
                next: drawn.next,
            },
        },
    }
}

/// Whether `met` can be what a ray meets, given the hit that was found for
/// it: nothing without a hit; a bare surface where the hit names no material
/// or `shade` knows none for it; otherwise what comes of the shading, a
/// direction being drawn only at a diffuse surface.
pub open spec fn meet_admits<
    P,
    S: Fn(HitRecord, usize) -> Option<Shading<P>>,
    D: Fn(HitRecord, P, Color) -> Drawn,
>(hit: Option<HitRecord>, shade: S, draw: D, met: Encounter<Ray>) -> bool {
    match hit {
        None => met is Miss,
        Some(rec) => match rec.material {
            None => met is Bare,
            Some(id) => exists|shading: Option<Shading<P>>, drawn: Drawn|
                #[trigger] meet_step(rec, id, shade, draw, shading, drawn, met),
        },
    }
}

/// One shaded hit with the closures' answers named.
pub open spec fn meet_step<
    P,
    S: Fn(HitRecord, usize) -> Option<Shading<P>>,
    D: Fn(HitRecord, P, Color) -> Drawn,
>(
    rec: HitRecord,
    id: usize,
    shade: S,
    draw: D,
    shading: Option<Shading<P>>,
    drawn: Drawn,
    met: Encounter<Ray>,
) -> bool {
    &&& call_ensures(shade, (rec, id), shading)
    &&& match shading {
        None => met is Bare,
        Some(sh) => {
            &&& met == shaded(sh, drawn)
            &&& sh.scatter is Some && sh.scatter.unwrap().kind_of() is Diffuse ==> call_ensures(
                draw,
                (rec, sh.scatter.unwrap().pdf.unwrap(), sh.scatter.unwrap().attenuation),
                drawn,
            )
        },
    }
}

/// Finds what a ray meets, from the hit that was found for it.
///
/// `shade` gives what the material with an index answers at a hit, or
/// nothing where there is no such material; `draw` draws the next direction
/// at a diffuse surface from the surface's distribution and attenuation.
pub fn meet<P, S: Fn(HitRecord, usize) -> Option<Shading<P>>, D: Fn(HitRecord, P, Color) -> Drawn>(
    hit: Option<HitRecord>,
    shade: &S,
    draw: &D,
) -> (met: Encounter<Ray>)
    requires
        forall|rec: HitRecord, id: usize| call_requires(*shade, (rec, id)),
        forall|rec: HitRecord, pdf: P, attenuation: Color|
            call_requires(*draw, (rec, pdf, attenuation)),
    ensures
        meet_admits(hit, *shade, *draw, met),
{
    let rec = match hit {
        Some(rec) => rec,
        None => {
            return Encounter::Miss;
        },
    };
    let id = match rec.material {
        Some(id) => id,
        None => {
            return Encounter::Bare;
        },
    };
    let ghost any = Drawn {
        weight: Vec3::origin(),
        density: Scalar { bits: 0 },
        next: Ray { origin: Vec3::origin(), direction: Vec3::origin(), time: Scalar { bits: 0 } },
    };
    let shading = shade(rec, id);
    let Shading { emitted, scatter } = match shading {
        Some(sh) => sh,
        None => {
            proof {
                assert(meet_step(rec, id, *shade, *draw, shading, any, Encounter::Bare));
            }
            return Encounter::Bare;
        },
    };
    let scatter_rec = match scatter {
        Some(scatter_rec) => scatter_rec,
        None => {
            let met = Encounter::Light { emitted };
            proof {
                assert(meet_step(rec, id, *shade, *draw, shading, any, met));
            }
            return met;
        },
    };
    match scatter_rec.kind() {
        ScatterKind::Absorbed => {
            let met = Encounter::Light { emitted };
            proof {
                assert(meet_step(rec, id, *shade, *draw, shading, any, met));
            }
            met
        },
        ScatterKind::Specular => {
            let met = Encounter::Specular {
                emitted,
                attenuation: scatter_rec.attenuation,
                next: scatter_rec.specular_ray.unwrap(),
            };
            proof {
                assert(meet_step(rec, id, *shade, *draw, shading, any, met));
            }
            met
        },
        ScatterKind::Diffuse => {
            let attenuation = scatter_rec.attenuation;
            let drawn = draw(rec, scatter_rec.pdf.unwrap(), attenuation);
            let met = Encounter::Diffuse {
                emitted,
                weight: drawn.weight,
                density: drawn.density,
                next: drawn.next,
            };
            proof {
                assert(meet_step(rec, id, *shade, *draw, shading, drawn, met));
            }
            met
        },
    }
}

/// One bounce of a path: the light that the surface gives off, and the
/// colour by which what comes back along the next ray is multiplied, after it
/// has been divided by `density` where there is one.
#[derive(Clone, Copy, Debug)]
pub struct Bounce {
    pub emitted: Color,
    pub weight: Color,
    pub density: Option<Scalar>,
}

/// How a path ends.
#[derive(Clone, Copy, Debug)]
pub enum PathEnd {
    /// The depth is used up: black.
    Exhausted,
    /// The ray left the scene: the background colour.
    Background,
    /// The ray hit a surface without a material: pure red, to stand out.
    Bare,
    /// The ray hit a surface that sends nothing on, or a direction was drawn
    /// whose density is not above zero: the light that the surface gives off.
    Emitted(Color),
}

impl PathEnd {
    /// The colour in which a path ends, in a scene with the given background.
    pub open spec fn colour_in(self, background: Color) -> Color {
        match self {
            PathEnd::Exhausted => Vec3::origin(),
            PathEnd::Background => background,
            PathEnd::Bare => Vec3 {
                x: Scalar { bits: ONE_BITS },
                y: Scalar { bits: 0 },
                z: Scalar { bits: 0 },
            },
            PathEnd::Emitted(c) => c,
        }
    }

    /// The colour in which a path ends.
    pub fn colour(&self, background: Color) -> (c: Color)
        ensures
            c == self.colour_in(background),
    {
        match self {
            PathEnd::Exhausted => Color::default(),
            PathEnd::Background => background,
            PathEnd::Bare => Vec3::new(Scalar::one(), Scalar::zero(), Scalar::zero()),
            PathEnd::Emitted(c) => *c,
        }
    }
}

/// A path through the scene. Its colour is that of `end`, brought back
/// through the bounces from the last to the first: multiplied by the bounce's
/// weight, divided by its density, and added to what the bounce gives off.
pub struct Path {
    pub bounces: Vec<Bounce>,
    pub end: PathEnd,
}

/// Whether the density of a drawn direction cannot be divided by: it is NaN
/// or not above zero.
pub open spec fn degenerate(density: Scalar) -> bool {
    !(Scalar { bits: 0 }).precedes(density)
}

/// What an encounter adds to a path: a bounce, or the path's end.
pub open spec fn outcome<R>(met: Encounter<R>) -> (Option<Bounce>, Option<PathEnd>) {
    match met {
        Encounter::Miss => (None, Some(PathEnd::Background)),
        Encounter::Bare => (None, Some(PathEnd::Bare)),
        Encounter::Light { emitted } => (None, Some(PathEnd::Emitted(emitted))),
        Encounter::Specular { emitted, attenuation, next } => (
            Some(Bounce { emitted, weight: attenuation, density: None }),
            None,
        ),
        Encounter::Diffuse { emitted, weight, density, next } => if degenerate(density) {
            (None, Some(PathEnd::Emitted(emitted)))
        } else {
            (Some(Bounce { emitted, weight, density: Some(density) }), None)
        },
    }
}

/// The ray on which a path goes on after an encounter that did not end it.
pub open spec fn onward<R>(met: Encounter<R>) -> Option<R> {
    match met {
        Encounter::Specular { emitted, attenuation, next } => Some(next),
        Encounter::Diffuse { emitted, weight, density, next } => Some(next),
        _ => None,
    }
}

/// What a look can find: `looking(look)(ray, met)` says that `look`, asked
/// what `ray` meets, may give `met`.
pub open spec fn looking<R, F: Fn(R) -> Encounter<R>>(look: F) -> spec_fn(
    R,
    Encounter<R>,
) -> bool {
    |ray: R, met: Encounter<R>| call_ensures(look, (ray,), met)
}

/// Whether the path from `ray` with `depth` bounces left can consist of
/// `bounces` and end in `end`, where `sees(r, met)` says that the ray `r` may
/// meet `met`.
pub open spec fn trace_admits<R>(
    ray: R,
    depth: nat,
    sees: spec_fn(R, Encounter<R>) -> bool,
    bounces: Seq<Bounce>,
    end: PathEnd,
) -> bool
    decreases depth,
{
    if depth == 0 {
        bounces.len() == 0 && end is Exhausted
    } else {
        exists|met: Encounter<R>|
            {
                &&& #[trigger] sees(ray, met)
                &&& match outcome(met).0 {
                    None => bounces.len() == 0 && Some(end) == outcome(met).1,
                    Some(b) => {
                        &&& bounces.len() > 0
                        &&& bounces[0] == b
                        &&& trace_admits(
                            onward(met).unwrap(),
                            (depth - 1) as nat,
                            sees,
                            bounces.drop_first(),
                            end,
                        )
                    },
                }
            }
    }
}

/// A path has at most as many bounces as its depth allows.
pub proof fn lemma_path_is_bounded<R>(
    ray: R,
    depth: nat,
    sees: spec_fn(R, Encounter<R>) -> bool,
    bounces: Seq<Bounce>,
    end: PathEnd,
)
    requires
        trace_admits(ray, depth, sees, bounces, end),
    ensures
        bounces.len() <= depth,
        bounces.len() == depth ==> end is Exhausted,
    decreases depth,
{
    if depth > 0 {
        let met = choose|met: Encounter<R>|
            {
                &&& #[trigger] sees(ray, met)
                &&& match outcome(met).0 {
                    None => bounces.len() == 0 && Some(end) == outcome(met).1,
                    Some(b) => {
                        &&& bounces.len() > 0
                        &&& bounces[0] == b
                        &&& trace_admits(
                            onward(met).unwrap(),
                            (depth - 1) as nat,
                            sees,
                            bounces.drop_first(),
                            end,
                        )
                    },
                }
            };
        if outcome(met).0 is Some {
            lemma_path_is_bounded(
                onward(met).unwrap(),
                (depth - 1) as nat,
                sees,
                bounces.drop_first(),
                end,
            );
        }
    }
}

/// Decides what an encounter adds to the path.
pub fn classify<R>(met: Encounter<R>) -> (r: (Option<Bounce>, Option<PathEnd>, Option<R>))
    ensures
        r.0 == outcome(met).0,
        r.1 == outcome(met).1,
        r.0 is Some ==> r.2 == onward(met) && r.2 is Some,
        r.0 is Some <==> r.1 is None,
{
    match met {
        Encounter::Miss => (None, Some(PathEnd::Background), None),
        Encounter::Bare => (None, Some(PathEnd::Bare), None),
        Encounter::Light { emitted } => (None, Some(PathEnd::Emitted(emitted)), None),
        Encounter::Specular { emitted, attenuation, next } => (
            Some(Bounce { emitted, weight: attenuation, density: None }),
            None,
            Some(next),
        ),
        Encounter::Diffuse { emitted, weight, density, next } => {
            if Scalar::zero().lt(density) {
                (Some(Bounce { emitted, weight, density: Some(density) }), None, Some(next))
            } else {
                (None, Some(PathEnd::Emitted(emitted)), None)
            }
        },
    }
}

fn trace_from<R, F: Fn(R) -> Encounter<R>>(
    ray: R,
    depth: u64,
    look: &F,
    bounces: &mut Vec<Bounce>,
) -> (end: PathEnd)
    requires
        forall|r: R| call_requires(*look, (r,)),
    ensures
        old(bounces)@.len() <= final(bounces)@.len(),
        final(bounces)@.subrange(0, old(bounces)@.len() as int) == old(bounces)@,
        trace_admits(
            ray,
            depth as nat,
            looking(*look),
            final(bounces)@.subrange(old(bounces)@.len() as int, final(bounces)@.len() as int),
            end,
        ),
    decreases depth,
{
    let ghost start = bounces@.len() as int;
    if depth == 0 {
        return PathEnd::Exhausted;
    }
    let met = look(ray);
    let (bounce, ended, next) = classify(met);
    match bounce {
        None => {
            proof {
                assert(looking(*look)(ray, met));
            }
            ended.unwrap()
        },
        Some(b) => {
            bounces.push(b);
            let end = trace_from(next.unwrap(), depth - 1, look, bounces);
            proof {
                // What follows the given bounces is `b` and what the rest of
                // the path has added.
                let all = bounces@;
                let added = all.subrange(start, all.len() as int);
                assert(all[start] == all.subrange(0, start + 1)[start]);
                assert(added.drop_first() == all.subrange(start + 1, all.len() as int));
                assert(looking(*look)(ray, met));
            }
            end
        },
    }
}

/// Walks the path of a ray through the scene, `depth` bounces at most.
///
/// `look` finds what a ray meets. With no depth left the path is black; a
/// ray that meets nothing ends in the background; a surface without material
/// ends in red; a surface that scatters nothing ends in its own light; a
/// specular surface sends the path on with its attenuation; a diffuse one
/// sends it on with its weight over the density of the drawn direction, unless
/// that density cannot be divided by, which ends the path in the surface's
/// own light.
pub fn ray_color<R, F: Fn(R) -> Encounter<R>>(ray: R, depth: u64, look: &F) -> (path: Path)
    requires
        forall|r: R| call_requires(*look, (r,)),
    ensures
        trace_admits(ray, depth as nat, looking(*look), path.bounces@, path.end),
        path.bounces@.len() <= depth,
{
    let mut bounces: Vec<Bounce> = Vec::new();
    let end = trace_from(ray, depth, look, &mut bounces);
    proof {
        assert(bounces@.subrange(0, bounces@.len() as int) == bounces@);
        lemma_path_is_bounded(ray, depth as nat, looking(*look), bounces@, end);
    }
    Path { bounces, end }
}

} // verus!
