//! What a surface does with the light that reaches it, as far as it is
//! decided by comparing scalars.

use vstd::prelude::*;
use crate::math::ray::Ray;
use crate::math::scalar::{Scalar, ONE_BITS};
use crate::math::vec3::{Color, Vec3};

verus! {

/// What a material answers for a ray that hits it: a ray that continues the
/// path as a mirror or a lens would, or a distribution `pdf` from which the
/// next direction is to be drawn, with the colour by which the light is weakened.
pub struct ScatterRecord<P> {
    pub specular_ray: Option<Ray>,
    pub attenuation: Color,
    pub pdf: Option<P>,
}

/// The three ways in which a path goes on after a hit.
#[derive(Clone, Copy, Debug, PartialEq, Eq, Structural)]
pub enum ScatterKind {
    /// Neither a ray nor a distribution: the light ends here.
    Absorbed,
    /// A ray is given, and followed as it is.
    Specular,
    /// A distribution is given, and the next direction is drawn.
    Diffuse,
}

impl<P> ScatterRecord<P> {
    /// How the path goes on: a specular ray comes before a distribution.
    pub open spec fn kind_of(&self) -> ScatterKind {
        if self.specular_ray is Some {
            ScatterKind::Specular
        } else if self.pdf is Some {
            ScatterKind::Diffuse
        } else {
            ScatterKind::Absorbed
        }
    }

    pub fn new() -> (rec: Self)
        ensures
            rec.specular_ray is None,
            rec.attenuation == Vec3::origin(),
            rec.pdf is None,
    {
        Self { specular_ray: None, attenuation: Color::default(), pdf: None }
    }

    pub fn kind(&self) -> (k: ScatterKind)
        ensures
            k == self.kind_of(),
    {
        if self.specular_ray.is_some() {
            ScatterKind::Specular
        } else if self.pdf.is_some() {
            ScatterKind::Diffuse
        } else {
            ScatterKind::Absorbed
        }
    }
}

/// A diffuse surface: it scatters by a distribution around the normal.
pub struct Lambertian<T> {
    pub albedo: T,
}

impl<T> Lambertian<T> {
    /// The density of scattering into a direction: zero below the surface,
    /// `density` (the cosine over pi) otherwise.
    pub open spec fn density_for(cosine: Scalar, density: Scalar) -> Scalar {
        if cosine.precedes(Scalar { bits: 0 }) {
            Scalar { bits: 0 }
        } else {
            density
        }
    }

    pub fn new(albedo: T) -> (m: Self)
        ensures
            m.albedo == albedo,
    {
        Self { albedo }
    }

    /// The scatter record of a hit: `attenuation` is the texture's colour at
    /// the hit and `pdf` the cosine distribution around the hit's normal.
    pub fn scatter<P>(&self, attenuation: Color, pdf: P) -> (rec: ScatterRecord<P>)
        ensures
            rec.specular_ray is None,
            rec.attenuation == attenuation,
            rec.pdf == Some(pdf),
    {
        ScatterRecord { specular_ray: None, attenuation, pdf: Some(pdf) }
    }

    /// The density with which the surface scatters into a direction whose
    /// cosine with the normal is `cosine`; `density` is that cosine over pi.
    pub fn scattering_pdf(cosine: Scalar, density: Scalar) -> (r: Scalar)
        ensures
            r == Self::density_for(cosine, density),
    {
        if cosine.lt(Scalar::zero()) {
            Scalar::zero()
        } else {
            density
        }
    }
}

/// A mirror, more or less polished.
#[derive(Clone, Copy, Debug)]
pub struct Metal {
    pub albedo: Color,
    pub fuzz: Scalar,
}

impl Metal {
    /// The fuzz that a metal is made with: the given one where it is below 1,
    /// otherwise 1.
    pub open spec fn capped(fuzz: Scalar) -> Scalar {
        if fuzz.precedes(Scalar { bits: ONE_BITS }) {
            fuzz
        } else {
            Scalar { bits: ONE_BITS }
        }
    }

    pub fn new(albedo: Color, fuzz: Scalar) -> (m: Self)
        ensures
            m.albedo == albedo,
            m.fuzz == Self::capped(fuzz),
    {
        Self {
            albedo,
            fuzz: if fuzz.lt(Scalar::one()) {
                fuzz
            } else {
                Scalar::one()
            },
        }
    }

    /// The scatter record for the reflected and fuzzed ray `reflected`, whose
    /// direction has the dot product `facing` with the surface normal: none
    /// unless the ray leaves the surface (`facing` above zero).
    pub fn scatter<P>(&self, reflected: Ray, facing: Scalar) -> (r: Option<ScatterRecord<P>>)
        ensures
            r is Some <==> (Scalar { bits: 0 }).precedes(facing),
            r is Some ==> r.unwrap().specular_ray == Some(reflected) && r.unwrap().attenuation
                == self.albedo && r.unwrap().pdf is None,
    {
        if Scalar::zero().lt(facing) {
            Some(
                ScatterRecord { specular_ray: Some(reflected), attenuation: self.albedo, pdf: None },
            )
        } else {
            None
        }
    }
}

/// Glass and the like.
#[derive(Clone, Copy, Debug)]
pub struct Dielectric {
    pub ior: Scalar,
}

impl Dielectric {
    /// Whether the ray is reflected: always where it cannot be refracted (the
    /// refraction ratio times the sine of the angle of incidence is above 1),
    /// otherwise when the reflectance is above the drawn sample.
    pub open spec fn reflected(bend: Scalar, reflectance: Scalar, sample: Scalar) -> bool {
        (Scalar { bits: ONE_BITS }).precedes(bend) || sample.precedes(reflectance)
    }

    pub fn new(ior: Scalar) -> (m: Self)
        ensures
            m.ior == ior,
    {
        Self { ior }
    }

    /// Decides between reflection and refraction. `bend` is the refraction
    /// ratio times the sine of the angle of incidence, `reflectance` is
    /// Schlick's approximation at that angle, `sample` is drawn from `[0, 1)`.
    pub fn reflects(bend: Scalar, reflectance: Scalar, sample: Scalar) -> (r: bool)
        ensures
            r == Self::reflected(bend, reflectance, sample),
    {
        Scalar::one().lt(bend) || sample.lt(reflectance)
    }

    /// The scatter record of a hit: always a specular ray, the reflected or the
    /// refracted one, and light that is not weakened.
    pub fn scatter<P>(
        &self,
        bend: Scalar,
        reflectance: Scalar,
        sample: Scalar,
        reflected: Ray,
        refracted: Ray,
    ) -> (rec: ScatterRecord<P>)
        ensures
            rec.pdf is None,
            rec.attenuation == (Vec3 {
                x: Scalar { bits: ONE_BITS },
                y: Scalar { bits: ONE_BITS },
                z: Scalar { bits: ONE_BITS },
            }),
            rec.specular_ray == Some(
                if Self::reflected(bend, reflectance, sample) {
                    reflected
                } else {
                    refracted
                },
            ),
    {
        let ray = if Self::reflects(bend, reflectance, sample) {
            reflected
        } else {
            refracted
        };
        ScatterRecord {
            specular_ray: Some(ray),
            attenuation: Vec3::new(Scalar::one(), Scalar::one(), Scalar::one()),
            pdf: None,
        }
    }
}

/// A surface that gives off light from its front.
pub struct DiffuseLight<T> {
    pub emit: T,
}

impl<T> DiffuseLight<T> {
    pub fn new(emit: T) -> (m: Self)
        ensures
            m.emit == emit,
    {
        Self { emit }
    }

    /// The light given off towards a ray: the texture's colour `sampled` where
    /// the ray meets the front, none where it meets the back.
    pub fn emitted(&self, front_face: bool, sampled: Color) -> (c: Color)
        ensures
            c == if front_face {
                sampled
            } else {
                Vec3::origin()
            },
    {
        if !front_face {
            Color::default()
        } else {
            sampled
        }
    }
}

/// The phase function of a medium that scatters evenly in all directions.
pub struct Isotropic<T> {
    pub albedo: T,
}

impl<T> Isotropic<T> {
    pub fn new(albedo: T) -> (m: Self)
        ensures
            m.albedo == albedo,
    {
        Self { albedo }
    }

    /// The scatter record of a scattering inside the medium: `attenuation` is
    /// the texture's colour at the place and `pdf` the distribution that is
    /// even over all directions.
    pub fn scatter<P>(&self, attenuation: Color, pdf: P) -> (rec: ScatterRecord<P>)
        ensures
            rec.specular_ray is None,
            rec.attenuation == attenuation,
            rec.pdf == Some(pdf),
    {
        ScatterRecord { specular_ray: None, attenuation, pdf: Some(pdf) }
    }
}

} // verus!
