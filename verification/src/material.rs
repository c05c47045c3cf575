use crate::scalar::{Scalar, ONE_BITS, ZERO_BITS};
use crate::vector::{white, Color3, Vector3};
use vstd::prelude::*;

verus! {

/// A surface, of one of three kinds.
#[derive(Clone, Copy, Debug, PartialEq, Eq, Structural)]
pub enum Material {
    /// Matte: light leaves in a random direction around the normal, tinted
    /// by `albedo`.
    Lambertian { albedo: Color3 },
    /// Polished: light is reflected, perturbed by `fuzziness` times a random
    /// direction, and tinted by `albedo`.
    Mirror { albedo: Color3, fuzziness: Scalar },
    /// Transparent: light is reflected or refracted, never lost or tinted.
    Dielectric { refractive_index: Scalar },
}

/// What the caller measured where the ray meets the surface. Each kind of
/// surface reads its own fields and ignores the others.
#[derive(Clone, Copy, Debug, PartialEq, Eq, Structural)]
pub struct Incidence {
    /// Matte: the sum of the normal and the random direction.
    pub sum: Vector3,
    /// Polished: the dot product of the perturbed reflection with the normal.
    pub outward: Scalar,
    /// Transparent: the sine of the angle of incidence times the ratio of the
    /// refractive indices.
    pub bend: Scalar,
    /// Transparent: the share of the light that is reflected at this angle.
    pub reflectance: Scalar,
}

/// The direction in which the light leaves.
#[derive(Clone, Copy, Debug, PartialEq, Eq, Structural)]
pub enum Bounce {
    /// Along the normal plus the random direction.
    Diffuse,
    /// Along the normal alone.
    Normal,
    /// Along the reflection of the incoming direction.
    Reflect,
    /// Along the refraction of the incoming direction.
    Refract,
}

/// Light that leaves a surface: the way it goes, and the share of each
/// colour that the surface lets through.
#[derive(Clone, Copy, Debug, PartialEq, Eq, Structural)]
pub struct ScatteredHit {
    pub bounce: Bounce,
    pub attenuation: Color3,
}

/// The ray meets the surface from outside: the dot product of its direction
/// with the normal is below zero.
pub open spec fn from_outside(along: Scalar) -> bool {
    along.below(Scalar { bits: ZERO_BITS })
}

/// Whether the ray enters the body (`true`) or leaves it, from the dot
/// product of its direction with the normal. A ray that leaves meets the
/// surface from behind: the caller turns the normal round and takes the
/// ratio of the refractive indices the other way.
pub fn entering(along: Scalar) -> (yes: bool)
    ensures
        yes == from_outside(along),
{
    along.less(Scalar { bits: ZERO_BITS })
}

/// The normal turned against the ray: the normal itself where the ray enters
/// the body, its opposite where the ray leaves.
pub open spec fn facing(normal: Vector3, along: Scalar) -> Vector3 {
    if from_outside(along) {
        normal
    } else {
        normal.opposite()
    }
}

/// Turns the normal against the ray, `along` being the dot product of the
/// ray's direction with the normal.
pub fn face(normal: Vector3, along: Scalar) -> (turned: Vector3)
    ensures
        turned == facing(normal, along),
{
    if entering(along) {
        normal
    } else {
        normal.neg()
    }
}

/// No refracted ray exists: the sine of the refracted angle would exceed one.
pub open spec fn total_internal(at: Incidence) -> bool {
    Scalar { bits: ONE_BITS }.below(at.bend)
}

impl ScatteredHit {
    pub fn new(bounce: Bounce, attenuation: Color3) -> (scattered: ScatteredHit)
        ensures
            scattered == (ScatteredHit { bounce, attenuation }),
    {
        ScatteredHit { bounce, attenuation }
    }
}

impl Material {
    /// The parameters are in their ranges: a fuzziness from zero up to but
    /// without one, a refractive index above zero.
    pub open spec fn wf(self) -> bool {
        match self {
            Material::Lambertian { .. } => true,
            Material::Mirror { fuzziness, .. } => (Scalar { bits: ZERO_BITS }).at_most(fuzziness)
                && fuzziness.below(Scalar { bits: ONE_BITS }),
            Material::Dielectric { refractive_index } => (Scalar { bits: ZERO_BITS }).below(
                refractive_index,
            ),
        }
    }

    /// The share of each colour that the surface lets through: its albedo,
    /// or all of it where the surface is transparent.
    pub open spec fn tint(self) -> Color3 {
        match self {
            Material::Lambertian { albedo } => albedo,
            Material::Mirror { albedo, .. } => albedo,
            Material::Dielectric { .. } => white(),
        }
    }

    /// The way the light leaves, or nothing where the surface swallows the
    /// light. `drawn` is the random draw where one was made; without one a
    /// transparent surface reflects only where no refracted ray exists.
    pub open spec fn way(self, at: Incidence, drawn: Option<Scalar>) -> Option<Bounce> {
        match self {
            Material::Lambertian { .. } => if at.sum.negligible() {
                Some(Bounce::Normal)
            } else {
                Some(Bounce::Diffuse)
            },
            Material::Mirror { .. } => if (Scalar { bits: ZERO_BITS }).below(at.outward) {
                Some(Bounce::Reflect)
            } else {
                None
            },
            Material::Dielectric { .. } => if total_internal(at) || (drawn is Some
                && drawn->0.below(at.reflectance)) {
                Some(Bounce::Reflect)
            } else {
                Some(Bounce::Refract)
            },
        }
    }

    /// What the surface does with the light: the way it leaves and the share
    /// that is left of it, or nothing where the surface swallows it.
    pub open spec fn response(self, at: Incidence, drawn: Option<Scalar>) -> Option<ScatteredHit> {
        match self.way(at, drawn) {
            Some(bounce) => Some(ScatteredHit { bounce, attenuation: self.tint() }),
            None => None,
        }
    }

    /// The surface decides without a random draw.
    pub open spec fn decided(self, at: Incidence) -> bool {
        !(self is Dielectric) || total_internal(at)
    }

    /// A matte surface.
    pub fn lambertian(albedo: Color3) -> (material: Material)
        ensures
            material == (Material::Lambertian { albedo }),
            material.wf(),
    {
        Material::Lambertian { albedo }
    }

    /// A polished surface. The fuzziness is at least zero and below one.
    pub fn mirror(albedo: Color3, fuzziness: Scalar) -> (material: Material)
        requires
            (Scalar { bits: ZERO_BITS }).at_most(fuzziness),
            fuzziness.below(Scalar { bits: ONE_BITS }),
        ensures
            material == (Material::Mirror { albedo, fuzziness }),
            material.wf(),
    {
        Material::Mirror { albedo, fuzziness }
    }

    /// A transparent surface. The refractive index is above zero.
    pub fn dielectric(refractive_index: Scalar) -> (material: Material)
        requires
            (Scalar { bits: ZERO_BITS }).below(refractive_index),
        ensures
            material == (Material::Dielectric { refractive_index }),
            material.wf(),
    {
        Material::Dielectric { refractive_index }
    }

    /// Whether the parameters are in their ranges.
    pub fn is_valid(&self) -> (yes: bool)
        ensures
            yes == self.wf(),
    {
        match self {
            Material::Lambertian { .. } => true,
            Material::Mirror { fuzziness, .. } => (Scalar { bits: ZERO_BITS }).less_eq(*fuzziness)
                && fuzziness.less(Scalar { bits: ONE_BITS }),
            Material::Dielectric { refractive_index } => (Scalar { bits: ZERO_BITS }).less(
                *refractive_index,
            ),
        }
    }

    /// The share of each colour that the surface lets through.
    pub fn attenuation(&self) -> (share: Color3)
        ensures
            share == self.tint(),
    {
        match self {
            Material::Lambertian { albedo } => *albedo,
            Material::Mirror { albedo, .. } => *albedo,
            Material::Dielectric { .. } => {
                let one = Scalar { bits: ONE_BITS };
                Vector3 { x: one, y: one, z: one }
            },
        }
    }

    /// Decides what the surface does with the light.
    ///
    /// A matte surface always scatters: along the normal plus the random
    /// direction, or along the normal alone where that sum is nearly zero. A
    /// polished one scatters exactly when the perturbed reflection points
    /// away from the surface, and swallows the light otherwise. A transparent
    /// one always scatters: it reflects where no refracted ray exists;
    /// elsewhere it asks `draw` for a number, reflects when the number is
    /// below the reflectance and refracts when it is not. `draw` is called
    /// in that one case only. Light that is scattered is dimmed by the
    /// surface's albedo, and not at all by a transparent surface.
    pub fn scatter<F: Fn() -> Scalar>(&self, at: &Incidence, draw: F) -> (scattered: Option<
        ScatteredHit,
    >)
        requires
            call_requires(draw, ()),
        ensures
            self.decided(*at) ==> scattered == self.response(*at, None),
            !self.decided(*at) ==> exists|drawn: Scalar|
                call_ensures(draw, (), drawn) && scattered == #[trigger] self.response(
                    *at,
                    Some(drawn),
                ),
            scattered is None <==> self is Mirror && !(Scalar { bits: ZERO_BITS }).below(
                at.outward,
            ),
            scattered is Some ==> scattered->0.attenuation == self.tint(),
    {
        let ghost mut drawn: Option<Scalar> = None;
        let bounce = match self {
            Material::Lambertian { .. } => {
                if at.sum.near_zero() {
                    Some(Bounce::Normal)
                } else {
                    Some(Bounce::Diffuse)
                }
            },
            Material::Mirror { .. } => {
                if (Scalar { bits: ZERO_BITS }).less(at.outward) {
                    Some(Bounce::Reflect)
                } else {
                    None
                }
            },
            Material::Dielectric { .. } => {
                if (Scalar { bits: ONE_BITS }).less(at.bend) {
                    Some(Bounce::Reflect)
                } else {
                    let number = draw();
                    proof {
                        drawn = Some(number);
                    }
                    if number.less(at.reflectance) {
                        Some(Bounce::Reflect)
                    } else {
                        Some(Bounce::Refract)
                    }
                }
            },
        };
        assert(bounce == self.way(*at, drawn));
        let scattered = match bounce {
            Some(bounce) => Some(ScatteredHit::new(bounce, self.attenuation())),
            None => None,
        };
        assert(scattered == self.response(*at, drawn));
        scattered
    }
}

/// A matte surface never swallows the light.
pub proof fn lemma_lambertian_scatters(material: Material, at: Incidence, drawn: Option<Scalar>)
    requires
        material is Lambertian,
    ensures
        material.response(at, drawn) is Some,
{
}

/// A polished surface swallows the light exactly when the dot product of the
/// perturbed reflection with the normal is not above zero; so it does
/// whenever that product is zero or less.
pub proof fn lemma_mirror_absorbs(material: Material, at: Incidence, drawn: Option<Scalar>)
    requires
        material is Mirror,
    ensures
        material.response(at, drawn) is None <==> !(Scalar { bits: ZERO_BITS }).below(at.outward),
        at.outward.at_most(Scalar { bits: ZERO_BITS }) ==> material.response(at, drawn) is None,
{
}

/// A transparent surface never swallows the light and never dims it.
pub proof fn lemma_dielectric_scatters(material: Material, at: Incidence, drawn: Option<Scalar>)
    requires
        material is Dielectric,
    ensures
        material.response(at, drawn) is Some,
        material.response(at, drawn)->0.attenuation == white(),
{
}

/// Where no refracted ray exists a transparent surface reflects, whatever
/// the random draw and the reflectance are, and also with the draw left out.
pub proof fn lemma_total_internal_reflects(
    material: Material,
    at: Incidence,
    drawn: Option<Scalar>,
)
    requires
        material is Dielectric,
        total_internal(at),
    ensures
        material.response(at, drawn) == Some(
            ScatteredHit { bounce: Bounce::Reflect, attenuation: white() },
        ),
{
}

/// With the random draw left out, the geometry alone decides what a
/// transparent surface does: it reflects exactly where no refracted ray
/// exists.
pub proof fn lemma_geometry_decides(material: Material, at: Incidence)
    requires
        material is Dielectric,
    ensures
        material.way(at, None) == Some(Bounce::Reflect) <==> total_internal(at),
        material.way(at, None) == Some(Bounce::Refract) <==> !total_internal(at),
{
}

/// A surface that decides without a draw does the same whatever the draw
/// would have been.
pub proof fn lemma_decided_ignores_draw(material: Material, at: Incidence, drawn: Option<Scalar>)
    requires
        material.decided(at),
    ensures
        material.response(at, drawn) == material.response(at, None),
{
}

} // verus!
