use vstd::prelude::*;

verus! {

/// A material that absorbs every ray; it stands in a blank hit record.
#[derive(Clone, Copy, Debug, PartialEq)]
pub struct NullMaterial {}

impl NullMaterial {
    pub fn new() -> (m: NullMaterial)
        ensures
            m == (NullMaterial {}),
    {
        NullMaterial {}
    }
}

/// A diffuse surface: it scatters every ray, tinted by `albedo`.
#[derive(Clone, Copy, Debug, PartialEq)]
pub struct Lambertian<V> {
    pub albedo: V,
}

impl<V> Lambertian<V> {
    pub fn new(albedo: V) -> (m: Lambertian<V>)
        ensures
            m.albedo == albedo,
    {
        Lambertian { albedo }
    }
}

/// A reflective surface: the mirror direction, perturbed by `fuzz` times a
/// point of the unit ball, tinted by `albedo`.
#[derive(Clone, Copy, Debug, PartialEq)]
pub struct Metal<V, S> {
    pub albedo: V,
    pub fuzz: S,
}

impl<V, S> Metal<V, S> {
    pub fn new(albedo: V, fuzz: S) -> (m: Metal<V, S>)
        ensures
            m.albedo == albedo,
            m.fuzz == fuzz,
    {
        Metal { albedo, fuzz }
    }
}

/// A refractive medium (glass): it reflects or refracts every ray, without tint.
#[derive(Clone, Copy, Debug, PartialEq)]
pub struct Dielectric<S> {
    pub refractive_index: S,
}

impl<S> Dielectric<S> {
    pub fn new(refractive_index: S) -> (m: Dielectric<S>)
        ensures
            m.refractive_index == refractive_index,
    {
        Dielectric { refractive_index }
    }
}

/// The closed set of scattering behaviours.
#[derive(Clone, Copy, Debug, PartialEq)]
pub enum Material<V, S> {
    NullMaterial(NullMaterial),
    Metal(Metal<V, S>),
    Lambertian(Lambertian<V>),
    Dielectric(Dielectric<S>),
}

impl<V, S> Material<V, S> {
    /// Whether a ray that meets this material leaves it again, given whether
    /// the proposed outgoing direction points to the side the surface normal
    /// points to (`dot(direction, normal) > 0`).
    pub open spec fn spec_scatters(self, outward: bool) -> bool {
        match self {
            Material::NullMaterial(_) => false,
            Material::Metal(_) => outward,
            Material::Lambertian(_) => true,
            Material::Dielectric(_) => true,
        }
    }

    /// Decides between scattering and absorption: a metal absorbs a ray that
    /// would re-enter its surface, diffuse and refractive media never absorb,
    /// and the null material always does.
    pub fn scatters(&self, outward: bool) -> (r: bool)
        ensures
            r == self.spec_scatters(outward),
    {
        match self {
            Material::NullMaterial(_) => false,
            Material::Metal(_) => outward,
            Material::Lambertian(_) => true,
            Material::Dielectric(_) => true,
        }
    }

    pub fn null() -> (m: Material<V, S>)
        ensures
            m == Material::<V, S>::NullMaterial(NullMaterial {}),
    {
        Material::NullMaterial(NullMaterial::new())
    }

    pub fn lambertian(albedo: V) -> (m: Material<V, S>)
        ensures
            m == Material::<V, S>::Lambertian(Lambertian { albedo }),
    {
        Material::Lambertian(Lambertian::new(albedo))
    }

    pub fn metal(albedo: V, fuzz: S) -> (m: Material<V, S>)
        ensures
            m == Material::Metal(Metal { albedo, fuzz }),
    {
        Material::Metal(Metal::new(albedo, fuzz))
    }

    pub fn dielectric(refractive_index: S) -> (m: Material<V, S>)
        ensures
            m == Material::<V, S>::Dielectric(Dielectric { refractive_index }),
    {
        Material::Dielectric(Dielectric::new(refractive_index))
    }
}

/// A diffuse surface never absorbs, whatever the incoming ray and the
/// surface normal.
pub proof fn lemma_lambertian_never_absorbs<V, S>(albedo: V, outward: bool)
    ensures
        Material::<V, S>::Lambertian(Lambertian { albedo }).spec_scatters(outward),
{
}

} // verus!
