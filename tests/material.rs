use raytracer::{Dielectric, Lambertian, Material, Metal, NullMaterial, Ray};

type M = Material<[f32; 3], f32>;

#[test]
fn ray_new_keeps_fields() {
    let r = Ray::new([1.0f32, 2.0, 3.0], [0.0f32, 0.0, -1.0]);
    assert_eq!(r.origin, [1.0, 2.0, 3.0]);
    assert_eq!(r.direction, [0.0, 0.0, -1.0]);
}

#[test]
fn lambertian_never_absorbs() {
    let m: M = Material::lambertian([0.4, 0.2, 0.1]);
    assert!(m.scatters(true));
    assert!(m.scatters(false));
}

#[test]
fn metal_absorbs_rays_into_its_surface() {
    let m: M = Material::metal([0.7, 0.6, 0.5], 0.0);
    assert!(m.scatters(true));
    assert!(!m.scatters(false));
}

#[test]
fn dielectric_always_scatters() {
    let m: M = Material::dielectric(1.5);
    assert!(m.scatters(true));
    assert!(m.scatters(false));
}

#[test]
fn null_material_always_absorbs() {
    let m: M = Material::null();
    assert!(!m.scatters(true));
    assert!(!m.scatters(false));
    assert_eq!(m, Material::NullMaterial(NullMaterial::new()));
}

#[test]
fn constructors_build_their_variant() {
    let l: M = Material::lambertian([0.5, 0.5, 0.5]);
    assert_eq!(l, Material::Lambertian(Lambertian::new([0.5, 0.5, 0.5])));
    assert_eq!(Lambertian::new([0.5f32, 0.5, 0.5]).albedo, [0.5, 0.5, 0.5]);
    let m: M = Material::metal([0.7, 0.6, 0.5], 0.1);
    assert_eq!(m, Material::Metal(Metal::new([0.7, 0.6, 0.5], 0.1)));
    let metal = Metal::new([0.7f32, 0.6, 0.5], 0.1f32);
    assert_eq!(metal.albedo, [0.7, 0.6, 0.5]);
    assert_eq!(metal.fuzz, 0.1);
    let d: M = Material::dielectric(1.5);
    assert_eq!(d, Material::Dielectric(Dielectric::new(1.5)));
    assert_eq!(Dielectric::new(1.5f32).refractive_index, 1.5);
}
