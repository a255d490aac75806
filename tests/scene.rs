use raytracer::{HitRecord, HitableList, Material, Ray, Sphere};

type V = [f32; 3];

fn sub(a: V, b: V) -> V {
    [a[0] - b[0], a[1] - b[1], a[2] - b[2]]
}

fn dot(a: V, b: V) -> f32 {
    a[0] * b[0] + a[1] * b[1] + a[2] * b[2]
}

/// The half-b ray/sphere intersection, accepting the nearer root first.
fn intersect(s: &Sphere<V, f32>, ray: Ray<V>, t_min: f32, t_max: f32) -> Option<HitRecord<V, f32>> {
    let oc = sub(ray.origin, s.center);
    let a = dot(ray.direction, ray.direction);
    let b = dot(oc, ray.direction);
    let c = dot(oc, oc) - s.radius * s.radius;
    let disc = b * b - a * c;
    if disc < 0.0 {
        return None;
    }
    for t in [(-b - disc.sqrt()) / a, (-b + disc.sqrt()) / a] {
        if t_min < t && t < t_max {
            let d = ray.direction;
            let p = [ray.origin[0] + t * d[0], ray.origin[1] + t * d[1], ray.origin[2] + t * d[2]];
            let q = sub(p, s.center);
            let normal = [q[0] / s.radius, q[1] / s.radius, q[2] / s.radius];
            return Some(HitRecord::new(t, p, normal, s.material));
        }
    }
    None
}

fn one_sphere(center: V, radius: f32) -> HitableList<V, f32> {
    let mut list = HitableList::new();
    list.push(Sphere::new(center, radius, Material::lambertian([0.5, 0.5, 0.5])));
    list
}

fn down_the_axis() -> Ray<V> {
    Ray::new([0.0, 0.0, 0.0], [0.0, 0.0, -1.0])
}

#[test]
fn sphere_hit_at_half() {
    let list = one_sphere([0.0, 0.0, -1.0], 0.5);
    let rec = list.hit(down_the_axis(), 0.001, f32::MAX, &intersect).unwrap();
    assert_eq!(rec.t, 0.5);
    assert_eq!(rec.p, [0.0, 0.0, -0.5]);
    assert_eq!(rec.normal, [0.0, 0.0, 1.0]);
}

#[test]
fn sphere_hit_beyond_t_max() {
    let list = one_sphere([0.0, 0.0, -1.0], 0.5);
    assert!(list.hit(down_the_axis(), 0.001, 0.3, &intersect).is_none());
}

#[test]
fn hollow_shell_normal_points_inward() {
    let list = one_sphere([0.0, 0.0, -1.0], -0.45);
    // From inside the shell, at its centre, looking down the axis.
    let ray = Ray::new([0.0, 0.0, -1.0], [0.0, 0.0, -1.0]);
    let rec = list.hit(ray, 0.001, f32::MAX, &intersect).unwrap();
    assert!((rec.t - 0.45).abs() < 1e-6);
    // The outward normal there is (0, 0, -1); the shell's faces the centre.
    assert!((rec.normal[2] - 1.0).abs() < 1e-6);
    assert_eq!(rec.normal[0], 0.0);
    assert_eq!(rec.normal[1], 0.0);
}

#[test]
fn empty_list_is_never_hit() {
    let list: HitableList<V, f32> = HitableList::new();
    assert_eq!(list.len(), 0);
    assert!(list.hit(down_the_axis(), 0.001, f32::MAX, &intersect).is_none());
}

#[test]
fn nearest_sphere_wins_in_any_order() {
    let near = Sphere::new([0.0, 0.0, -2.0], 0.5, Material::lambertian([1.0, 0.0, 0.0]));
    let far = Sphere::new([0.0, 0.0, -5.0], 0.5, Material::metal([0.0, 1.0, 0.0], 0.0));
    let mut a = HitableList::new();
    a.push(far);
    a.push(near);
    let mut b = HitableList::new();
    b.push(near);
    b.push(far);
    assert_eq!(a.len(), 2);
    for list in [a, b] {
        let rec = list.hit(down_the_axis(), 0.001, f32::MAX, &intersect).unwrap();
        assert_eq!(rec.t, 1.5);
        assert_eq!(rec.material, Material::lambertian([1.0, 0.0, 0.0]));
    }
}

#[test]
fn later_sphere_is_tested_within_closest_hit() {
    // Each sphere reports a fixed distance; the scan must narrow the window.
    let fixed = |s: &Sphere<V, f32>, _r: Ray<V>, lo: f32, hi: f32| -> Option<HitRecord<V, f32>> {
        let t = s.radius;
        if lo < t && t < hi {
            Some(HitRecord::new(t, s.center, [0.0, 0.0, 1.0], s.material))
        } else {
            None
        }
    };
    let mut list = HitableList::new();
    list.push(Sphere::new([1.0, 0.0, 0.0], 3.0, Material::null()));
    list.push(Sphere::new([2.0, 0.0, 0.0], 2.0, Material::null()));
    list.push(Sphere::new([3.0, 0.0, 0.0], 4.0, Material::null()));
    list.push(Sphere::new([4.0, 0.0, 0.0], 0.0005, Material::null()));
    let rec = list.hit(down_the_axis(), 0.001, 10.0, &fixed).unwrap();
    assert_eq!(rec.t, 2.0);
    assert_eq!(rec.p, [2.0, 0.0, 0.0]);
    assert!(list.hit(down_the_axis(), 0.001, 1.0, &fixed).is_none());
}

#[test]
fn repeated_hits_agree() {
    let list = one_sphere([0.0, 0.0, -1.0], 0.5);
    let ray = Ray::new([0.1, 0.2, 0.0], [0.0, 0.0, -1.0]);
    let first = list.hit(ray, 0.001, f32::MAX, &intersect);
    let second = list.hit(ray, 0.001, f32::MAX, &intersect);
    assert!(first.is_some());
    assert_eq!(first, second);
}

#[test]
fn hit_record_new_keeps_fields() {
    let rec = HitRecord::new(2.5f32, [1.0f32, 2.0, 3.0], [0.0, 1.0, 0.0], Material::dielectric(1.5));
    assert_eq!(rec.t, 2.5);
    assert_eq!(rec.p, [1.0, 2.0, 3.0]);
    assert_eq!(rec.normal, [0.0, 1.0, 0.0]);
    assert_eq!(rec.material, Material::dielectric(1.5));
}

#[test]
fn sphere_new_keeps_fields() {
    let s = Sphere::new([0.0f32, -1000.0, 0.0], 1000.0f32, Material::lambertian([0.5f32, 0.5, 0.5]));
    assert_eq!(s.center, [0.0, -1000.0, 0.0]);
    assert_eq!(s.radius, 1000.0);
    assert_eq!(s.material, Material::lambertian([0.5, 0.5, 0.5]));
}
