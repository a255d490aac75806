use vstd::prelude::*;

use crate::ray::Ray;
use crate::scene::{lemma_empty_list_no_hit, HitRecord, HitableList, Sphere};

verus! {

/// A material's proposed response at a hit: the attenuation colour, the
/// outgoing ray, and whether that ray's direction points to the side the
/// surface normal points to.
#[derive(Clone, Copy, Debug, PartialEq)]
pub struct Scatter<V> {
    pub attenuation: V,
    pub ray: Ray<V>,
    pub outward: bool,
}

/// How a light path ends.
#[derive(Clone, Copy, Debug, PartialEq)]
pub enum PathEnd<V> {
    /// The last ray met nothing: it sees the background.
    Escaped(Ray<V>),
    /// A material absorbed the ray: black.
    Absorbed,
    /// The bounce budget ran out: black.
    DepthLimit,
}

/// A traced light path: the attenuation of each bounce, in order from the
/// camera, and how the path ends. Its radiance is the component-wise product
/// of the attenuations with the colour of its end.
pub struct Path<V> {
    pub attenuations: Vec<V>,
    pub end: PathEnd<V>,
}

/// `atts` and `end` describe a path that `ray` may take through `scene`
/// starting at bounce `depth`: at `max_depth` or beyond it stops black; else
/// the scene is hit as `HitableList::hit` does, a miss escapes with the ray,
/// and a hit scatters as proposed (one attenuation, then the rest of the path
/// from the outgoing ray) or is absorbed, as the material decides.
pub open spec fn is_path<V, S, F, G>(
    scene: HitableList<V, S>,
    ray: Ray<V>,
    depth: int,
    max_depth: int,
    t_min: S,
    t_max: S,
    hit_one: F,
    scatter: G,
    atts: Seq<V>,
    end: PathEnd<V>,
) -> bool
    where
        F: Fn(&Sphere<V, S>, Ray<V>, S, S) -> Option<HitRecord<V, S>>,
        G: Fn(Ray<V>, HitRecord<V, S>) -> Scatter<V>,
    decreases max_depth - depth,
{
    if depth >= max_depth {
        atts.len() == 0 && end == PathEnd::<V>::DepthLimit
    } else {
        exists|h: Option<HitRecord<V, S>>|
            #[trigger] scene.is_hit_result(ray, t_min, t_max, hit_one, h) && match h {
                None => atts.len() == 0 && end == PathEnd::Escaped(ray),
                Some(rec) => exists|s: Scatter<V>|
                    #[trigger] scatter.ensures((ray, rec), s) && if rec.material.spec_scatters(
                        s.outward,
                    ) {
                        &&& atts.len() > 0
                        &&& atts[0] == s.attenuation
                        &&& is_path(
                            scene,
                            s.ray,
                            depth + 1,
                            max_depth,
                            t_min,
                            t_max,
                            hit_one,
                            scatter,
                            atts.drop_first(),
                            end,
                        )
                    } else {
                        atts.len() == 0 && end == PathEnd::<V>::Absorbed
                    },
            }
    }
}

/// Traces `ray` through `scene` from bounce `depth`, stopping at
/// `max_depth`: the recursive radiance estimator written as a loop that
/// carries the attenuations met so far. Spheres are tested by `hit_one`
/// within `t_min` and `t_max`; a hit material's response is proposed by
/// `scatter` and accepted or absorbed as `Material::scatters` decides.
pub fn color<V, S, F, G>(
    ray: Ray<V>,
    scene: &HitableList<V, S>,
    depth: u32,
    max_depth: u32,
    t_min: S,
    t_max: S,
    hit_one: &F,
    scatter: &G,
) -> (p: Path<V>)
    where
        V: Copy,
        S: Copy,
        F: Fn(&Sphere<V, S>, Ray<V>, S, S) -> Option<HitRecord<V, S>>,
        G: Fn(Ray<V>, HitRecord<V, S>) -> Scatter<V>,
    requires
        forall|s: &Sphere<V, S>, r: Ray<V>, hi: S| hit_one.requires((s, r, t_min, hi)),
        forall|r: Ray<V>, rec: HitRecord<V, S>| scatter.requires((r, rec)),
    ensures
        is_path(
            *scene,
            ray,
            depth as int,
            max_depth as int,
            t_min,
            t_max,
            *hit_one,
            *scatter,
            p.attenuations@,
            p.end,
        ),
        depth < max_depth ==> p.attenuations@.len() <= max_depth - depth,
        depth >= max_depth ==> p.attenuations@.len() == 0,
{
    let mut atts: Vec<V> = Vec::new();
    let mut cur: Ray<V> = ray;
    let mut d: u32 = depth;
    loop
        invariant
            depth <= d,
            d <= depth || d <= max_depth,
            atts@.len() == d - depth,
            forall|s: &Sphere<V, S>, r: Ray<V>, hi: S| hit_one.requires((s, r, t_min, hi)),
            forall|r: Ray<V>, rec: HitRecord<V, S>| scatter.requires((r, rec)),
            forall|tail: Seq<V>, end: PathEnd<V>|
                #[trigger] is_path(
                    *scene,
                    cur,
                    d as int,
                    max_depth as int,
                    t_min,
                    t_max,
                    *hit_one,
                    *scatter,
                    tail,
                    end,
                ) ==> is_path(
                    *scene,
                    ray,
                    depth as int,
                    max_depth as int,
                    t_min,
                    t_max,
                    *hit_one,
                    *scatter,
                    atts@ + tail,
                    end,
                ),
        decreases max_depth - d,
    {
        if d >= max_depth {
            let p = Path { attenuations: atts, end: PathEnd::DepthLimit };
            proof {
                assert(p.attenuations@ + Seq::<V>::empty() =~= p.attenuations@);
                assert(is_path(*scene, cur, d as int, max_depth as int, t_min, t_max, *hit_one, *scatter, Seq::<V>::empty(), PathEnd::<V>::DepthLimit));
            }
            return p;
        }
        let h = scene.hit(cur, t_min, t_max, hit_one);
        match h {
            None => {
                let p = Path { attenuations: atts, end: PathEnd::Escaped(cur) };
                proof {
                    assert(p.attenuations@ + Seq::<V>::empty() =~= p.attenuations@);
                    assert(is_path(*scene, cur, d as int, max_depth as int, t_min, t_max, *hit_one, *scatter, Seq::<V>::empty(), PathEnd::Escaped(cur)));
                }
                return p;
            },
            Some(rec) => {
                let s = scatter(cur, rec);
                if rec.material.scatters(s.outward) {
                    proof {
                        let prev = atts@;
                        assert forall|tail: Seq<V>, end: PathEnd<V>|
                            #[trigger] is_path(*scene, s.ray, d + 1, max_depth as int, t_min, t_max, *hit_one, *scatter, tail, end)
                            implies is_path(*scene, ray, depth as int, max_depth as int, t_min, t_max, *hit_one, *scatter, prev.push(s.attenuation) + tail, end) by {
                            let whole = seq![s.attenuation] + tail;
                            assert(whole.drop_first() =~= tail);
                            assert(is_path(*scene, cur, d as int, max_depth as int, t_min, t_max, *hit_one, *scatter, whole, end));
                            assert(prev + whole =~= prev.push(s.attenuation) + tail);
                        }
                    }
                    atts.push(s.attenuation);
                    cur = s.ray;
                    d = d + 1;
                } else {
                    let p = Path { attenuations: atts, end: PathEnd::Absorbed };
                    proof {
                        assert(p.attenuations@ + Seq::<V>::empty() =~= p.attenuations@);
                        assert(is_path(*scene, cur, d as int, max_depth as int, t_min, t_max, *hit_one, *scatter, Seq::<V>::empty(), PathEnd::<V>::Absorbed));
                    }
                    return p;
                }
            },
        }
    }
}

/// At the bounce limit a path is black whatever the scene and its
/// materials: it ends at the limit with no attenuation.
pub proof fn lemma_depth_limit_is_black<V, S, F, G>(
    scene: HitableList<V, S>,
    ray: Ray<V>,
    max_depth: int,
    t_min: S,
    t_max: S,
    hit_one: F,
    scatter: G,
    atts: Seq<V>,
    end: PathEnd<V>,
)
    where
        F: Fn(&Sphere<V, S>, Ray<V>, S, S) -> Option<HitRecord<V, S>>,
        G: Fn(Ray<V>, HitRecord<V, S>) -> Scatter<V>,
    requires
        is_path(scene, ray, max_depth, max_depth, t_min, t_max, hit_one, scatter, atts, end),
    ensures
        atts.len() == 0,
        end == PathEnd::<V>::DepthLimit,
{
}

/// In an empty scene every ray below the bounce limit escapes at once: the
/// path is the background seen along the ray itself, with no attenuation.
pub proof fn lemma_empty_scene_shows_background<V, S, F, G>(
    scene: HitableList<V, S>,
    ray: Ray<V>,
    depth: int,
    max_depth: int,
    t_min: S,
    t_max: S,
    hit_one: F,
    scatter: G,
    atts: Seq<V>,
    end: PathEnd<V>,
)
    where
        F: Fn(&Sphere<V, S>, Ray<V>, S, S) -> Option<HitRecord<V, S>>,
        G: Fn(Ray<V>, HitRecord<V, S>) -> Scatter<V>,
    requires
        scene.view().len() == 0,
        depth < max_depth,
        is_path(scene, ray, depth, max_depth, t_min, t_max, hit_one, scatter, atts, end),
    ensures
        atts.len() == 0,
        end == PathEnd::Escaped(ray),
{
    let h = choose|h: Option<HitRecord<V, S>>| #[trigger] scene.is_hit_result(ray, t_min, t_max, hit_one, h)
        && match h {
            None => atts.len() == 0 && end == PathEnd::Escaped(ray),
            Some(rec) => exists|s: Scatter<V>|
                #[trigger] scatter.ensures((ray, rec), s) && if rec.material.spec_scatters(s.outward) {
                    &&& atts.len() > 0
                    &&& atts[0] == s.attenuation
                    &&& is_path(scene, s.ray, depth + 1, max_depth, t_min, t_max, hit_one, scatter, atts.drop_first(), end)
                } else {
                    atts.len() == 0 && end == PathEnd::<V>::Absorbed
                },
        };
    lemma_empty_list_no_hit(scene, ray, t_min, t_max, hit_one, h);
}

} // verus!
