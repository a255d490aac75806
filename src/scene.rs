use vstd::prelude::*;

use crate::material::{Material, NullMaterial};
use crate::ray::Ray;

verus! {

/// Where a ray met a surface: its parameter `t`, the point, the unit normal
/// and the material there.
#[derive(Clone, Copy, Debug, PartialEq)]
pub struct HitRecord<V, S> {
    pub t: S,
    pub p: V,
    pub normal: V,
    pub material: Material<V, S>,
}

impl<V, S> HitRecord<V, S> {
    pub fn new(t: S, p: V, normal: V, material: Material<V, S>) -> (r: HitRecord<V, S>)
        ensures
            r == (HitRecord { t, p, normal, material }),
    {
        HitRecord { t, p, normal, material }
    }
}

/// A sphere that owns its material. A negative radius turns the normals
/// inward, which models a hollow shell.
#[derive(Clone, Copy, Debug, PartialEq)]
pub struct Sphere<V, S> {
    pub center: V,
    pub radius: S,
    pub material: Material<V, S>,
}

impl<V, S> Sphere<V, S> {
    pub fn new(center: V, radius: S, material: Material<V, S>) -> (s: Sphere<V, S>)
        ensures
            s == (Sphere { center, radius, material }),
    {
        Sphere { center, radius, material }
    }
}

/// The most recent hit among the first `k` outcomes of a scan.
pub open spec fn last_hit<V, S>(outs: Seq<Option<HitRecord<V, S>>>, k: int) -> Option<HitRecord<V, S>>
    decreases k,
{
    if k <= 0 {
        None
    } else {
        match outs[k - 1] {
            Some(rec) => Some(rec),
            None => last_hit(outs, k - 1),
        }
    }
}

/// The upper end of the window in which the sphere at index `k` is tested:
/// `t_max` until something was hit, then the `t` of the latest hit.
pub open spec fn closest_so_far<V, S>(outs: Seq<Option<HitRecord<V, S>>>, t_max: S, k: int) -> S {
    match last_hit(outs, k) {
        Some(rec) => rec.t,
        None => t_max,
    }
}

/// An ordered collection of spheres.
pub struct HitableList<V, S> {
    items: Vec<Sphere<V, S>>,
}

impl<V, S> HitableList<V, S> {
    /// The spheres, in order.
    pub closed spec fn view(&self) -> Seq<Sphere<V, S>> {
        self.items@
    }

    pub fn new() -> (l: HitableList<V, S>)
        ensures
            l.view() == Seq::<Sphere<V, S>>::empty(),
    {
        HitableList { items: Vec::new() }
    }

    pub fn len(&self) -> (n: usize)
        ensures
            n == self.view().len(),
    {
        self.items.len()
    }

    pub fn push(&mut self, item: Sphere<V, S>)
        ensures
            final(self).view() == old(self).view().push(item),
    {
        self.items.push(item);
    }

    /// `outs` is a record of a scan of this list: the outcome of testing each
    /// sphere in order against `ray`, each within `t_min` and the closest hit
    /// so far.
    pub open spec fn is_scan<F: Fn(&Sphere<V, S>, Ray<V>, S, S) -> Option<HitRecord<V, S>>>(
        &self,
        ray: Ray<V>,
        t_min: S,
        t_max: S,
        hit_one: F,
        outs: Seq<Option<HitRecord<V, S>>>,
    ) -> bool {
        &&& outs.len() == self.view().len()
        &&& forall|k: int|
            0 <= k < outs.len() ==> #[trigger] hit_one.ensures(
                (&self.view()[k], ray, t_min, closest_so_far(outs, t_max, k)),
                outs[k],
            )
    }

    /// `r` is what a scan of this list yields: the latest hit it recorded.
    pub open spec fn is_hit_result<F: Fn(&Sphere<V, S>, Ray<V>, S, S) -> Option<HitRecord<V, S>>>(
        &self,
        ray: Ray<V>,
        t_min: S,
        t_max: S,
        hit_one: F,
        r: Option<HitRecord<V, S>>,
    ) -> bool {
        exists|outs: Seq<Option<HitRecord<V, S>>>|
            #![trigger self.is_scan(ray, t_min, t_max, hit_one, outs)]
            self.is_scan(ray, t_min, t_max, hit_one, outs) && r == last_hit(outs, outs.len() as int)
    }

    /// The nearest hit of `ray` among the spheres, strictly between `t_min`
    /// and `t_max`: each sphere is tested by `hit_one` within `t_min` and the
    /// closest hit found so far, and the last record found is kept.
    pub fn hit<F>(&self, ray: Ray<V>, t_min: S, t_max: S, hit_one: &F) -> (r: Option<HitRecord<V, S>>)
        where
            V: Copy,
            S: Copy,
            F: Fn(&Sphere<V, S>, Ray<V>, S, S) -> Option<HitRecord<V, S>>,
        requires
            forall|s: &Sphere<V, S>, hi: S| hit_one.requires((s, ray, t_min, hi)),
        ensures
            self.is_hit_result(ray, t_min, t_max, *hit_one, r),
            self.view().len() == 0 ==> r is None,
    {
        let ghost mut outs: Seq<Option<HitRecord<V, S>>> = Seq::empty();
        let mut closest: S = t_max;
        let mut found: Option<HitRecord<V, S>> = None;
        let mut i: usize = 0;
        while i < self.items.len()
            invariant
                i <= self.items@.len(),
                outs.len() == i,
                forall|s: &Sphere<V, S>, hi: S| hit_one.requires((s, ray, t_min, hi)),
                forall|k: int|
                    0 <= k < i ==> #[trigger] hit_one.ensures(
                        (&self.items@[k], ray, t_min, closest_so_far(outs, t_max, k)),
                        outs[k],
                    ),
                found == last_hit(outs, i as int),
                closest == closest_so_far(outs, t_max, i as int),
            decreases self.items@.len() - i,
        {
            let out = hit_one(&self.items[i], ray, t_min, closest);
            proof {
                let prev = outs;
                outs = outs.push(out);
                assert forall|k: int| 0 <= k <= i implies last_hit(outs, k) == last_hit(prev, k) by {
                    lemma_last_hit_extend(prev, out, k);
                }
                assert forall|k: int| 0 <= k < i + 1 implies #[trigger] hit_one.ensures(
                    (&self.items@[k], ray, t_min, closest_so_far(outs, t_max, k)),
                    outs[k],
                ) by {
                    if k < i {
                        assert(hit_one.ensures(
                            (&self.items@[k], ray, t_min, closest_so_far(prev, t_max, k)),
                            prev[k],
                        ));
                    }
                }
            }
            match out {
                Some(rec) => {
                    closest = rec.t;
                    found = Some(rec);
                },
                None => {},
            }
            i = i + 1;
        }
        assert(self.is_scan(ray, t_min, t_max, *hit_one, outs));
        assert(self.is_hit_result(ray, t_min, t_max, *hit_one, found));
        found
    }
}

/// Appending an outcome leaves the latest hit among the earlier ones as it was.
proof fn lemma_last_hit_extend<V, S>(outs: Seq<Option<HitRecord<V, S>>>, o: Option<HitRecord<V, S>>, k: int)
    requires
        k <= outs.len(),
    ensures
        last_hit(outs.push(o), k) == last_hit(outs, k),
    decreases k,
{
    if k > 0 {
        lemma_last_hit_extend(outs, o, k - 1);
    }
}

/// The latest hit among the first `k` outcomes depends on those outcomes alone.
proof fn lemma_last_hit_agree<V, S>(
    outs1: Seq<Option<HitRecord<V, S>>>,
    outs2: Seq<Option<HitRecord<V, S>>>,
    k: int,
)
    requires
        k <= outs1.len(),
        k <= outs2.len(),
        forall|j: int| 0 <= j < k ==> outs1[j] == outs2[j],
    ensures
        last_hit(outs1, k) == last_hit(outs2, k),
    decreases k,
{
    if k > 0 {
        lemma_last_hit_agree(outs1, outs2, k - 1);
    }
}

/// An empty list is never hit.
pub proof fn lemma_empty_list_no_hit<V, S, F: Fn(&Sphere<V, S>, Ray<V>, S, S) -> Option<HitRecord<V, S>>>(
    list: HitableList<V, S>,
    ray: Ray<V>,
    t_min: S,
    t_max: S,
    hit_one: F,
    r: Option<HitRecord<V, S>>,
)
    requires
        list.view().len() == 0,
        list.is_hit_result(ray, t_min, t_max, hit_one, r),
    ensures
        r is None,
{
}

/// Hitting is deterministic: where testing one sphere in one window has a
/// single possible outcome, two scans of the same list with the same ray
/// record the same outcomes and yield the same hit.
pub proof fn lemma_hit_deterministic<V, S, F: Fn(&Sphere<V, S>, Ray<V>, S, S) -> Option<HitRecord<V, S>>>(
    list: HitableList<V, S>,
    ray: Ray<V>,
    t_min: S,
    t_max: S,
    hit_one: F,
    outs1: Seq<Option<HitRecord<V, S>>>,
    outs2: Seq<Option<HitRecord<V, S>>>,
)
    requires
        forall|s: &Sphere<V, S>, r: Ray<V>, lo: S, hi: S, o1: Option<HitRecord<V, S>>, o2: Option<HitRecord<V, S>>|
            #![trigger hit_one.ensures((s, r, lo, hi), o1), hit_one.ensures((s, r, lo, hi), o2)]
            hit_one.ensures((s, r, lo, hi), o1) && hit_one.ensures((s, r, lo, hi), o2) ==> o1 == o2,
        list.is_scan(ray, t_min, t_max, hit_one, outs1),
        list.is_scan(ray, t_min, t_max, hit_one, outs2),
    ensures
        outs1 == outs2,
        last_hit(outs1, outs1.len() as int) == last_hit(outs2, outs2.len() as int),
{
    lemma_scans_agree(list, ray, t_min, t_max, hit_one, outs1, outs2, outs1.len() as int);
    assert(outs1 =~= outs2);
}

/// Two scans as in `lemma_hit_deterministic` agree on their first `k` outcomes.
proof fn lemma_scans_agree<V, S, F: Fn(&Sphere<V, S>, Ray<V>, S, S) -> Option<HitRecord<V, S>>>(
    list: HitableList<V, S>,
    ray: Ray<V>,
    t_min: S,
    t_max: S,
    hit_one: F,
    outs1: Seq<Option<HitRecord<V, S>>>,
    outs2: Seq<Option<HitRecord<V, S>>>,
    k: int,
)
    requires
        forall|s: &Sphere<V, S>, r: Ray<V>, lo: S, hi: S, o1: Option<HitRecord<V, S>>, o2: Option<HitRecord<V, S>>|
            #![trigger hit_one.ensures((s, r, lo, hi), o1), hit_one.ensures((s, r, lo, hi), o2)]
            hit_one.ensures((s, r, lo, hi), o1) && hit_one.ensures((s, r, lo, hi), o2) ==> o1 == o2,
        list.is_scan(ray, t_min, t_max, hit_one, outs1),
        list.is_scan(ray, t_min, t_max, hit_one, outs2),
        0 <= k <= outs1.len(),
    ensures
        forall|j: int| 0 <= j < k ==> outs1[j] == outs2[j],
    decreases k,
{
    if k > 0 {
        lemma_scans_agree(list, ray, t_min, t_max, hit_one, outs1, outs2, k - 1);
        lemma_last_hit_agree(outs1, outs2, k - 1);
        assert(hit_one.ensures((&list.view()[k - 1], ray, t_min, closest_so_far(outs1, t_max, k - 1)), outs1[k - 1]));
        assert(hit_one.ensures((&list.view()[k - 1], ray, t_min, closest_so_far(outs2, t_max, k - 1)), outs2[k - 1]));
    }
}

} // verus!
