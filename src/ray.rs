use vstd::prelude::*;

verus! {

/// A half-line `origin + t * direction`, over any vector type `V`.
#[derive(Clone, Copy, Debug, PartialEq)]
pub struct Ray<V> {
    pub origin: V,
    pub direction: V,
}

impl<V> Ray<V> {
    pub fn new(origin: V, direction: V) -> (r: Ray<V>)
        ensures
            r.origin == origin,
            r.direction == direction,
    {
        Ray { origin, direction }
    }
}

} // verus!
