use vstd::prelude::*;

verus! {

/// A ray: the point it starts from and the direction it travels in. `V` is
/// the vector type of whoever does the arithmetic.
pub struct Ray3<V> {
    pub pos: V,
    pub dir: V,
}

impl<V> Ray3<V> {
    /// The ray from `pos` in direction `dir`.
    pub fn new(pos: V, dir: V) -> (ray: Self)
        ensures
            ray.pos == pos,
            ray.dir == dir,
    {
        Ray3 { pos, dir }
    }
}

} // verus!
