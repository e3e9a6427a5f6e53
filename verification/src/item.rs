use vstd::prelude::*;

verus! {

/// One thing to draw: a shape and the surface it is drawn with, each given by
/// its index in the scene's caches.
#[derive(Clone, Copy, Debug, PartialEq, Eq, Structural)]
pub struct Item {
    pub geometry_idx: usize,
    pub material_idx: usize,
}

} // verus!
