use vstd::prelude::*;

verus! {

/// Where the camera stands and how it looks at the scene. `S` is the type of
/// a number, `V` that of a vector.
#[derive(Clone)]
pub struct CameraInitOptions<S, V> {
    pub pos: V,
    pub look_at: V,
    pub vup: V,
    /// The vertical field of view, in degrees.
    pub vt_fov: S,
    /// Width over height.
    pub aspect: S,
}

/// A camera made ready for rendering: the corner of its image plane and the
/// two vectors that span it.
#[derive(Clone)]
pub struct Camera<S, V> {
    pub pos: V,
    pub lower_left_corner: V,
    pub hz: V,
    pub vt: V,
    pub init_options: CameraInitOptions<S, V>,
}

} // verus!
