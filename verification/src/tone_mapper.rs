use vstd::prelude::*;

verus! {

/// How bright light is brought into the range that a screen can show.
#[derive(Clone, Copy, Debug, PartialEq, Eq, Structural)]
pub enum ToneMapper {
    /// Cuts every channel off at the ends of the range from zero to one.
    Clamp,
    /// The filmic curve of the game Uncharted 2.
    Uncharted,
}

} // verus!
