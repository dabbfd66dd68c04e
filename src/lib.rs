// The verified core of a ray tracer: the scene language (tokens,
// s-expressions, literals, the scene loader), the decisions of the renderer
// (closest hit, root selection, reflection depth, checker lattice), the
// scheduling of rows across workers with frame assembly and progress, and the
// image header. Floating-point geometry and shading stand outside, and hand
// the library integers: distances as order keys, lattice cells, flags.
use vstd::prelude::*;

pub mod expr;
pub mod hit;
pub mod image;
pub mod literal;
pub mod material;
pub mod render;
pub mod scene;
pub mod token;

verus! {

/// Pixel dimensions of the image and the distance from the eye to the
/// projection plane.
#[derive(Clone, Copy, PartialEq, Eq, Debug)]
pub struct Camera {
    pub width: u32,
    pub height: u32,
    pub depth: u32,
}

impl Camera {
    /// Number of pixels in a frame: `width * height`.
    pub fn get_frame_size(&self) -> (r: usize)
        requires
            self.width * self.height <= usize::MAX,
        ensures
            r == self.width * self.height,
    {
        (self.width as usize) * (self.height as usize)
    }
}

} // verus!
