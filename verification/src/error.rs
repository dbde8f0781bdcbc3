//! What is refused when a scene or a rendering is set up.

use vstd::prelude::*;

verus! {

/// The reason why a value was refused.
#[derive(Clone, Copy, Debug, PartialEq, Eq, Structural)]
pub enum ConfigError {
    /// The radius of a sphere is not above zero.
    Radius,
    /// The image has no columns.
    Width,
    /// The image has no rows.
    Height,
    /// No sample is taken for a pixel.
    Samples,
    /// No bounce is allowed to a ray.
    Depth,
    /// The bytes of the image cannot be addressed on this machine.
    Size,
}

} // verus!
