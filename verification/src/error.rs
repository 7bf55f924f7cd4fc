//! The ways in which an operation of this crate can refuse its input.

use vstd::prelude::*;

verus! {

/// Why an operation refused its input.
#[derive(Debug, Clone, Copy, PartialEq, Eq, Structural)]
pub enum ToolboxError {
    /// The image has no pixels: its width or its height is zero.
    InvalidImage,
    /// The tile size is not smaller than both dimensions of the image.
    InvalidTileSize,
    /// Two sample sequences that must be compared have different lengths.
    LengthMismatch,
    /// A shape to draw does not fit inside the image.
    OutOfBounds,
}

} // verus!
