//! Validation of the render parameters.
//!
//! A render request is valid when both dimensions are positive, the scale
//! factor is positive, and the pan point lies inside the raster. The scale
//! factor itself is a floating-point value held by the caller; the caller
//! hands over the one fact the decision needs, whether it is positive.

use vstd::prelude::*;

verus! {

/// Why a render request was rejected.
#[derive(Clone, Copy, Debug, PartialEq, Eq, Structural)]
pub enum RenderError {
    /// `width` or `height` is zero, so the pixel-to-plane mapping is
    /// undefined.
    ZeroDimension,
    /// The scale factor is zero or negative, so the zoomed window is
    /// degenerate or inverted.
    NonPositiveScale,
    /// The pan point does not lie inside `[0, width) x [0, height)`.
    PanOutOfBounds,
}

/// Accept a render request exactly when the dimensions are positive, the
/// scale factor is positive, and the pan point is in bounds; otherwise name
/// the first failing condition, checked in that order.
pub fn validate_params(
    width: u32,
    height: u32,
    mouse_x: u32,
    mouse_y: u32,
    scale_positive: bool,
) -> (r: Result<(), RenderError>)
    ensures
        r is Ok <==> (width > 0 && height > 0 && scale_positive && mouse_x < width && mouse_y
            < height),
        (width == 0 || height == 0) ==> r == Err::<(), RenderError>(RenderError::ZeroDimension),
        (width > 0 && height > 0 && !scale_positive) ==> r == Err::<(), RenderError>(
            RenderError::NonPositiveScale,
        ),
        (width > 0 && height > 0 && scale_positive && (mouse_x >= width || mouse_y >= height))
            ==> r == Err::<(), RenderError>(RenderError::PanOutOfBounds),
{
    if width == 0 || height == 0 {
        Err(RenderError::ZeroDimension)
    } else if !scale_positive {
        Err(RenderError::NonPositiveScale)
    } else if mouse_x >= width || mouse_y >= height {
        Err(RenderError::PanOutOfBounds)
    } else {
        Ok(())
    }
}

} // verus!
