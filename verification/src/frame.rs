//! Single-channel intensity frames: the image form the matcher works on.

use crate::CoreError;
use vstd::prelude::*;

verus! {

/// A single-channel 8-bit intensity image in row-major order. Screen
/// captures and templates are decoded and grayscaled into this form
/// before they reach the matcher.
#[derive(Debug, Clone)]
pub struct GrayFrame {
    /// Width in pixels.
    pub width: u32,
    /// Height in pixels.
    pub height: u32,
    /// Row-major intensity values; exactly `width * height` of them.
    pub pixels: Vec<u8>,
}

impl GrayFrame {
    /// Invariant: the pixel buffer holds one value per coordinate.
    pub open spec fn wf(self) -> bool {
        self.pixels@.len() == self.width * self.height
    }

    /// Build a frame from raw row-major intensity bytes. Fails with
    /// `InvalidInput` exactly when the buffer length does not equal
    /// `width * height`.
    pub fn new(width: u32, height: u32, pixels: Vec<u8>) -> (r: Result<Self, CoreError>)
        ensures
            r is Ok <==> pixels@.len() == width * height,
            r matches Ok(f) ==> f == (GrayFrame { width, height, pixels }) && f.wf(),
            r is Err ==> (r matches Err(e) && e == CoreError::InvalidInput),
    {
        proof {
            vstd::arithmetic::mul::lemma_mul_upper_bound(
                width as int,
                u32::MAX as int,
                height as int,
                u32::MAX as int,
            );
        }
        if pixels.len() as u64 == width as u64 * height as u64 {
            Ok(GrayFrame { width, height, pixels })
        } else {
            Err(CoreError::InvalidInput)
        }
    }

}

} // verus!
