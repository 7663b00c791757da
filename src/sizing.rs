//! How many bytes a frame takes in each supported pixel format.
use vstd::prelude::*;
use crate::error::ConvertError;
use crate::layout::{compute_layout, layout_result, PlanarLayout};

verus! {

/// How the bytes of a frame are laid out.
///
/// Channel names give the order of the bytes in memory, first byte first:
/// `Rgb24` is R, G, B; `Rgba` is R, G, B, A; `Bgra` is B, G, R, A.
#[derive(Debug, Clone, Copy, PartialEq, Eq, Structural)]
pub enum PixelFormat {
    /// Interleaved, 3 bytes per pixel, R then G then B.
    Rgb24,
    /// Interleaved, 4 bytes per pixel, R, G, B, A.
    Rgba,
    /// Interleaved, 4 bytes per pixel, B, G, R, A.
    Bgra,
    /// Planar 4:2:0: a Y plane, then a U plane, then a V plane.
    I420,
}

impl PixelFormat {
    /// Bytes per pixel of an interleaved format; 0 for a planar one.
    pub open spec fn spec_bytes_per_pixel(self) -> nat {
        match self {
            PixelFormat::Rgb24 => 3,
            PixelFormat::Rgba => 4,
            PixelFormat::Bgra => 4,
            PixelFormat::I420 => 0,
        }
    }

    /// Bytes per pixel of an interleaved format; 0 for a planar one.
    pub fn bytes_per_pixel(&self) -> (r: usize)
        ensures
            r == self.spec_bytes_per_pixel(),
    {
        match self {
            PixelFormat::Rgb24 => 3,
            PixelFormat::Rgba => 4,
            PixelFormat::Bgra => 4,
            PixelFormat::I420 => 0,
        }
    }
}

/// Bytes of an unpadded interleaved frame: `height` rows of `width * bpp` bytes.
pub open spec fn interleaved_size_result(bpp: nat, width: usize, height: usize) -> Result<
    usize,
    ConvertError,
> {
    if width == 0 || height == 0 || width * bpp * height > usize::MAX {
        Err(ConvertError::InvalidDimensions)
    } else {
        Ok((width * bpp * height) as usize)
    }
}

/// What sizing a `width` × `height` frame of `format` gives; `alignment`
/// matters to the planar format only.
pub open spec fn size_result(
    format: PixelFormat,
    width: usize,
    height: usize,
    alignment: usize,
) -> Result<usize, ConvertError> {
    match format {
        PixelFormat::I420 => match layout_result(width, height, alignment) {
            Ok(l) => Ok(l.total_size),
            Err(e) => Err(e),
        },
        _ => interleaved_size_result(format.spec_bytes_per_pixel(), width, height),
    }
}

/// Bytes of an unpadded interleaved frame with `bpp` bytes per pixel.
pub fn interleaved_size(bpp: usize, width: usize, height: usize) -> (r: Result<usize, ConvertError>)
    ensures
        r == interleaved_size_result(bpp as nat, width, height),
{
    if width == 0 || height == 0 {
        return Err(ConvertError::InvalidDimensions);
    }
    let row = match width.checked_mul(bpp) {
        Some(v) => v,
        None => {
            proof {
                assert(width * bpp * height >= width * bpp) by (nonlinear_arith)
                    requires
                        height >= 1,
                ;
            }
            return Err(ConvertError::InvalidDimensions);
        },
    };
    match row.checked_mul(height) {
        Some(v) => Ok(v),
        None => Err(ConvertError::InvalidDimensions),
    }
}

/// Bytes that a `width` × `height` frame of `format` takes: the padded total
/// size of the canonical layout for `I420`, `height * width * bpp` for an
/// interleaved format.
pub fn size_for(format: PixelFormat, width: usize, height: usize, alignment: usize) -> (r: Result<
    usize,
    ConvertError,
>)
    ensures
        r == size_result(format, width, height, alignment),
{
    match format {
        PixelFormat::I420 => match compute_layout(width, height, alignment) {
            Ok(l) => Ok(l.total_size),
            Err(e) => Err(e),
        },
        _ => interleaved_size(format.bytes_per_pixel(), width, height),
    }
}

/// Makes `dst` exactly `size` zero bytes long, before anything is written to it.
pub fn prepare_destination(dst: &mut Vec<u8>, size: usize)
    ensures
        final(dst)@ == Seq::new(size as nat, |i: int| 0u8),
{
    dst.clear();
    dst.resize(size, 0u8);
    assert(final(dst)@ =~= Seq::new(size as nat, |i: int| 0u8));
}

} // verus!
