//! Geometric transforms of interleaved 4-byte-per-pixel frames: rotation by a
//! multiple of 90 degrees and horizontal mirroring. This module does the
//! dimension and stride bookkeeping; the primitive moves the pixels.
use vstd::prelude::*;
use crate::convert::{plane_fits, Conversion, PlaneView};
use crate::error::ConvertError;

verus! {

/// Bytes per pixel of the frames these transforms take.
pub const TRANSFORM_BPP: usize = 4;

/// A supported rotation angle.
pub open spec fn is_supported_angle(angle: u32) -> bool {
    angle == 0 || angle == 90 || angle == 180 || angle == 270
}

/// The dimensions of a `width` × `height` frame after rotating it by `angle`:
/// swapped for 90 and 270, unchanged for 0 and 180.
pub open spec fn rotated_dims_result(width: usize, height: usize, angle: u32) -> Result<
    (usize, usize),
    ConvertError,
> {
    if width == 0 || height == 0 {
        Err(ConvertError::InvalidDimensions)
    } else if !is_supported_angle(angle) {
        Err(ConvertError::UnsupportedAngle)
    } else if angle == 90 || angle == 270 {
        Ok((height, width))
    } else {
        Ok((width, height))
    }
}

/// Dimensions of a `width` × `height` frame rotated by `angle` degrees.
pub fn rotated_dims(width: usize, height: usize, angle: u32) -> (r: Result<
    (usize, usize),
    ConvertError,
>)
    ensures
        r == rotated_dims_result(width, height, angle),
{
    if width == 0 || height == 0 {
        return Err(ConvertError::InvalidDimensions);
    }
    if angle == 90 || angle == 270 {
        Ok((height, width))
    } else if angle == 0 || angle == 180 {
        Ok((width, height))
    } else {
        Err(ConvertError::UnsupportedAngle)
    }
}

/// The view of a 4-byte-per-pixel frame of `width` × `height` at `stride`.
pub open spec fn frame_view(stride: usize, width: usize, height: usize) -> PlaneView {
    PlaneView { offset: 0, stride, rows: height, row_bytes: (width * 4) as usize }
}

/// A frame of `width` × `height` at `stride` fits in `len` bytes.
pub open spec fn frame_fits(stride: usize, width: usize, height: usize, len: nat) -> bool {
    plane_fits(stride as nat, height as nat, width as nat * 4, len)
}

/// What dispatching a transform from a `width` × `height` source to a
/// `dst_width` × `dst_height` destination gives, once the dimensions are valid.
pub open spec fn transform_result(
    src_len: nat,
    src_stride: usize,
    dst_len: nat,
    dst_stride: usize,
    width: usize,
    height: usize,
    dst_width: usize,
    dst_height: usize,
) -> Result<Conversion<PlaneView, PlaneView>, ConvertError> {
    if !frame_fits(src_stride, width, height, src_len) || !frame_fits(
        dst_stride,
        dst_width,
        dst_height,
        dst_len,
    ) {
        Err(ConvertError::BufferSizeMismatch)
    } else {
        Ok(
            Conversion {
                width,
                height,
                src: frame_view(src_stride, width, height),
                dst: frame_view(dst_stride, dst_width, dst_height),
            },
        )
    }
}

/// What dispatching a rotation by `angle` gives.
pub open spec fn rotate_result(
    src_len: nat,
    src_stride: usize,
    dst_len: nat,
    dst_stride: usize,
    width: usize,
    height: usize,
    angle: u32,
) -> Result<Conversion<PlaneView, PlaneView>, ConvertError> {
    match rotated_dims_result(width, height, angle) {
        Err(e) => Err(e),
        Ok((dw, dh)) => transform_result(
            src_len,
            src_stride,
            dst_len,
            dst_stride,
            width,
            height,
            dw,
            dh,
        ),
    }
}

/// The view of a frame, or `None` where it does not fit in `len` bytes.
fn frame(stride: usize, width: usize, height: usize, len: usize) -> (r: Option<PlaneView>)
    requires
        height > 0,
    ensures
        match r {
            Some(v) => frame_fits(stride, width, height, len as nat) && v == frame_view(
                stride,
                width,
                height,
            ) && v.within(len as nat),
            None => !frame_fits(stride, width, height, len as nat),
        },
{
    let row_bytes = match width.checked_mul(TRANSFORM_BPP) {
        Some(v) => v,
        None => return None,
    };
    if row_bytes > stride {
        return None;
    }
    match stride.checked_mul(height - 1) {
        None => None,
        Some(b) => match b.checked_add(row_bytes) {
            Some(e) if e <= len => Some(PlaneView { offset: 0, stride, rows: height, row_bytes }),
            _ => None,
        },
    }
}

fn transform(
    src_len: usize,
    src_stride: usize,
    dst_len: usize,
    dst_stride: usize,
    width: usize,
    height: usize,
    dst_width: usize,
    dst_height: usize,
) -> (r: Result<Conversion<PlaneView, PlaneView>, ConvertError>)
    requires
        height > 0,
        dst_height > 0,
    ensures
        r == transform_result(
            src_len as nat,
            src_stride,
            dst_len as nat,
            dst_stride,
            width,
            height,
            dst_width,
            dst_height,
        ),
        r matches Ok(c) ==> c.src.within(src_len as nat) && c.dst.within(dst_len as nat),
{
    let src = match frame(src_stride, width, height, src_len) {
        Some(v) => v,
        None => return Err(ConvertError::BufferSizeMismatch),
    };
    let dst = match frame(dst_stride, dst_width, dst_height, dst_len) {
        Some(v) => v,
        None => return Err(ConvertError::BufferSizeMismatch),
    };
    Ok(Conversion { width, height, src, dst })
}

/// Dispatches a rotation of a 4-byte-per-pixel frame by `angle` degrees.
///
/// For 90 and 270 the destination is `height` pixels wide and `width` rows
/// high; for 0 and 180 it has the source's dimensions. Each buffer must hold
/// its frame at its stride. The result holds the views to hand to the
/// primitive, with `angle` as its mode.
pub fn rotate(
    src: &[u8],
    src_stride: usize,
    dst: &[u8],
    dst_stride: usize,
    width: usize,
    height: usize,
    angle: u32,
) -> (r: Result<Conversion<PlaneView, PlaneView>, ConvertError>)
    ensures
        r == rotate_result(src@.len(), src_stride, dst@.len(), dst_stride, width, height, angle),
        r matches Ok(c) ==> c.src.within(src@.len()) && c.dst.within(dst@.len()),
{
    let (dst_width, dst_height) = match rotated_dims(width, height, angle) {
        Ok(d) => d,
        Err(e) => return Err(e),
    };
    transform(src.len(), src_stride, dst.len(), dst_stride, width, height, dst_width, dst_height)
}

/// Dispatches a horizontal mirror of a 4-byte-per-pixel frame; the destination
/// has the source's dimensions.
pub fn mirror(
    src: &[u8],
    src_stride: usize,
    dst: &[u8],
    dst_stride: usize,
    width: usize,
    height: usize,
) -> (r: Result<Conversion<PlaneView, PlaneView>, ConvertError>)
    ensures
        r == (if width == 0 || height == 0 {
            Err(ConvertError::InvalidDimensions)
        } else {
            transform_result(
                src@.len(),
                src_stride,
                dst@.len(),
                dst_stride,
                width,
                height,
                width,
                height,
            )
        }),
        r matches Ok(c) ==> c.src.within(src@.len()) && c.dst.within(dst@.len()),
{
    if width == 0 || height == 0 {
        return Err(ConvertError::InvalidDimensions);
    }
    transform(src.len(), src_stride, dst.len(), dst_stride, width, height, width, height)
}

} // verus!
