//! Conversion dispatch: for each supported pair of formats, validate the
//! source, size the destination and resolve the plane views that the native
//! conversion primitive is handed.
use vstd::prelude::*;
use crate::error::ConvertError;
use crate::layout::{
    compute_layout, half_up, layout_result, total_size_of, PlanarLayout, STRIDE_ALIGN,
};
use crate::sizing::{interleaved_size, interleaved_size_result, prepare_destination};

verus! {

/// A non-owning view of one plane inside a byte buffer: `rows` rows of which the
/// first `row_bytes` bytes are meaningful, `stride` bytes apart, from `offset`.
#[derive(Debug, Clone, Copy, PartialEq, Eq, Structural)]
pub struct PlaneView {
    pub offset: usize,
    pub stride: usize,
    pub rows: usize,
    pub row_bytes: usize,
}

impl PlaneView {
    /// One past the last meaningful byte of the plane.
    pub open spec fn end(self) -> int {
        self.offset + self.stride * (self.rows - 1) + self.row_bytes
    }

    /// The plane is non-empty, its rows do not overlap, and it ends within `len` bytes.
    pub open spec fn within(self, len: nat) -> bool {
        &&& self.rows > 0
        &&& self.row_bytes <= self.stride
        &&& self.end() <= len
    }
}

/// The three planes of a planar 4:2:0 frame.
#[derive(Debug, Clone, Copy, PartialEq, Eq, Structural)]
pub struct I420Planes {
    pub y: PlaneView,
    pub u: PlaneView,
    pub v: PlaneView,
}

impl I420Planes {
    /// Y, U and V lie in that order, without overlap, within `len` bytes.
    pub open spec fn within(self, len: nat) -> bool {
        &&& self.y.offset == 0
        &&& self.y.within(self.u.offset as nat)
        &&& self.u.within(self.v.offset as nat)
        &&& self.v.within(len)
    }
}

/// The luma and interleaved chroma planes of a semi-planar 4:2:0 frame.
#[derive(Debug, Clone, Copy, PartialEq, Eq, Structural)]
pub struct Nv12Planes {
    pub y: PlaneView,
    pub uv: PlaneView,
}

/// Everything the conversion primitive needs for one frame: the dimensions and
/// the resolved views of the source and destination planes.
#[derive(Debug, PartialEq, Eq, Structural)]
pub struct Conversion<S, D> {
    pub width: usize,
    pub height: usize,
    pub src: S,
    pub dst: D,
}

/// `n` zero bytes.
pub open spec fn zeros(n: nat) -> Seq<u8> {
    Seq::new(n, |i: int| 0u8)
}

/// The plane views of a frame laid out as `l`: Y at 0, U at `u_offset`, V at `v_offset`.
pub open spec fn i420_planes_of(l: PlanarLayout) -> I420Planes {
    let chroma_rows = half_up(l.height as nat) as usize;
    let chroma_bytes = half_up(l.width as nat) as usize;
    I420Planes {
        y: PlaneView { offset: 0, stride: l.y_stride, rows: l.height, row_bytes: l.width },
        u: PlaneView {
            offset: l.u_offset,
            stride: l.uv_stride,
            rows: chroma_rows,
            row_bytes: chroma_bytes,
        },
        v: PlaneView {
            offset: l.v_offset,
            stride: l.uv_stride,
            rows: chroma_rows,
            row_bytes: chroma_bytes,
        },
    }
}

/// The planes of a well-formed layout lie in order within its total size:
/// Y ends before U starts, U ends before V starts, V ends within the frame.
pub proof fn i420_planes_disjoint(l: PlanarLayout, alignment: nat)
    requires
        l.well_formed(alignment),
    ensures
        i420_planes_of(l).within(l.total_size as nat),
{
    let (w, h) = (l.width as nat, l.height as nat);
    let (hw, hh) = (half_up(w), half_up(h));
    assert(l.y_stride * (h - 1) + w <= l.y_stride * h) by (nonlinear_arith)
        requires
            w <= l.y_stride,
            h >= 1,
    ;
    assert(l.uv_stride * (hh - 1) + hw <= l.uv_stride * hh) by (nonlinear_arith)
        requires
            hw <= l.uv_stride,
            hh >= 1,
    ;
}

/// The plane views of a well-formed layout.
fn i420_planes(l: PlanarLayout, Ghost(alignment): Ghost<nat>) -> (r: I420Planes)
    requires
        l.well_formed(alignment),
    ensures
        r == i420_planes_of(l),
{
    let chroma_rows = l.height / 2 + l.height % 2;
    let chroma_bytes = l.width / 2 + l.width % 2;
    I420Planes {
        y: PlaneView { offset: 0, stride: l.y_stride, rows: l.height, row_bytes: l.width },
        u: PlaneView {
            offset: l.u_offset,
            stride: l.uv_stride,
            rows: chroma_rows,
            row_bytes: chroma_bytes,
        },
        v: PlaneView {
            offset: l.v_offset,
            stride: l.uv_stride,
            rows: chroma_rows,
            row_bytes: chroma_bytes,
        },
    }
}

/// The view of an interleaved source of `src_len` bytes with `bpp` bytes per
/// pixel; its stride is `src_len / height`, so rows may carry padding, but the
/// length must divide evenly into rows that hold `width` pixels.
pub open spec fn interleaved_source_result(bpp: nat, width: nat, height: nat, src_len: nat) -> Result<
    PlaneView,
    ConvertError,
> {
    if height == 0 || src_len % height != 0 || width * bpp > src_len / height {
        Err(ConvertError::BufferSizeMismatch)
    } else {
        Ok(
            PlaneView {
                offset: 0,
                stride: (src_len / height) as usize,
                rows: height as usize,
                row_bytes: (width * bpp) as usize,
            },
        )
    }
}

/// The view of the single plane of an unpadded interleaved frame.
pub open spec fn packed_view(bpp: nat, width: nat, height: nat) -> PlaneView {
    PlaneView {
        offset: 0,
        stride: (width * bpp) as usize,
        rows: height as usize,
        row_bytes: (width * bpp) as usize,
    }
}

proof fn packed_view_within(row_bytes: nat, height: nat)
    requires
        height > 0,
    ensures
        row_bytes * (height - 1) + row_bytes == row_bytes * height,
{
    assert(row_bytes * (height - 1) + row_bytes == row_bytes * height) by (nonlinear_arith);
}

fn interleaved_source(bpp: usize, width: usize, height: usize, src_len: usize) -> (r: Result<
    PlaneView,
    ConvertError,
>)
    requires
        height > 0,
    ensures
        r == interleaved_source_result(bpp as nat, width as nat, height as nat, src_len as nat),
        r matches Ok(v) ==> v.within(src_len as nat),
{
    if src_len % height != 0 {
        return Err(ConvertError::BufferSizeMismatch);
    }
    let stride = src_len / height;
    let row_bytes = match width.checked_mul(bpp) {
        Some(v) => v,
        None => return Err(ConvertError::BufferSizeMismatch),
    };
    if row_bytes > stride {
        return Err(ConvertError::BufferSizeMismatch);
    }
    proof {
        vstd::arithmetic::div_mod::lemma_fundamental_div_mod(src_len as int, height as int);
        assert(stride * (height - 1) + row_bytes <= src_len) by (nonlinear_arith)
            requires
                row_bytes <= stride,
                height >= 1,
                src_len == height * stride,
        ;
    }
    Ok(PlaneView { offset: 0, stride, rows: height, row_bytes })
}

/// What dispatching an interleaved source with `bpp` bytes per pixel to I420 gives.
pub open spec fn to_i420_result(bpp: nat, width: usize, height: usize, src_len: nat) -> Result<
    Conversion<PlaneView, I420Planes>,
    ConvertError,
> {
    match layout_result(width, height, STRIDE_ALIGN) {
        Err(e) => Err(e),
        Ok(l) => match interleaved_source_result(bpp, width as nat, height as nat, src_len) {
            Err(e) => Err(e),
            Ok(s) => Ok(Conversion { width, height, src: s, dst: i420_planes_of(l) }),
        },
    }
}

/// What dispatching I420 to an interleaved destination with `bpp` bytes per pixel gives.
pub open spec fn from_i420_result(bpp: nat, width: usize, height: usize, src_len: nat) -> Result<
    Conversion<I420Planes, PlaneView>,
    ConvertError,
> {
    match layout_result(width, height, STRIDE_ALIGN) {
        Err(e) => Err(e),
        Ok(l) => if src_len < l.total_size {
            Err(ConvertError::BufferSizeMismatch)
        } else {
            match interleaved_size_result(bpp, width, height) {
                Err(e) => Err(e),
                Ok(_) => Ok(
                    Conversion {
                        width,
                        height,
                        src: i420_planes_of(l),
                        dst: packed_view(bpp, width as nat, height as nat),
                    },
                ),
            }
        },
    }
}

/// What dispatching one interleaved format to another gives.
pub open spec fn interleaved_result(
    src_bpp: nat,
    dst_bpp: nat,
    width: usize,
    height: usize,
    src_len: nat,
) -> Result<Conversion<PlaneView, PlaneView>, ConvertError> {
    if width == 0 || height == 0 {
        Err(ConvertError::InvalidDimensions)
    } else {
        match interleaved_source_result(src_bpp, width as nat, height as nat, src_len) {
            Err(e) => Err(e),
            Ok(s) => match interleaved_size_result(dst_bpp, width, height) {
                Err(e) => Err(e),
                Ok(_) => Ok(
                    Conversion {
                        width,
                        height,
                        src: s,
                        dst: packed_view(dst_bpp, width as nat, height as nat),
                    },
                ),
            },
        }
    }
}

/// The destination of a dispatch is exactly sized and zero-filled on success,
/// and left as it was on failure.
pub open spec fn destination_prepared<T>(
    r: Result<T, ConvertError>,
    size: nat,
    before: Seq<u8>,
    after: Seq<u8>,
) -> bool {
    match r {
        Ok(_) => after == zeros(size),
        Err(_) => after == before,
    }
}

fn interleaved_to_i420(
    bpp: usize,
    width: usize,
    height: usize,
    src_len: usize,
    dst: &mut Vec<u8>,
) -> (r: Result<Conversion<PlaneView, I420Planes>, ConvertError>)
    ensures
        r == to_i420_result(bpp as nat, width, height, src_len as nat),
        destination_prepared(
            r,
            total_size_of(width as nat, height as nat, STRIDE_ALIGN as nat),
            old(dst)@,
            final(dst)@,
        ),
        r matches Ok(c) ==> c.src.within(src_len as nat) && c.dst.within(final(dst)@.len()),
{
    let l = match compute_layout(width, height, STRIDE_ALIGN) {
        Ok(l) => l,
        Err(e) => return Err(e),
    };
    proof {
        i420_planes_disjoint(l, STRIDE_ALIGN as nat);
    }
    let src = match interleaved_source(bpp, width, height, src_len) {
        Ok(v) => v,
        Err(e) => return Err(e),
    };
    let planes = i420_planes(l, Ghost(STRIDE_ALIGN as nat));
    prepare_destination(dst, l.total_size);
    Ok(Conversion { width, height, src, dst: planes })
}

fn i420_to_interleaved(
    bpp: usize,
    width: usize,
    height: usize,
    src_len: usize,
    dst: &mut Vec<u8>,
) -> (r: Result<Conversion<I420Planes, PlaneView>, ConvertError>)
    ensures
        r == from_i420_result(bpp as nat, width, height, src_len as nat),
        destination_prepared(r, (width * bpp * height) as nat, old(dst)@, final(dst)@),
        r matches Ok(c) ==> c.src.within(src_len as nat) && c.dst.within(final(dst)@.len()),
{
    let l = match compute_layout(width, height, STRIDE_ALIGN) {
        Ok(l) => l,
        Err(e) => return Err(e),
    };
    proof {
        i420_planes_disjoint(l, STRIDE_ALIGN as nat);
    }
    if src_len < l.total_size {
        return Err(ConvertError::BufferSizeMismatch);
    }
    let size = match interleaved_size(bpp, width, height) {
        Ok(v) => v,
        Err(e) => return Err(e),
    };
    let planes = i420_planes(l, Ghost(STRIDE_ALIGN as nat));
    proof {
        assert(width * bpp <= width * bpp * height) by (nonlinear_arith)
            requires
                height >= 1,
        ;
    }
    let row_bytes = width * bpp;
    proof {
        packed_view_within(row_bytes as nat, height as nat);
    }
    prepare_destination(dst, size);
    Ok(
        Conversion {
            width,
            height,
            src: planes,
            dst: PlaneView { offset: 0, stride: row_bytes, rows: height, row_bytes },
        },
    )
}

fn interleaved_to_interleaved(
    src_bpp: usize,
    dst_bpp: usize,
    width: usize,
    height: usize,
    src_len: usize,
    dst: &mut Vec<u8>,
) -> (r: Result<Conversion<PlaneView, PlaneView>, ConvertError>)
    ensures
        r == interleaved_result(src_bpp as nat, dst_bpp as nat, width, height, src_len as nat),
        destination_prepared(r, (width * dst_bpp * height) as nat, old(dst)@, final(dst)@),
        r matches Ok(c) ==> c.src.within(src_len as nat) && c.dst.within(final(dst)@.len()),
{
    if width == 0 || height == 0 {
        return Err(ConvertError::InvalidDimensions);
    }
    let src = match interleaved_source(src_bpp, width, height, src_len) {
        Ok(v) => v,
        Err(e) => return Err(e),
    };
    let size = match interleaved_size(dst_bpp, width, height) {
        Ok(v) => v,
        Err(e) => return Err(e),
    };
    proof {
        assert(width * dst_bpp <= width * dst_bpp * height) by (nonlinear_arith)
            requires
                height >= 1,
        ;
    }
    let row_bytes = width * dst_bpp;
    proof {
        packed_view_within(row_bytes as nat, height as nat);
    }
    prepare_destination(dst, size);
    Ok(
        Conversion {
            width,
            height,
            src,
            dst: PlaneView { offset: 0, stride: row_bytes, rows: height, row_bytes },
        },
    )
}

/// Dispatches RGB24 (bytes R, G, B) to I420.
///
/// On success `dst` is exactly the padded I420 size of the frame, zero-filled,
/// and the result holds the views to hand to the primitive: the source at
/// stride `src.len() / height`, the destination planes of the canonical layout.
/// On failure `dst` is untouched.
pub fn rgb_to_i420(width: usize, height: usize, src: &[u8], dst: &mut Vec<u8>) -> (r: Result<
    Conversion<PlaneView, I420Planes>,
    ConvertError,
>)
    ensures
        r == to_i420_result(3, width, height, src@.len()),
        destination_prepared(
            r,
            total_size_of(width as nat, height as nat, STRIDE_ALIGN as nat),
            old(dst)@,
            final(dst)@,
        ),
        r matches Ok(c) ==> c.src.within(src@.len()) && c.dst.within(final(dst)@.len()),
{
    interleaved_to_i420(3, width, height, src.len(), dst)
}

/// Dispatches RGBA (bytes R, G, B, A) to I420; see `rgb_to_i420`.
pub fn rgba_to_i420(width: usize, height: usize, src: &[u8], dst: &mut Vec<u8>) -> (r: Result<
    Conversion<PlaneView, I420Planes>,
    ConvertError,
>)
    ensures
        r == to_i420_result(4, width, height, src@.len()),
        destination_prepared(
            r,
            total_size_of(width as nat, height as nat, STRIDE_ALIGN as nat),
            old(dst)@,
            final(dst)@,
        ),
        r matches Ok(c) ==> c.src.within(src@.len()) && c.dst.within(final(dst)@.len()),
{
    interleaved_to_i420(4, width, height, src.len(), dst)
}

/// Dispatches BGRA (bytes B, G, R, A) to I420; see `rgb_to_i420`.
pub fn bgra_to_i420(width: usize, height: usize, src: &[u8], dst: &mut Vec<u8>) -> (r: Result<
    Conversion<PlaneView, I420Planes>,
    ConvertError,
>)
    ensures
        r == to_i420_result(4, width, height, src@.len()),
        destination_prepared(
            r,
            total_size_of(width as nat, height as nat, STRIDE_ALIGN as nat),
            old(dst)@,
            final(dst)@,
        ),
        r matches Ok(c) ==> c.src.within(src@.len()) && c.dst.within(final(dst)@.len()),
{
    interleaved_to_i420(4, width, height, src.len(), dst)
}

/// Dispatches I420 in the canonical layout to RGB24 (bytes R, G, B).
///
/// The source must hold the padded I420 size of the frame. On success `dst` is
/// exactly `width * 3 * height` zero bytes and the result holds the source
/// planes and the unpadded destination view. On failure `dst` is untouched.
pub fn i420_to_rgb(width: usize, height: usize, src: &[u8], dst: &mut Vec<u8>) -> (r: Result<
    Conversion<I420Planes, PlaneView>,
    ConvertError,
>)
    ensures
        r == from_i420_result(3, width, height, src@.len()),
        destination_prepared(r, (width * 3 * height) as nat, old(dst)@, final(dst)@),
        r matches Ok(c) ==> c.src.within(src@.len()) && c.dst.within(final(dst)@.len()),
{
    i420_to_interleaved(3, width, height, src.len(), dst)
}

/// Dispatches I420 in the canonical layout to BGRA (bytes B, G, R, A); see
/// `i420_to_rgb`.
pub fn i420_to_bgra(width: usize, height: usize, src: &[u8], dst: &mut Vec<u8>) -> (r: Result<
    Conversion<I420Planes, PlaneView>,
    ConvertError,
>)
    ensures
        r == from_i420_result(4, width, height, src@.len()),
        destination_prepared(r, (width * 4 * height) as nat, old(dst)@, final(dst)@),
        r matches Ok(c) ==> c.src.within(src@.len()) && c.dst.within(final(dst)@.len()),
{
    i420_to_interleaved(4, width, height, src.len(), dst)
}

/// Dispatches RGB24 (bytes R, G, B) to RGBA (bytes R, G, B, A).
///
/// On success `dst` is exactly `width * 4 * height` zero bytes; on failure it
/// is untouched.
pub fn rgb_to_rgba(width: usize, height: usize, src: &[u8], dst: &mut Vec<u8>) -> (r: Result<
    Conversion<PlaneView, PlaneView>,
    ConvertError,
>)
    ensures
        r == interleaved_result(3, 4, width, height, src@.len()),
        destination_prepared(r, (width * 4 * height) as nat, old(dst)@, final(dst)@),
        r matches Ok(c) ==> c.src.within(src@.len()) && c.dst.within(final(dst)@.len()),
{
    interleaved_to_interleaved(3, 4, width, height, src.len(), dst)
}

/// A plane of `rows` rows of `row_bytes` bytes, `stride` apart from offset 0,
/// fits in `len` bytes.
pub open spec fn plane_fits(stride: nat, rows: nat, row_bytes: nat, len: nat) -> bool {
    &&& rows > 0
    &&& row_bytes <= stride
    &&& stride * (rows - 1) + row_bytes <= len
}

/// Tells whether a plane fits in `len` bytes.
fn check_plane(stride: usize, rows: usize, row_bytes: usize, len: usize) -> (r: bool)
    requires
        rows > 0,
    ensures
        r == plane_fits(stride as nat, rows as nat, row_bytes as nat, len as nat),
{
    if row_bytes > stride {
        return false;
    }
    match stride.checked_mul(rows - 1) {
        None => false,
        Some(b) => match b.checked_add(row_bytes) {
            None => false,
            Some(e) => e <= len,
        },
    }
}

/// What dispatching NV12 planes to I420 gives.
pub open spec fn nv12_result(
    y_len: nat,
    stride_y: usize,
    uv_len: nat,
    stride_uv: usize,
    width: usize,
    height: usize,
) -> Result<Conversion<Nv12Planes, I420Planes>, ConvertError> {
    let (hw, hh) = (half_up(width as nat), half_up(height as nat));
    match layout_result(width, height, STRIDE_ALIGN) {
        Err(e) => Err(e),
        Ok(l) => if !plane_fits(stride_y as nat, height as nat, width as nat, y_len)
            || !plane_fits(stride_uv as nat, hh, 2 * hw, uv_len) {
            Err(ConvertError::BufferSizeMismatch)
        } else {
            Ok(
                Conversion {
                    width,
                    height,
                    src: Nv12Planes {
                        y: PlaneView { offset: 0, stride: stride_y, rows: height, row_bytes: width },
                        uv: PlaneView {
                            offset: 0,
                            stride: stride_uv,
                            rows: hh as usize,
                            row_bytes: (2 * hw) as usize,
                        },
                    },
                    dst: i420_planes_of(l),
                },
            )
        },
    }
}

/// Dispatches NV12, given as a luma plane and an interleaved U/V plane with
/// their strides, to I420.
///
/// The luma plane must hold `height` rows of `width` bytes, `src_stride_y`
/// apart; the chroma plane `ceil(height / 2)` rows of `2 * ceil(width / 2)`
/// bytes, `src_stride_uv` apart. On success `dst` is exactly the padded I420
/// size of the frame, zero-filled; on failure it is untouched.
pub fn nv12_to_i420(
    src_y: &[u8],
    src_stride_y: usize,
    src_uv: &[u8],
    src_stride_uv: usize,
    width: usize,
    height: usize,
    dst: &mut Vec<u8>,
) -> (r: Result<Conversion<Nv12Planes, I420Planes>, ConvertError>)
    ensures
        r == nv12_result(src_y@.len(), src_stride_y, src_uv@.len(), src_stride_uv, width, height),
        destination_prepared(
            r,
            total_size_of(width as nat, height as nat, STRIDE_ALIGN as nat),
            old(dst)@,
            final(dst)@,
        ),
        r matches Ok(c) ==> c.src.y.within(src_y@.len()) && c.src.uv.within(src_uv@.len())
            && c.dst.within(final(dst)@.len()),
{
    let l = match compute_layout(width, height, STRIDE_ALIGN) {
        Ok(l) => l,
        Err(e) => return Err(e),
    };
    proof {
        i420_planes_disjoint(l, STRIDE_ALIGN as nat);
    }
    let chroma_rows = height / 2 + height % 2;
    let chroma_samples = width / 2 + width % 2;
    if !check_plane(src_stride_y, height, width, src_y.len()) {
        return Err(ConvertError::BufferSizeMismatch);
    }
    let chroma_bytes = match chroma_samples.checked_mul(2) {
        Some(v) => v,
        None => return Err(ConvertError::BufferSizeMismatch),
    };
    if !check_plane(src_stride_uv, chroma_rows, chroma_bytes, src_uv.len()) {
        return Err(ConvertError::BufferSizeMismatch);
    }
    let planes = i420_planes(l, Ghost(STRIDE_ALIGN as nat));
    prepare_destination(dst, l.total_size);
    Ok(
        Conversion {
            width,
            height,
            src: Nv12Planes {
                y: PlaneView { offset: 0, stride: src_stride_y, rows: height, row_bytes: width },
                uv: PlaneView {
                    offset: 0,
                    stride: src_stride_uv,
                    rows: chroma_rows,
                    row_bytes: chroma_bytes,
                },
            },
            dst: planes,
        },
    )
}

/// Maps the status the conversion primitive returned: 0 is success, anything
/// else is `ConversionFailed`.
pub fn check_status(status: i32) -> (r: Result<(), ConvertError>)
    ensures
        r == (if status == 0 {
            Ok(())
        } else {
            Err(ConvertError::ConversionFailed)
        }),
{
    if status == 0 {
        Ok(())
    } else {
        Err(ConvertError::ConversionFailed)
    }
}

/// A stride or dimension as the primitive's `int` parameter; values beyond
/// `i32::MAX` are `InvalidDimensions`.
pub fn c_int_of(n: usize) -> (r: Result<i32, ConvertError>)
    ensures
        r == (if n <= i32::MAX {
            Ok(n as i32)
        } else {
            Err(ConvertError::InvalidDimensions)
        }),
{
    if n <= 2147483647 {
        Ok(n as i32)
    } else {
        Err(ConvertError::InvalidDimensions)
    }
}

} // verus!
