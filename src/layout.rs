//! The canonical planar 4:2:0 layout: strides, plane offsets and total size of
//! a frame, derived from its dimensions and a power-of-two alignment.
use vstd::prelude::*;
use vstd::arithmetic::div_mod::{lemma_fundamental_div_mod, lemma_mod_multiples_basic};
use crate::error::ConvertError;

verus! {

/// Alignment, in bytes, of strides and plane starts unless a caller asks for another.
pub const STRIDE_ALIGN: usize = 16;

/// `n` is one of 1, 2, 4, 8, ...
pub open spec fn is_power_of_two(n: nat) -> bool
    decreases n,
{
    if n == 0 {
        false
    } else if n == 1 {
        true
    } else {
        n % 2 == 0 && is_power_of_two(n / 2)
    }
}

/// The smallest multiple of `a` that is at least `x` (for `a > 0`).
pub open spec fn align_up(x: nat, a: nat) -> nat {
    if a == 0 || x % a == 0 {
        x
    } else {
        (x / a + 1) * a
    }
}

/// Half of `n`, rounded up: the chroma extent that goes with a luma extent `n`.
pub open spec fn half_up(n: nat) -> nat {
    (n + 1) / 2
}

/// Bytes from one luma row to the next.
pub open spec fn y_stride_of(width: nat, alignment: nat) -> nat {
    align_up(width, alignment)
}

/// Bytes from one chroma row to the next, in either chroma plane.
pub open spec fn uv_stride_of(width: nat, alignment: nat) -> nat {
    align_up(half_up(width), alignment)
}

/// Where the U plane starts: after the luma plane, at an aligned offset.
pub open spec fn u_offset_of(width: nat, height: nat, alignment: nat) -> nat {
    align_up(y_stride_of(width, alignment) * height, alignment)
}

/// Bytes taken by one chroma plane.
pub open spec fn chroma_plane_size(width: nat, height: nat, alignment: nat) -> nat {
    uv_stride_of(width, alignment) * half_up(height)
}

/// Where the V plane starts: right after the U plane.
pub open spec fn v_offset_of(width: nat, height: nat, alignment: nat) -> nat {
    u_offset_of(width, height, alignment) + chroma_plane_size(width, height, alignment)
}

/// Bytes taken by the whole frame: right after the V plane.
pub open spec fn total_size_of(width: nat, height: nat, alignment: nat) -> nat {
    v_offset_of(width, height, alignment) + chroma_plane_size(width, height, alignment)
}

/// The layout of the frame can be addressed with `usize` offsets.
pub open spec fn layout_fits(width: nat, height: nat, alignment: nat) -> bool {
    total_size_of(width, height, alignment) <= usize::MAX
}

/// Stride and plane-offset layout of one planar 4:2:0 frame.
///
/// The Y plane starts at offset 0 and holds `height` rows of `y_stride` bytes;
/// the U and V planes start at `u_offset` and `v_offset` and hold
/// `ceil(height / 2)` rows of `uv_stride` bytes each.
#[derive(Debug, Clone, Copy, PartialEq, Eq, Structural)]
pub struct PlanarLayout {
    pub width: usize,
    pub height: usize,
    pub y_stride: usize,
    pub uv_stride: usize,
    pub u_offset: usize,
    pub v_offset: usize,
    pub total_size: usize,
}

impl PlanarLayout {
    /// The invariant every layout computed at `alignment` satisfies.
    pub open spec fn well_formed(self, alignment: nat) -> bool {
        &&& self.width > 0
        &&& self.height > 0
        &&& is_power_of_two(alignment)
        &&& self.width <= self.y_stride < self.width + alignment
        &&& (self.y_stride as nat) % alignment == 0
        &&& half_up(self.width as nat) <= self.uv_stride < half_up(self.width as nat) + alignment
        &&& (self.uv_stride as nat) % alignment == 0
        &&& self.u_offset >= self.y_stride * self.height
        &&& (self.u_offset as nat) % alignment == 0
        &&& self.v_offset == self.u_offset + self.uv_stride * half_up(self.height as nat)
        &&& self.total_size == self.v_offset + self.uv_stride * half_up(self.height as nat)
        &&& self.u_offset < self.v_offset < self.total_size
    }
}

/// What laying out a `width` × `height` frame at `alignment` gives.
pub open spec fn layout_result(width: usize, height: usize, alignment: usize) -> Result<
    PlanarLayout,
    ConvertError,
> {
    let (w, h, a) = (width as nat, height as nat, alignment as nat);
    if width == 0 || height == 0 {
        Err(ConvertError::InvalidDimensions)
    } else if !is_power_of_two(a) {
        Err(ConvertError::InvalidAlignment)
    } else if !layout_fits(w, h, a) {
        Err(ConvertError::InvalidDimensions)
    } else {
        Ok(
            PlanarLayout {
                width,
                height,
                y_stride: y_stride_of(w, a) as usize,
                uv_stride: uv_stride_of(w, a) as usize,
                u_offset: u_offset_of(w, h, a) as usize,
                v_offset: v_offset_of(w, h, a) as usize,
                total_size: total_size_of(w, h, a) as usize,
            },
        )
    }
}

/// `align_up` is the smallest multiple of `a` that is at least `x`.
pub proof fn lemma_align_up(x: nat, a: nat)
    requires
        a > 0,
    ensures
        x <= align_up(x, a) < x + a,
        align_up(x, a) % a == 0,
{
    lemma_fundamental_div_mod(x as int, a as int);
    if x % a != 0 {
        let q = x / a;
        lemma_mod_multiples_basic(q + 1 as int, a as int);
        assert(x < (q + 1) * a < x + a) by (nonlinear_arith)
            requires
                x == a * q + x % a,
                0 < x % a < a,
        ;
    }
}

/// Every part of a layout lies within its total size.
proof fn lemma_parts_within_total(w: nat, h: nat, a: nat)
    requires
        w > 0,
        h > 0,
        a > 0,
    ensures
        y_stride_of(w, a) <= y_stride_of(w, a) * h,
        y_stride_of(w, a) * h <= u_offset_of(w, h, a),
        uv_stride_of(w, a) <= chroma_plane_size(w, h, a),
        chroma_plane_size(w, h, a) <= v_offset_of(w, h, a),
        u_offset_of(w, h, a) <= v_offset_of(w, h, a) <= total_size_of(w, h, a),
{
    let ys = y_stride_of(w, a);
    lemma_align_up(ys * h, a);
    assert(ys <= ys * h) by (nonlinear_arith)
        requires
            h >= 1,
    ;
    let uv = uv_stride_of(w, a);
    assert(uv <= uv * half_up(h)) by (nonlinear_arith)
        requires
            half_up(h) >= 1,
    ;
}

/// The layout of a valid frame satisfies the layout invariant.
proof fn lemma_layout_well_formed(width: usize, height: usize, alignment: usize)
    requires
        width > 0,
        height > 0,
        is_power_of_two(alignment as nat),
        layout_fits(width as nat, height as nat, alignment as nat),
    ensures
        layout_result(width, height, alignment) matches Ok(l) && l.well_formed(alignment as nat),
{
    let (w, h, a) = (width as nat, height as nat, alignment as nat);
    lemma_align_up(w, a);
    lemma_align_up(half_up(w), a);
    lemma_align_up(y_stride_of(w, a) * h, a);
    lemma_parts_within_total(w, h, a);
    layout_ordering(w, h, a);
}

/// For every non-empty frame and power-of-two alignment, the U plane starts
/// before the V plane, the V plane starts before the end of the frame, and the
/// luma stride is a multiple of the alignment.
pub proof fn layout_ordering(width: nat, height: nat, alignment: nat)
    requires
        width > 0,
        height > 0,
        is_power_of_two(alignment),
    ensures
        u_offset_of(width, height, alignment) < v_offset_of(width, height, alignment),
        v_offset_of(width, height, alignment) < total_size_of(width, height, alignment),
        y_stride_of(width, alignment) % alignment == 0,
{
    lemma_align_up(width, alignment);
    lemma_align_up(half_up(width), alignment);
    lemma_parts_within_total(width, height, alignment);
}

/// Laying out the same frame twice gives the same result: the layout depends
/// on the width, height and alignment alone.
pub proof fn layout_deterministic(
    width: usize,
    height: usize,
    alignment: usize,
    first: Result<PlanarLayout, ConvertError>,
    second: Result<PlanarLayout, ConvertError>,
)
    requires
        first == layout_result(width, height, alignment),
        second == layout_result(width, height, alignment),
    ensures
        first == second,
{
}

/// A planar frame never takes fewer bytes than its samples: one luma byte per
/// pixel plus two chroma planes of `ceil(width / 2) * ceil(height / 2)` bytes.
/// Padding can only add to that.
pub proof fn planar_size_covers_samples(width: nat, height: nat, alignment: nat)
    requires
        width > 0,
        height > 0,
        is_power_of_two(alignment),
    ensures
        total_size_of(width, height, alignment) >= width * height + 2 * half_up(width)
            * half_up(height),
{
    let (ys, uv) = (y_stride_of(width, alignment), uv_stride_of(width, alignment));
    lemma_align_up(width, alignment);
    lemma_align_up(half_up(width), alignment);
    lemma_parts_within_total(width, height, alignment);
    assert(ys * height >= width * height) by (nonlinear_arith)
        requires
            ys >= width,
    ;
    assert(uv * half_up(height) >= half_up(width) * half_up(height)) by (nonlinear_arith)
        requires
            uv >= half_up(width),
    ;
    assert(2 * half_up(width) * half_up(height) == half_up(width) * half_up(height) + half_up(
        width,
    ) * half_up(height)) by (nonlinear_arith);
}

/// Tells whether `n` is a power of two.
pub fn is_power_of_two_usize(n: usize) -> (r: bool)
    ensures
        r == is_power_of_two(n as nat),
{
    if n == 0 {
        return false;
    }
    let mut m: usize = n;
    while m > 1 && m % 2 == 0
        invariant
            m > 0,
            is_power_of_two(n as nat) == is_power_of_two(m as nat),
        decreases m,
    {
        m = m / 2;
    }
    m == 1
}

/// Rounds `x` up to a multiple of `a`, or `None` where that is beyond `usize`.
fn align_up_checked(x: usize, a: usize) -> (r: Option<usize>)
    requires
        a > 0,
    ensures
        match r {
            Some(v) => v == align_up(x as nat, a as nat),
            None => align_up(x as nat, a as nat) > usize::MAX,
        },
{
    let rem = x % a;
    if rem == 0 {
        Some(x)
    } else {
        proof {
            lemma_fundamental_div_mod(x as int, a as int);
            let q = x as nat / a as nat;
            assert((q + 1) * a == (x - rem) + a) by (nonlinear_arith)
                requires
                    x == a * q + rem,
            ;
        }
        (x - rem).checked_add(a)
    }
}

/// Computes the canonical planar 4:2:0 layout of a `width` × `height` frame
/// with strides and plane starts aligned to `alignment` bytes.
///
/// Fails with `InvalidDimensions` when a dimension is zero (or the frame is too
/// large to address) and with `InvalidAlignment` when `alignment` is not a
/// power of two.
pub fn compute_layout(width: usize, height: usize, alignment: usize) -> (r: Result<
    PlanarLayout,
    ConvertError,
>)
    ensures
        r == layout_result(width, height, alignment),
        r matches Ok(l) ==> l.well_formed(alignment as nat),
{
    if width == 0 || height == 0 {
        return Err(ConvertError::InvalidDimensions);
    }
    if !is_power_of_two_usize(alignment) {
        return Err(ConvertError::InvalidAlignment);
    }
    let ghost (w, h, a) = (width as nat, height as nat, alignment as nat);
    proof {
        lemma_parts_within_total(w, h, a);
    }
    let y_stride = match align_up_checked(width, alignment) {
        Some(v) => v,
        None => return Err(ConvertError::InvalidDimensions),
    };
    let uv_stride = match align_up_checked(width / 2 + width % 2, alignment) {
        Some(v) => v,
        None => return Err(ConvertError::InvalidDimensions),
    };
    let y_size = match y_stride.checked_mul(height) {
        Some(v) => v,
        None => return Err(ConvertError::InvalidDimensions),
    };
    let u_offset = match align_up_checked(y_size, alignment) {
        Some(v) => v,
        None => return Err(ConvertError::InvalidDimensions),
    };
    let chroma_size = match uv_stride.checked_mul(height / 2 + height % 2) {
        Some(v) => v,
        None => return Err(ConvertError::InvalidDimensions),
    };
    let v_offset = match u_offset.checked_add(chroma_size) {
        Some(v) => v,
        None => return Err(ConvertError::InvalidDimensions),
    };
    let total_size = match v_offset.checked_add(chroma_size) {
        Some(v) => v,
        None => return Err(ConvertError::InvalidDimensions),
    };
    proof {
        lemma_layout_well_formed(width, height, alignment);
    }
    Ok(
        PlanarLayout {
            width,
            height,
            y_stride,
            uv_stride,
            u_offset,
            v_offset,
            total_size,
        },
    )
}

} // verus!
