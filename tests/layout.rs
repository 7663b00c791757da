use frame_convert::error::ConvertError;
use frame_convert::layout::{compute_layout, is_power_of_two_usize, PlanarLayout, STRIDE_ALIGN};
use frame_convert::sizing::{size_for, PixelFormat};

fn layout(width: usize, height: usize, alignment: usize) -> PlanarLayout {
    compute_layout(width, height, alignment).expect("valid frame")
}

#[test]
fn planes_are_ordered_and_luma_stride_aligned() {
    for &(w, h, a) in &[(1, 1, 1), (2, 2, 16), (17, 10, 16), (640, 480, 16), (33, 7, 32), (5, 3, 2)] {
        let l = layout(w, h, a);
        assert!(l.u_offset < l.v_offset && l.v_offset < l.total_size);
        assert_eq!(l.y_stride % a, 0);
        assert!(l.y_stride >= w);
        assert!(l.uv_stride >= (w + 1) / 2);
    }
}

#[test]
fn layout_is_deterministic() {
    assert_eq!(compute_layout(17, 10, 16), compute_layout(17, 10, 16));
    assert_eq!(compute_layout(0, 10, 16), compute_layout(0, 10, 16));
    assert_eq!(compute_layout(1920, 1080, 16), compute_layout(1920, 1080, 16));
}

#[test]
fn single_pixel_frame() {
    let l = layout(1, 1, 16);
    assert_eq!(
        l,
        PlanarLayout {
            width: 1,
            height: 1,
            y_stride: 16,
            uv_stride: 16,
            u_offset: 16,
            v_offset: 32,
            total_size: 48,
        }
    );
    assert!(l.u_offset < l.v_offset);
}

#[test]
fn odd_width_rounds_strides_up_to_alignment() {
    let l = layout(17, 10, 16);
    assert_eq!(l.y_stride, 32);
    assert_eq!(l.uv_stride, 16);
    assert_eq!(l.u_offset, 320);
    assert_eq!(l.v_offset, 400);
    assert_eq!(l.total_size, 480);
}

#[test]
fn odd_height_rounds_chroma_rows_up() {
    let l = layout(3, 3, 1);
    assert_eq!(l.y_stride, 3);
    assert_eq!(l.uv_stride, 2);
    assert_eq!(l.u_offset, 9);
    assert_eq!(l.v_offset, 13);
    assert_eq!(l.total_size, 17);
}

#[test]
fn common_frame_size() {
    let l = layout(640, 480, STRIDE_ALIGN);
    assert_eq!(l.y_stride, 640);
    assert_eq!(l.uv_stride, 320);
    assert_eq!(l.u_offset, 640 * 480);
    assert_eq!(l.v_offset, 640 * 480 + 320 * 240);
    assert_eq!(l.total_size, 640 * 480 * 3 / 2);
}

#[test]
fn zero_width_is_invalid_dimensions() {
    assert_eq!(compute_layout(0, 10, 16), Err(ConvertError::InvalidDimensions));
    assert_eq!(compute_layout(10, 0, 16), Err(ConvertError::InvalidDimensions));
    assert_eq!(compute_layout(0, 0, 3), Err(ConvertError::InvalidDimensions));
}

#[test]
fn non_power_of_two_alignment_is_rejected() {
    assert_eq!(compute_layout(4, 4, 0), Err(ConvertError::InvalidAlignment));
    assert_eq!(compute_layout(4, 4, 12), Err(ConvertError::InvalidAlignment));
    assert_eq!(compute_layout(4, 4, 3), Err(ConvertError::InvalidAlignment));
}

#[test]
fn unaddressable_frame_is_invalid_dimensions() {
    assert_eq!(compute_layout(usize::MAX, 1, 16), Err(ConvertError::InvalidDimensions));
    assert_eq!(compute_layout(1 << 40, 1 << 40, 16), Err(ConvertError::InvalidDimensions));
}

#[test]
fn power_of_two_check() {
    for n in [1usize, 2, 4, 16, 1 << 20, 1 << 63] {
        assert!(is_power_of_two_usize(n));
    }
    for n in [0usize, 3, 6, 12, 17, usize::MAX] {
        assert!(!is_power_of_two_usize(n));
    }
}

#[test]
fn planar_size_is_padded_layout_size() {
    let size = size_for(PixelFormat::I420, 2, 2, 16).unwrap();
    assert!(size >= 2 * 3 / 2);
    assert_eq!(size, 64);
    assert_ne!(size, 2 * 2 * 3 / 2);
    assert_eq!(size_for(PixelFormat::I420, 17, 10, 16), Ok(480));
    assert_eq!(size_for(PixelFormat::I420, 0, 10, 16), Err(ConvertError::InvalidDimensions));
}

#[test]
fn interleaved_size_is_unpadded() {
    assert_eq!(size_for(PixelFormat::Rgb24, 17, 10, 16), Ok(510));
    assert_eq!(size_for(PixelFormat::Rgba, 17, 10, 16), Ok(680));
    assert_eq!(size_for(PixelFormat::Bgra, 2, 4, 16), Ok(32));
    assert_eq!(size_for(PixelFormat::Rgba, 0, 4, 16), Err(ConvertError::InvalidDimensions));
    assert_eq!(size_for(PixelFormat::Rgba, usize::MAX, 1, 16), Err(ConvertError::InvalidDimensions));
    assert_eq!(PixelFormat::Rgb24.bytes_per_pixel(), 3);
    assert_eq!(PixelFormat::I420.bytes_per_pixel(), 0);
}
