use frame_convert::convert::{
    bgra_to_i420, c_int_of, check_status, i420_to_bgra, i420_to_rgb, nv12_to_i420, rgb_to_i420,
    rgb_to_rgba, rgba_to_i420, PlaneView,
};
use frame_convert::error::ConvertError;
use frame_convert::sizing::prepare_destination;

#[test]
fn rgb_to_i420_sizes_destination_to_padded_layout() {
    let src = vec![7u8; 2 * 2 * 3];
    let mut dst = vec![9u8; 3];
    let c = rgb_to_i420(2, 2, &src, &mut dst).unwrap();
    assert_eq!(dst, vec![0u8; 64]);
    assert_eq!(c.src, PlaneView { offset: 0, stride: 6, rows: 2, row_bytes: 6 });
    assert_eq!(c.dst.y, PlaneView { offset: 0, stride: 16, rows: 2, row_bytes: 2 });
    assert_eq!(c.dst.u, PlaneView { offset: 32, stride: 16, rows: 1, row_bytes: 1 });
    assert_eq!(c.dst.v, PlaneView { offset: 48, stride: 16, rows: 1, row_bytes: 1 });
    assert_eq!((c.width, c.height), (2, 2));
}

#[test]
fn interleaved_source_stride_tolerates_row_padding() {
    let src = vec![0u8; 3 * 20];
    let mut dst = Vec::new();
    let c = rgba_to_i420(4, 3, &src, &mut dst).unwrap();
    assert_eq!(c.src.stride, 20);
    assert_eq!(c.src.row_bytes, 16);
    assert_eq!(dst.len(), 16 * 3 + 16 * 2 + 16 * 2);
}

#[test]
fn odd_frame_chroma_offsets() {
    let src = vec![0u8; 17 * 10 * 4];
    let mut dst = Vec::new();
    let c = bgra_to_i420(17, 10, &src, &mut dst).unwrap();
    assert_eq!(dst.len(), 480);
    assert_eq!(c.dst.u.offset, 320);
    assert_eq!(c.dst.v.offset, 400);
    assert_eq!(c.dst.u.rows, 5);
    assert_eq!(c.dst.u.row_bytes, 9);
    assert_eq!(c.src.stride, 68);
}

#[test]
fn source_not_divisible_into_rows_is_mismatch() {
    let src = vec![0u8; 13];
    let mut dst = vec![1u8, 2, 3];
    assert_eq!(rgb_to_i420(2, 2, &src, &mut dst), Err(ConvertError::BufferSizeMismatch));
    assert_eq!(dst, vec![1u8, 2, 3]);
}

#[test]
fn source_rows_too_short_is_mismatch() {
    let src = vec![0u8; 2 * 7];
    let mut dst = Vec::new();
    assert_eq!(rgba_to_i420(2, 2, &src, &mut dst), Err(ConvertError::BufferSizeMismatch));
    assert!(dst.is_empty());
}

#[test]
fn zero_dimension_dispatch_is_invalid() {
    let mut dst = vec![5u8];
    assert_eq!(rgb_to_i420(0, 2, &[], &mut dst), Err(ConvertError::InvalidDimensions));
    assert_eq!(i420_to_rgb(2, 0, &[], &mut dst), Err(ConvertError::InvalidDimensions));
    assert_eq!(rgb_to_rgba(0, 0, &[], &mut dst), Err(ConvertError::InvalidDimensions));
    assert_eq!(dst, vec![5u8]);
}

#[test]
fn i420_to_rgb_views() {
    let src = vec![0u8; 64];
    let mut dst = vec![3u8; 100];
    let c = i420_to_rgb(2, 2, &src, &mut dst).unwrap();
    assert_eq!(dst, vec![0u8; 12]);
    assert_eq!(c.src.u.offset, 32);
    assert_eq!(c.src.v.offset, 48);
    assert_eq!(c.dst, PlaneView { offset: 0, stride: 6, rows: 2, row_bytes: 6 });
}

#[test]
fn i420_source_shorter_than_layout_is_mismatch() {
    let src = vec![0u8; 6];
    let mut dst = Vec::new();
    assert_eq!(i420_to_bgra(2, 2, &src, &mut dst), Err(ConvertError::BufferSizeMismatch));
    let src = vec![0u8; 64];
    let c = i420_to_bgra(2, 2, &src, &mut dst).unwrap();
    assert_eq!(dst.len(), 16);
    assert_eq!(c.dst.stride, 8);
}

#[test]
fn rgb_to_rgba_sizes_destination() {
    let src = vec![1u8; 3 * 3 * 2];
    let mut dst = Vec::new();
    let c = rgb_to_rgba(3, 2, &src, &mut dst).unwrap();
    assert_eq!(dst, vec![0u8; 24]);
    assert_eq!(c.src.stride, 9);
    assert_eq!(c.dst.stride, 12);
}

#[test]
fn nv12_to_i420_views() {
    let y = vec![0u8; 32 * 9 + 17];
    let uv = vec![0u8; 32 * 4 + 18];
    let mut dst = Vec::new();
    let c = nv12_to_i420(&y, 32, &uv, 32, 17, 10, &mut dst).unwrap();
    assert_eq!(dst.len(), 480);
    assert_eq!(c.src.y, PlaneView { offset: 0, stride: 32, rows: 10, row_bytes: 17 });
    assert_eq!(c.src.uv, PlaneView { offset: 0, stride: 32, rows: 5, row_bytes: 18 });
    assert_eq!(c.dst.v.offset, 400);
}

#[test]
fn nv12_short_planes_are_mismatch() {
    let mut dst = Vec::new();
    let y = vec![0u8; 32 * 9 + 16];
    let uv = vec![0u8; 32 * 5];
    assert_eq!(nv12_to_i420(&y, 32, &uv, 32, 17, 10, &mut dst), Err(ConvertError::BufferSizeMismatch));
    let y = vec![0u8; 32 * 10];
    assert_eq!(nv12_to_i420(&y, 16, &uv, 32, 17, 10, &mut dst), Err(ConvertError::BufferSizeMismatch));
    assert_eq!(nv12_to_i420(&y, 32, &uv, 17, 17, 10, &mut dst), Err(ConvertError::BufferSizeMismatch));
    assert!(dst.is_empty());
}

#[test]
fn primitive_status_mapping() {
    assert_eq!(check_status(0), Ok(()));
    assert_eq!(check_status(-1), Err(ConvertError::ConversionFailed));
    assert_eq!(check_status(3), Err(ConvertError::ConversionFailed));
}

#[test]
fn c_int_conversion() {
    assert_eq!(c_int_of(0), Ok(0));
    assert_eq!(c_int_of(2147483647), Ok(i32::MAX));
    assert_eq!(c_int_of(2147483648), Err(ConvertError::InvalidDimensions));
}

#[test]
fn destination_is_zero_filled_to_size() {
    let mut dst = vec![4u8; 10];
    prepare_destination(&mut dst, 4);
    assert_eq!(dst, vec![0u8; 4]);
    prepare_destination(&mut dst, 6);
    assert_eq!(dst, vec![0u8; 6]);
}
