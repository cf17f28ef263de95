use terrain_flow::layout::{
    dispatch_size, pad_rows, padded_bytes_per_row, readback_buffer_size, texture_byte_size, unpad_rows,
    workgroup_count,
};
use terrain_flow::readback::{readback_texels, upload_texels, FramingError};

#[test]
fn workgroups_cover_each_axis() {
    assert_eq!(workgroup_count(0), 0);
    assert_eq!(workgroup_count(1), 1);
    assert_eq!(workgroup_count(32), 1);
    assert_eq!(workgroup_count(33), 2);
    assert_eq!(workgroup_count(2048), 64);
    assert_eq!(workgroup_count(1024), 32);
    assert_eq!(workgroup_count(u32::MAX), 134217728);
}

#[test]
fn dispatch_grids_are_independent_per_texture() {
    assert_eq!(dispatch_size(2048, 2048), (64, 64));
    assert_eq!(dispatch_size(1024, 100), (32, 4));
}

#[test]
fn row_pitch_is_padded_to_alignment() {
    assert_eq!(padded_bytes_per_row(2048, 256), Some(32768));
    assert_eq!(padded_bytes_per_row(3, 256), Some(256));
    assert_eq!(padded_bytes_per_row(17, 256), Some(512));
    assert_eq!(padded_bytes_per_row(5, 1), Some(80));
    assert_eq!(padded_bytes_per_row(0, 256), Some(0));
    assert_eq!(padded_bytes_per_row(1024, 256), Some(1024 * 16));
    assert_eq!(padded_bytes_per_row(u32::MAX, 256), None);
}

#[test]
fn texture_copy_size_is_sixteen_bytes_per_texel() {
    assert_eq!(texture_byte_size(2048, 2048), Some(2048 * 2048 * 4 * 4));
    assert_eq!(texture_byte_size(1024, 1024), Some(16_777_216));
    assert_eq!(texture_byte_size(3, 5), Some(240));
    assert_eq!(texture_byte_size(0, 5), Some(0));
    assert_eq!(texture_byte_size(u32::MAX, u32::MAX), None);
    assert_eq!(readback_buffer_size(32768, 2048), 67_108_864);
}

#[test]
fn rows_pad_and_unpad() {
    let data: Vec<u32> = (1..=6).collect();
    let padded = pad_rows(&data, 3, 5, 2);
    assert_eq!(padded, vec![1, 2, 3, 0, 0, 4, 5, 6, 0, 0]);
    assert_eq!(unpad_rows(&padded, 3, 5, 2), data);
    assert_eq!(pad_rows(&data, 3, 3, 2), data);
}

#[test]
fn readback_strips_row_padding() {
    // 1 texel wide, 2 rows, 32-byte pitch: 4 words of texel then 4 of padding.
    let mapped = vec![1, 2, 3, 4, 9, 9, 9, 9, 5, 6, 7, 8, 9, 9, 9, 9];
    let words = readback_texels(&mapped, 1, 2, 32).unwrap();
    assert_eq!(words, vec![1, 2, 3, 4, 5, 6, 7, 8]);
    assert_eq!(words.len() * 4, 1 * 2 * 16);
}

#[test]
fn upload_then_readback_round_trips() {
    let words: Vec<u32> = (0..24).collect();
    let padded = upload_texels(&words, 3, 2, 256).unwrap();
    assert_eq!(padded.len(), 2 * 64);
    assert_eq!(padded[64], 12);
    assert_eq!(padded[12], 0);
    assert_eq!(readback_texels(&padded, 3, 2, 256).unwrap(), words);
}

#[test]
fn framing_errors() {
    let mapped = vec![0u32; 16];
    assert_eq!(readback_texels(&mapped, 1, 2, 30), Err(FramingError::PitchUnaligned));
    assert_eq!(readback_texels(&mapped, 2, 2, 16), Err(FramingError::PitchTooSmall));
    assert_eq!(readback_texels(&mapped, 1, 3, 32), Err(FramingError::SizeMismatch));
    assert_eq!(upload_texels(&mapped, 1, 2, 18), Err(FramingError::PitchUnaligned));
    assert_eq!(upload_texels(&mapped, 3, 1, 32), Err(FramingError::PitchTooSmall));
    assert_eq!(upload_texels(&mapped, 1, 3, 16), Err(FramingError::SizeMismatch));
}
