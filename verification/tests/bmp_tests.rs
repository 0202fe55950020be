use pico_cover_gb::bmp::write_paletted_bmp;

fn le32(data: &[u8], off: usize) -> u32 {
    u32::from_le_bytes([data[off], data[off + 1], data[off + 2], data[off + 3]])
}

fn le16(data: &[u8], off: usize) -> u16 {
    u16::from_le_bytes([data[off], data[off + 1]])
}

#[test]
fn bmp_header_fields_describe_file() {
    let indices: Vec<u8> = (0..15u8).collect();
    let palette = vec![10u8, 20, 30, 255, 40, 50, 60, 255];
    let data = write_paletted_bmp(5, 3, &palette, &indices);
    // rows of 5 pixels are padded to 8 bytes
    assert_eq!(data.len(), 1078 + 8 * 3);
    assert_eq!(&data[0..2], b"BM");
    assert_eq!(le32(&data, 2) as usize, data.len());
    assert_eq!(le16(&data, 6), 0);
    assert_eq!(le16(&data, 8), 0);
    assert_eq!(le32(&data, 10), 1078);
    assert_eq!(le32(&data, 14), 40);
    assert_eq!(le32(&data, 18), 5);
    assert_eq!(le32(&data, 22), 3);
    assert_eq!(le16(&data, 26), 1);
    assert_eq!(le16(&data, 28), 8);
    assert_eq!(le32(&data, 30), 0);
    assert_eq!(le32(&data, 34), 24);
    assert_eq!(le32(&data, 38), 2835);
    assert_eq!(le32(&data, 42), 2835);
    assert_eq!(le32(&data, 46), 256);
    assert_eq!(le32(&data, 50), 0);
}

#[test]
fn bmp_palette_is_bgr_and_black_padded() {
    let indices = vec![0u8; 4];
    let palette = vec![10u8, 20, 30, 255, 40, 50, 60, 128];
    let data = write_paletted_bmp(2, 2, &palette, &indices);
    assert_eq!(&data[54..58], &[30, 20, 10, 0]);
    assert_eq!(&data[58..62], &[60, 50, 40, 0]);
    for entry in 2..256 {
        let at = 54 + 4 * entry;
        assert_eq!(&data[at..at + 4], &[0, 0, 0, 0]);
    }
}

#[test]
fn bmp_rows_are_bottom_up_and_padded() {
    let indices: Vec<u8> = vec![1, 2, 3, 4, 5, 6];
    let data = write_paletted_bmp(3, 2, &[], &indices);
    // bottom row (4, 5, 6) first, each row padded to 4 bytes
    assert_eq!(&data[1078..], &[4, 5, 6, 0, 1, 2, 3, 0]);
}

#[test]
fn bmp_pixel_read_back() {
    let w = 7usize;
    let h = 5usize;
    let indices: Vec<u8> = (0..(w * h) as u8).collect();
    let data = write_paletted_bmp(w as u32, h as u32, &[], &indices);
    let row_size = 8;
    for y in 0..h {
        for x in 0..w {
            assert_eq!(data[1078 + (h - 1 - y) * row_size + x], indices[y * w + x]);
        }
    }
}

#[test]
fn bmp_aligned_width_has_no_padding() {
    let indices = vec![9u8; 8];
    let data = write_paletted_bmp(4, 2, &[], &indices);
    assert_eq!(data.len(), 1078 + 8);
    assert_eq!(le32(&data, 34), 8);
}

#[test]
fn bmp_empty_image() {
    let data = write_paletted_bmp(0, 0, &[], &[]);
    assert_eq!(data.len(), 1078);
    assert_eq!(le32(&data, 2), 1078);
}

#[test]
fn bmp_extra_indices_are_ignored() {
    let indices = vec![1u8, 2, 3, 4, 99, 99];
    let data = write_paletted_bmp(2, 2, &[], &indices);
    assert_eq!(&data[1078..], &[3, 4, 0, 0, 1, 2, 0, 0]);
}

#[test]
fn bmp_ignores_alpha_and_unused_input() {
    let palette = vec![10u8, 20, 30, 255, 40, 50, 60, 128];
    let other_alpha = vec![10u8, 20, 30, 0, 40, 50, 60, 7];
    let indices = vec![0u8, 1, 1, 0];
    let base = write_paletted_bmp(2, 2, &palette, &indices);
    assert_eq!(write_paletted_bmp(2, 2, &other_alpha, &indices), base);
    let mut longer_indices = indices.clone();
    longer_indices.extend_from_slice(&[7, 7, 7]);
    assert_eq!(write_paletted_bmp(2, 2, &palette, &longer_indices), base);
    let mut ragged_palette = palette.clone();
    ragged_palette.extend_from_slice(&[1, 2, 3]);
    assert_eq!(write_paletted_bmp(2, 2, &ragged_palette, &indices), base);
    let big_palette: Vec<u8> = (0..(4 * 300)).map(|i| (i % 251) as u8).collect();
    let a = write_paletted_bmp(2, 2, &big_palette, &indices);
    let b = write_paletted_bmp(2, 2, &big_palette[..1024], &indices);
    assert_eq!(a, b);
}
