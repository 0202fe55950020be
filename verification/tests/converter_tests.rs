use pico_cover_gb::converter::{black_canvas, compose_cover, convert_cover, encode_cover_canvas};
use pico_cover_gb::error::CoverError;

fn png_of(img: &image::RgbaImage) -> Vec<u8> {
    let mut cursor = std::io::Cursor::new(Vec::new());
    img.write_to(&mut cursor, image::ImageFormat::Png).unwrap();
    cursor.into_inner()
}

fn le32(data: &[u8], off: usize) -> u32 {
    u32::from_le_bytes([data[off], data[off + 1], data[off + 2], data[off + 3]])
}

fn pixel_index(bmp: &[u8], x: usize, y: usize) -> u8 {
    bmp[1078 + (95 - y) * 128 + x]
}

fn palette_bgr(bmp: &[u8], index: u8) -> (u8, u8, u8) {
    let at = 54 + 4 * index as usize;
    (bmp[at], bmp[at + 1], bmp[at + 2])
}

#[test]
fn black_canvas_is_opaque_black() {
    let c = black_canvas(3, 2);
    assert_eq!(c.len(), 24);
    for p in 0..6 {
        assert_eq!(&c[4 * p..4 * p + 4], &[0, 0, 0, 255]);
    }
}

#[test]
fn convert_rejects_non_image() {
    match convert_cover(b"this is not an image") {
        Err(CoverError::ImageDecode(msg)) => assert!(!msg.is_empty()),
        _ => panic!("expected a decode error"),
    }
    assert!(convert_cover(&[]).is_err());
}

#[test]
fn convert_makes_128x96_paletted_bmp() {
    let img = image::RgbaImage::from_pixel(20, 10, image::Rgba([250, 10, 10, 255]));
    let bmp = convert_cover(&png_of(&img)).expect("converts");
    assert_eq!(bmp.len(), 1078 + 128 * 96);
    assert_eq!(&bmp[0..2], b"BM");
    assert_eq!(le32(&bmp, 2) as usize, bmp.len());
    assert_eq!(le32(&bmp, 18), 128);
    assert_eq!(le32(&bmp, 22), 96);
    assert_eq!(u16::from_le_bytes([bmp[28], bmp[29]]), 8);
}

#[test]
fn convert_places_art_left_and_black_strip_right() {
    let img = image::RgbaImage::from_pixel(53, 48, image::Rgba([250, 10, 10, 255]));
    let bmp = convert_cover(&png_of(&img)).expect("converts");
    // the art covers columns 0..106: reddish
    let (b, g, r) = palette_bgr(&bmp, pixel_index(&bmp, 10, 10));
    assert!(r > 200 && g < 60 && b < 60, "art pixel is ({}, {}, {})", r, g, b);
    // columns 106..128 are the black canvas: one index, a dark colour
    let strip = pixel_index(&bmp, 106, 0);
    for y in 0..96 {
        for x in 106..128 {
            assert_eq!(pixel_index(&bmp, x, y), strip);
        }
    }
    let (b, g, r) = palette_bgr(&bmp, strip);
    assert!(r < 40 && g < 40 && b < 40, "strip pixel is ({}, {}, {})", r, g, b);
}

#[test]
fn encode_canvas_writes_cover_file() {
    let mut canvas = black_canvas(128, 96);
    for y in 0..96 {
        for x in 0..64 {
            let at = 4 * (y * 128 + x);
            canvas[at] = 255;
        }
    }
    let bmp = encode_cover_canvas(canvas);
    assert_eq!(bmp.len(), 1078 + 128 * 96);
    assert_eq!(le32(&bmp, 18), 128);
    assert_eq!(le32(&bmp, 22), 96);
    let (_, _, r) = palette_bgr(&bmp, pixel_index(&bmp, 0, 0));
    assert!(r > 200);
    let (_, _, r) = palette_bgr(&bmp, pixel_index(&bmp, 100, 50));
    assert!(r < 40);
}

#[test]
fn convert_is_encode_of_some_black_strip_canvas() {
    let img = image::RgbaImage::from_pixel(8, 8, image::Rgba([0, 200, 0, 255]));
    let bmp = convert_cover(&png_of(&img)).expect("converts");
    let (_, g, _) = palette_bgr(&bmp, pixel_index(&bmp, 50, 50));
    assert!(g > 150);
    assert_ne!(pixel_index(&bmp, 50, 50), pixel_index(&bmp, 120, 50));
}

#[test]
fn compose_places_art_top_left() {
    // left half of the art opaque blue, right half fully transparent
    let mut art = vec![0u8; 4 * 106 * 96];
    for y in 0..96 {
        for x in 0..53 {
            let at = 4 * (y * 106 + x);
            art[at + 2] = 255;
            art[at + 3] = 255;
        }
    }
    let bmp = compose_cover(&art);
    assert_eq!(bmp.len(), 1078 + 128 * 96);
    let (b, g, r) = palette_bgr(&bmp, pixel_index(&bmp, 0, 0));
    assert!(b > 200 && g < 40 && r < 40);
    let (b, _, _) = palette_bgr(&bmp, pixel_index(&bmp, 52, 95));
    assert!(b > 200);
    // transparent art and the strip stay black
    assert_eq!(pixel_index(&bmp, 53, 0), pixel_index(&bmp, 120, 0));
    assert_ne!(pixel_index(&bmp, 52, 0), pixel_index(&bmp, 53, 0));
}
