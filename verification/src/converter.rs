//! Conversion of downloaded cover art into the 128x96 8-bit paletted BMP
//! that the launcher shows: the art is resized to 106x96, laid at the top
//! left of a black 128x96 canvas, reduced to 256 colours, and written out.

use vstd::prelude::*;
use vstd::arithmetic::div_mod::lemma_fundamental_div_mod_converse;

use color_quant::NeuQuant;
use image::{DynamicImage, ImageError};

use crate::bmp::{bmp_file, read_le16, read_le32, row_size, write_paletted_bmp, PIXEL_DATA_OFFSET};
use crate::error::CoverError;

verus! {

#[verifier::external_type_specification]
#[verifier::external_body]
pub struct ExDynamicImage(DynamicImage);

#[verifier::external_type_specification]
#[verifier::external_body]
pub struct ExImageError(ImageError);

#[verifier::external_type_specification]
#[verifier::external_body]
pub struct ExNeuQuant(NeuQuant);

/// Width of the finished cover canvas.
pub const CANVAS_WIDTH: u32 = 128;
/// Height of the finished cover canvas.
pub const CANVAS_HEIGHT: u32 = 96;
/// Width the art is resized to.
pub const ART_WIDTH: u32 = 106;
/// Height the art is resized to.
pub const ART_HEIGHT: u32 = 96;
/// Colours in the quantized palette.
pub const PALETTE_COLORS: usize = 256;
/// NeuQuant sampling factor (1 is slowest and best, 30 fastest).
pub const SAMPLE_FACTOR: i32 = 10;

/// Whether `encoded` is an image the `image` crate can decode (its format
/// guessed from the bytes).
pub uninterp spec fn image_decodes(encoded: Seq<u8>) -> bool;

/// The RGBA bytes of a `canvas_width` x `canvas_height` canvas after the
/// `width` x `height` RGBA image `top` is alpha-blended onto it with its
/// top-left corner at `(x, y)`.
pub uninterp spec fn overlaid(
    canvas: Seq<u8>,
    canvas_width: u32,
    canvas_height: u32,
    top: Seq<u8>,
    width: u32,
    height: u32,
    x: i64,
    y: i64,
) -> Seq<u8>;

/// The RGBA palette of `colors` entries that NeuQuant learns from `pixels`
/// with the given sampling factor.
pub uninterp spec fn quantized_palette(sample_factor: i32, colors: usize, pixels: Seq<u8>) -> Seq<u8>;

/// The palette entry that the NeuQuant network learnt from `pixels` picks
/// for the RGBA `pixel`.
pub uninterp spec fn quantized_index(
    sample_factor: i32,
    colors: usize,
    pixels: Seq<u8>,
    pixel: Seq<u8>,
) -> usize;

/// A NeuQuant network trained on `pixels`, with what it was trained with.
pub struct Quantizer {
    quant: NeuQuant,
    sample_factor: i32,
    colors: usize,
    pixels: Vec<u8>,
}

/// Decodes an image, guessing its format from its bytes.
///
/// Trusted: `image::load_from_memory` is a function of the bytes alone; it
/// succeeds exactly when they decode, which `image_decodes` names. Nothing
/// is stated of the decoded pixels.
#[verifier::external_body]
fn load_image(bytes: &[u8]) -> (r: Result<DynamicImage, ImageError>)
    ensures
        r is Ok <==> image_decodes(bytes@),
{
    image::load_from_memory(bytes)
}

/// The text of a decoding error.
///
/// Trusted: `ImageError`'s `Display` text; nothing is stated of it.
#[verifier::external_body]
fn image_error_message(e: &ImageError) -> String {
    e.to_string()
}

/// Resizes a decoded image to exactly `width` x `height`, ignoring its
/// aspect ratio, and gives its pixels as RGBA bytes.
///
/// Trusted: `DynamicImage::resize_exact` with the Lanczos3 filter returns an
/// image of the requested size, as its documentation says, and `to_rgba8`
/// gives four bytes per pixel. The pixel values are not stated: the filter
/// computes with `f32` functions whose precision std leaves to the platform.
#[verifier::external_body]
fn resize_rgba(image: &DynamicImage, width: u32, height: u32) -> (r: ResizedArt)
    ensures
        r.pixels@.len() == 4 * width * height,
        r.width == width,
        r.height == height,
{
    let pixels = image.resize_exact(width, height, image::imageops::FilterType::Lanczos3).to_rgba8().into_raw();
    ResizedArt { pixels, width, height }
}

/// Resized art: RGBA pixels in rows of `width` pixels, `height` rows.
struct ResizedArt {
    pixels: Vec<u8>,
    width: u32,
    height: u32,
}

/// Composes the cover from art resized to exactly 106 pixels wide and 96
/// high; art of any other shape is refused.
fn compose_resized_cover(art: &ResizedArt) -> (r: Vec<u8>)
    requires
        art.width == ART_WIDTH,
        art.height == ART_HEIGHT,
        art.pixels@.len() == 4 * art.width * art.height,
    ensures
        r@ == cover_file(cover_canvas_of(art.pixels@)),
        r@.len() == PIXEL_DATA_OFFSET + CANVAS_WIDTH * CANVAS_HEIGHT,
        is_cover_canvas(cover_canvas_of(art.pixels@)),
        art_on_black(art.pixels@, cover_canvas_of(art.pixels@)),
{
    compose_cover(art.pixels.as_slice())
}

/// Pixel `p` of a `width`-wide image lies inside a `top_width` x
/// `top_height` image placed at `(x, y)`, at pixel `q` of that image.
pub open spec fn placed_at(p: int, width: int, x: int, y: int, top_width: int, top_height: int, q: int) -> bool {
    let px = p % width;
    let py = p / width;
    &&& !outside_placement(px, py, x, y, top_width, top_height)
    &&& q == (py - y) * top_width + (px - x)
}

/// Alpha-blends the RGBA image `top` onto the RGBA `canvas` with its
/// top-left corner at `(x, y)`.
///
/// Trusted: `image::imageops::overlay` on RGBA buffers made from `canvas`
/// and `top`. Its result is named `overlaid`: the blend (`Rgba::blend`) uses
/// only basic IEEE arithmetic on its arguments. The source shows that it
/// keeps the canvas size, leaves every pixel outside the placed image as it
/// was, copies an opaque pixel of `top` and leaves the canvas under a fully
/// transparent one unchanged.
#[verifier::external_body]
fn overlay(
    canvas: Vec<u8>,
    canvas_width: u32,
    canvas_height: u32,
    top: &[u8],
    width: u32,
    height: u32,
    x: i64,
    y: i64,
) -> (r: Vec<u8>)
    requires
        canvas@.len() == 4 * canvas_width * canvas_height,
        top@.len() == 4 * width * height,
    ensures
        r@ == overlaid(canvas@, canvas_width, canvas_height, top@, width, height, x, y),
        r@.len() == canvas@.len(),
        x >= 0 && y >= 0 ==> forall|p: int, c: int|
            #![trigger r@[4 * p + c]]
            0 <= p < canvas_width * canvas_height && 0 <= c < 4 && outside_placement(
                p % canvas_width as int,
                p / canvas_width as int,
                x as int,
                y as int,
                width as int,
                height as int,
            ) ==> r@[4 * p + c] == canvas@[4 * p + c],
        x >= 0 && y >= 0 ==> forall|p: int, q: int|
            #![trigger pixel_of(r@, p), pixel_of(top@, q)]
            0 <= p < canvas_width * canvas_height && placed_at(
                p,
                canvas_width as int,
                x as int,
                y as int,
                width as int,
                height as int,
                q,
            ) ==> (top@[4 * q + 3] == 255 ==> pixel_of(r@, p) == pixel_of(top@, q)) && (top@[4 * q
                + 3] == 0 ==> pixel_of(r@, p) == pixel_of(canvas@, p)),
{
    let mut bottom: image::RgbaImage = image::ImageBuffer::from_raw(canvas_width, canvas_height, canvas).unwrap();
    let placed: image::RgbaImage = image::ImageBuffer::from_raw(width, height, top.to_vec()).unwrap();
    image::imageops::overlay(&mut bottom, &placed, x, y);
    bottom.into_raw()
}

/// Pixel `(px, py)` lies outside a `width` x `height` image placed at `(x, y)`.
pub open spec fn outside_placement(px: int, py: int, x: int, y: int, width: int, height: int) -> bool {
    px < x || px >= x + width || py < y || py >= y + height
}

/// Trains a NeuQuant network with `colors` entries on the RGBA `pixels`.
///
/// Trusted: `NeuQuant::new`; its network is kept with the arguments it was
/// trained with, so that what it gives can be named by them.
#[verifier::external_body]
fn train(sample_factor: i32, colors: usize, pixels: Vec<u8>) -> (r: Quantizer)
    requires
        1 <= sample_factor <= 30,
        colors >= 1,
    ensures
        r.sample_factor == sample_factor,
        r.colors == colors,
        r.pixels@ == pixels@,
{
    let quant = NeuQuant::new(sample_factor, colors, &pixels);
    Quantizer { quant, sample_factor, colors, pixels }
}

/// The learnt palette as RGBA bytes.
///
/// Trusted: `NeuQuant::color_map_rgba` returns four bytes per palette entry,
/// as its source shows; the bytes are named `quantized_palette`.
#[verifier::external_body]
fn palette_rgba(q: &Quantizer) -> (r: Vec<u8>)
    ensures
        r@ == quantized_palette(q.sample_factor, q.colors, q.pixels@),
        r@.len() == 4 * q.colors,
{
    q.quant.color_map_rgba()
}

/// The palette entry chosen for an RGBA pixel.
///
/// Trusted: `NeuQuant::index_of` returns an index below the palette size,
/// as its source shows; the index is named `quantized_index`.
#[verifier::external_body]
fn index_of(q: &Quantizer, pixel: [u8; 4]) -> (r: usize)
    ensures
        r == quantized_index(q.sample_factor, q.colors, q.pixels@, pixel@),
        r < q.colors,
{
    q.quant.index_of(&pixel)
}

/// An opaque black RGBA canvas of `width` x `height` pixels.
pub open spec fn black_canvas_spec(width: nat, height: nat) -> Seq<u8> {
    Seq::new(4 * width * height, |k: int| if k % 4 == 3 { 255u8 } else { 0u8 })
}

/// An opaque black RGBA canvas of `width` x `height` pixels.
pub fn black_canvas(width: u32, height: u32) -> (r: Vec<u8>)
    requires
        4 * width * height <= usize::MAX,
    ensures
        r@ == black_canvas_spec(width as nat, height as nat),
{
    assert(width * height <= 4 * width * height) by (nonlinear_arith);
    assert(4 * (width * height) == 4 * width * height) by (nonlinear_arith);
    let count = (width as usize) * (height as usize);
    let mut data: Vec<u8> = Vec::with_capacity(4 * count);
    let mut i: usize = 0;
    while i < count
        invariant
            count == width * height,
            4 * count <= usize::MAX,
            i <= count,
            data@ =~= Seq::new(4 * i as nat, |k: int| if k % 4 == 3 { 255u8 } else { 0u8 }),
        decreases count - i,
    {
        proof {
            let n = 4 * i as int;
            lemma_fundamental_div_mod_converse(n, 4, i as int, 0);
            lemma_fundamental_div_mod_converse(n + 1, 4, i as int, 1);
            lemma_fundamental_div_mod_converse(n + 2, 4, i as int, 2);
            lemma_fundamental_div_mod_converse(n + 3, 4, i as int, 3);
        }
        data.push(0u8);
        data.push(0u8);
        data.push(0u8);
        data.push(255u8);
        i = i + 1;
    }
    data
}

/// The RGBA bytes of pixel `p` of an RGBA buffer.
pub open spec fn pixel_of(rgba: Seq<u8>, p: int) -> Seq<u8> {
    rgba.subrange(4 * p, 4 * p + 4)
}

/// The palette index chosen for each pixel of `rgba`, in order.
pub open spec fn palette_indices_spec(sample_factor: i32, colors: usize, rgba: Seq<u8>) -> Seq<u8> {
    Seq::new(
        rgba.len() / 4,
        |p: int| quantized_index(sample_factor, colors, rgba, pixel_of(rgba, p)) as u8,
    )
}

/// The palette index of every pixel, as the trained network chooses it.
fn palette_indices(q: &Quantizer) -> (r: Vec<u8>)
    requires
        q.colors <= 256,
    ensures
        r@ == palette_indices_spec(q.sample_factor, q.colors, q.pixels@),
{
    let len = q.pixels.len();
    let n = len / 4;
    let mut out: Vec<u8> = Vec::with_capacity(n);
    let mut p: usize = 0;
    while p < n
        invariant
            n == q.pixels@.len() / 4,
            len == q.pixels@.len(),
            q.colors <= 256,
            p <= n,
            out@ =~= Seq::new(
                p as nat,
                |i: int| quantized_index(q.sample_factor, q.colors, q.pixels@, pixel_of(q.pixels@, i)) as u8,
            ),
        decreases n - p,
    {
        assert(4 * p + 4 <= q.pixels@.len()) by (nonlinear_arith)
            requires
                p < n,
                n == q.pixels@.len() / 4,
        ;
        let base = 4 * p;
        let pixel = [q.pixels[base], q.pixels[base + 1], q.pixels[base + 2], q.pixels[base + 3]];
        assert(pixel@ =~= pixel_of(q.pixels@, p as int));
        let index = index_of(q, pixel);
        out.push(index as u8);
        p = p + 1;
        assert(out@ =~= Seq::new(
            p as nat,
            |i: int| quantized_index(q.sample_factor, q.colors, q.pixels@, pixel_of(q.pixels@, i)) as u8,
        ));
    }
    out
}

/// The BMP file written for a finished 128x96 RGBA cover canvas: its
/// pixels quantized to the 256 colours NeuQuant learns from them.
pub open spec fn cover_file(canvas: Seq<u8>) -> Seq<u8> {
    bmp_file(
        CANVAS_WIDTH,
        CANVAS_HEIGHT,
        quantized_palette(SAMPLE_FACTOR, PALETTE_COLORS, canvas),
        palette_indices_spec(SAMPLE_FACTOR, PALETTE_COLORS, canvas),
    )
}

/// A finished cover canvas: 128x96 RGBA pixels whose columns right of the
/// 106-pixel art are opaque black.
pub open spec fn is_cover_canvas(canvas: Seq<u8>) -> bool {
    &&& canvas.len() == 4 * CANVAS_WIDTH * CANVAS_HEIGHT
    &&& forall|p: int|
        0 <= p < CANVAS_WIDTH * CANVAS_HEIGHT && p % (CANVAS_WIDTH as int) >= ART_WIDTH
            ==> #[trigger] pixel_of(canvas, p) == black_pixel()
}

/// Quantizes a finished 128x96 RGBA cover canvas to 256 colours and writes
/// it as an 8-bit paletted BMP.
pub fn encode_cover_canvas(canvas: Vec<u8>) -> (r: Vec<u8>)
    requires
        canvas@.len() == 4 * CANVAS_WIDTH * CANVAS_HEIGHT,
    ensures
        r@ == cover_file(canvas@),
        r@.len() == PIXEL_DATA_OFFSET + CANVAS_WIDTH * CANVAS_HEIGHT,
{
    let quant = train(SAMPLE_FACTOR, PALETTE_COLORS, canvas);
    let palette = palette_rgba(&quant);
    let indices = palette_indices(&quant);
    assert(indices@.len() == 128 * 96);
    assert(row_size(128) == 128);
    write_paletted_bmp(CANVAS_WIDTH, CANVAS_HEIGHT, palette.as_slice(), indices.as_slice())
}

/// The canvas made from 106x96 RGBA `art`: the art blended onto the opaque
/// black 128x96 canvas with its top-left corner at the canvas's.
pub open spec fn cover_canvas_of(art: Seq<u8>) -> Seq<u8> {
    overlaid(
        black_canvas_spec(CANVAS_WIDTH as nat, CANVAS_HEIGHT as nat),
        CANVAS_WIDTH,
        CANVAS_HEIGHT,
        art,
        ART_WIDTH,
        ART_HEIGHT,
        0,
        0,
    )
}

/// Pixel `(px, py)` of a 128-wide canvas.
pub open spec fn canvas_pixel(canvas: Seq<u8>, px: int, py: int) -> Seq<u8> {
    pixel_of(canvas, py * CANVAS_WIDTH + px)
}

/// Pixel `(px, py)` of the 106-wide art.
pub open spec fn art_pixel(art: Seq<u8>, px: int, py: int) -> Seq<u8> {
    pixel_of(art, py * ART_WIDTH + px)
}

/// Over the art's 106x96 area, an opaque art pixel shows as it is and a
/// fully transparent one leaves the canvas black.
pub open spec fn art_on_black(art: Seq<u8>, canvas: Seq<u8>) -> bool {
    forall|px: int, py: int|
        0 <= px < ART_WIDTH && 0 <= py < ART_HEIGHT ==> {
            &&& art_pixel(art, px, py)[3] == 255 ==> #[trigger] canvas_pixel(canvas, px, py)
                == art_pixel(art, px, py)
            &&& art_pixel(art, px, py)[3] == 0 ==> canvas_pixel(canvas, px, py) == black_pixel()
        }
}

/// Lays 106x96 RGBA `art` at the top left of the opaque black 128x96 canvas
/// and writes the cover file of the result.
pub fn compose_cover(art: &[u8]) -> (r: Vec<u8>)
    requires
        art@.len() == 4 * ART_WIDTH * ART_HEIGHT,
    ensures
        r@ == cover_file(cover_canvas_of(art@)),
        r@.len() == PIXEL_DATA_OFFSET + CANVAS_WIDTH * CANVAS_HEIGHT,
        is_cover_canvas(cover_canvas_of(art@)),
        art_on_black(art@, cover_canvas_of(art@)),
{
    let blank = black_canvas(CANVAS_WIDTH, CANVAS_HEIGHT);
    let ghost black = blank@;
    let canvas = overlay(blank, CANVAS_WIDTH, CANVAS_HEIGHT, art, ART_WIDTH, ART_HEIGHT, 0, 0);
    let ghost c = canvas@;
    proof {
        lemma_strip_is_black(c);
        assert forall|px: int, py: int| 0 <= px < ART_WIDTH && 0 <= py < ART_HEIGHT implies {
            &&& art_pixel(art@, px, py)[3] == 255 ==> #[trigger] canvas_pixel(c, px, py)
                == art_pixel(art@, px, py)
            &&& art_pixel(art@, px, py)[3] == 0 ==> canvas_pixel(c, px, py) == black_pixel()
        } by {
            let p = py * 128 + px;
            let q = py * 106 + px;
            lemma_fundamental_div_mod_converse(p, 128, py, px);
            assert(placed_at(p, 128, 0, 0, 106, 96, q));
            assert(0 <= 4 * q + 3 < art@.len());
            assert(pixel_of(art@, q)[3] == art@[4 * q + 3]);
            assert(pixel_of(c, p) == pixel_of(c, p));
            assert(pixel_of(art@, q) == pixel_of(art@, q));
            if art@[4 * q + 3] == 0 {
                assert forall|k: int| 0 <= k < 4 implies #[trigger] pixel_of(black, p)[k] == black_pixel()[k] by {
                    lemma_fundamental_div_mod_converse(4 * p + k, 4, p, k);
                }
                assert(pixel_of(black, p) =~= black_pixel());
            }
        }
    }
    encode_cover_canvas(canvas)
}

/// Converts downloaded cover art into the launcher's 8-bit paletted BMP:
/// decoded, resized to 106x96, placed at the top left of a black 128x96
/// canvas, quantized to 256 colours and written out. The file is the one
/// `compose_cover` writes for some 106x96 art; the art's pixels come from
/// the platform's floating-point resampling and are not stated.
pub fn convert_cover(image_bytes: &[u8]) -> (r: Result<Vec<u8>, CoverError>)
    ensures
        r is Ok <==> image_decodes(image_bytes@),
        r matches Err(e) ==> e is ImageDecode,
        r matches Ok(v) ==> exists|art: Seq<u8>|
            art.len() == 4 * ART_WIDTH * ART_HEIGHT && is_cover_canvas(cover_canvas_of(art))
                && art_on_black(art, cover_canvas_of(art)) && #[trigger] cover_file(
                cover_canvas_of(art),
            ) == v@,
        r matches Ok(v) ==> v@.len() == PIXEL_DATA_OFFSET + CANVAS_WIDTH * CANVAS_HEIGHT,
        r matches Ok(v) ==> is_cover_file_header(v@),
        r matches Ok(v) ==> forall|x1: int, y1: int, x2: int, y2: int|
            #![trigger v@[cover_pixel_offset(x1, y1)], v@[cover_pixel_offset(x2, y2)]]
            ART_WIDTH <= x1 < CANVAS_WIDTH && ART_WIDTH <= x2 < CANVAS_WIDTH && 0 <= y1
                < CANVAS_HEIGHT && 0 <= y2 < CANVAS_HEIGHT ==> v@[cover_pixel_offset(x1, y1)]
                == v@[cover_pixel_offset(x2, y2)],
{
    let decoded = match load_image(image_bytes) {
        Ok(d) => d,
        Err(e) => {
            return Err(CoverError::ImageDecode(image_error_message(&e)));
        },
    };
    let art = resize_rgba(&decoded, ART_WIDTH, ART_HEIGHT);
    let data = compose_resized_cover(&art);
    proof {
        let canvas = cover_canvas_of(art.pixels@);
        lemma_cover_file_header(canvas);
        assert forall|x1: int, y1: int, x2: int, y2: int|
            ART_WIDTH <= x1 < CANVAS_WIDTH && ART_WIDTH <= x2 < CANVAS_WIDTH && 0 <= y1
                < CANVAS_HEIGHT && 0 <= y2 < CANVAS_HEIGHT implies #[trigger] data@[cover_pixel_offset(x1, y1)]
                == #[trigger] data@[cover_pixel_offset(x2, y2)] by {
            lemma_cover_strip_uniform(canvas, x1, y1, x2, y2);
        }
    }
    Ok(data)
}

/// The header fields of a cover file: "BM", the file size, the data offset,
/// 128 x 96 pixels, one plane, 8 bits per pixel and 256 colours.
pub open spec fn is_cover_file_header(f: Seq<u8>) -> bool {
    &&& f.len() == PIXEL_DATA_OFFSET + CANVAS_WIDTH * CANVAS_HEIGHT
    &&& f[0] == 66u8 && f[1] == 77u8
    &&& read_le32(f, 2) == f.len()
    &&& read_le32(f, 10) == PIXEL_DATA_OFFSET
    &&& read_le32(f, 18) == CANVAS_WIDTH
    &&& read_le32(f, 22) == CANVAS_HEIGHT
    &&& read_le16(f, 26) == 1
    &&& read_le16(f, 28) == 8
    &&& read_le32(f, 46) == PALETTE_COLORS
}

/// Every cover file has the cover header.
pub proof fn lemma_cover_file_header(canvas: Seq<u8>)
    ensures
        is_cover_file_header(cover_file(canvas)),
{
    crate::bmp::lemma_bmp_header_fields(
        CANVAS_WIDTH,
        CANVAS_HEIGHT,
        quantized_palette(SAMPLE_FACTOR, PALETTE_COLORS, canvas),
        palette_indices_spec(SAMPLE_FACTOR, PALETTE_COLORS, canvas),
    );
    assert(row_size(128) == 128);
}

/// In the file of a finished cover canvas, every pixel right of the art
/// stores the same palette index.
pub proof fn lemma_cover_strip_uniform(canvas: Seq<u8>, x1: int, y1: int, x2: int, y2: int)
    requires
        is_cover_canvas(canvas),
        ART_WIDTH <= x1 < CANVAS_WIDTH,
        ART_WIDTH <= x2 < CANVAS_WIDTH,
        0 <= y1 < CANVAS_HEIGHT,
        0 <= y2 < CANVAS_HEIGHT,
    ensures
        cover_file(canvas)[cover_pixel_offset(x1, y1)] == cover_file(canvas)[cover_pixel_offset(x2, y2)],
{
    let palette = quantized_palette(SAMPLE_FACTOR, PALETTE_COLORS, canvas);
    lemma_strip_index(canvas, palette, x1, y1);
    lemma_strip_index(canvas, palette, x2, y2);
}

/// Where pixel `(x, y)` of the cover (row `y` from the top) lies in its BMP file.
pub open spec fn cover_pixel_offset(x: int, y: int) -> int {
    PIXEL_DATA_OFFSET + (CANVAS_HEIGHT - 1 - y) * CANVAS_WIDTH + x
}

/// An opaque black RGBA pixel.
pub open spec fn black_pixel() -> Seq<u8> {
    seq![0u8, 0u8, 0u8, 255u8]
}

/// The pixels right of the art keep the black of the blank canvas.
proof fn lemma_strip_is_black(canvas: Seq<u8>)
    requires
        canvas.len() == 4 * 128 * 96,
        forall|p: int, c: int|
            #![trigger canvas[4 * p + c]]
            0 <= p < 128 * 96 && 0 <= c < 4 && outside_placement(p % 128, p / 128, 0, 0, 106, 96)
                ==> canvas[4 * p + c] == black_canvas_spec(128, 96)[4 * p + c],
    ensures
        is_cover_canvas(canvas),
{
    assert forall|p: int| 0 <= p < 128 * 96 && p % 128 >= 106 implies #[trigger] pixel_of(canvas, p)
        == black_pixel() by {
        assert forall|c: int| 0 <= c < 4 implies #[trigger] pixel_of(canvas, p)[c] == black_pixel()[c] by {
            lemma_fundamental_div_mod_converse(4 * p + c, 4, p, c);
            assert(canvas[4 * p + c] == black_canvas_spec(128, 96)[4 * p + c]);
            assert(pixel_of(canvas, p)[c] == canvas[4 * p + c]);
        }
        assert(pixel_of(canvas, p) =~= black_pixel());
    }
}

/// The stored index of a pixel right of the art is the index of black.
proof fn lemma_strip_index(canvas: Seq<u8>, palette: Seq<u8>, x: int, y: int)
    requires
        canvas.len() == 4 * 128 * 96,
        106 <= x < 128,
        0 <= y < 96,
        is_cover_canvas(canvas),
    ensures
        bmp_file(128, 96, palette, palette_indices_spec(SAMPLE_FACTOR, PALETTE_COLORS, canvas))[cover_pixel_offset(x, y)]
            == quantized_index(SAMPLE_FACTOR, PALETTE_COLORS, canvas, black_pixel()) as u8,
{
    let indices = palette_indices_spec(SAMPLE_FACTOR, PALETTE_COLORS, canvas);
    let p = y * 128 + x;
    lemma_fundamental_div_mod_converse(p, 128, y, x);
    assert(pixel_of(canvas, p) == black_pixel());
    crate::bmp::lemma_bmp_pixel_read_back(128, 96, palette, indices, x, y);
    assert(row_size(128) == 128);
}

} // verus!
