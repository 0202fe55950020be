//! Writer for uncompressed 8-bit paletted BMP files (BITMAPINFOHEADER,
//! 256-entry palette, bottom-up rows padded to four bytes).

use vstd::prelude::*;
use vstd::arithmetic::div_mod::{lemma_fundamental_div_mod_converse, lemma_mod_breakdown};

verus! {

/// Number of palette entries every file carries.
pub const PALETTE_ENTRIES: usize = 256;

/// Size of the file header, the info header and the palette together:
/// the offset at which pixel data starts.
pub const PIXEL_DATA_OFFSET: usize = 1078;

/// The two low bytes of `v`, least significant first.
pub open spec fn le16(v: int) -> Seq<u8> {
    seq![(v % 256) as u8, ((v / 256) % 256) as u8]
}

/// The four low bytes of `v`, least significant first (the bytes of
/// `v` truncated to 32 bits).
pub open spec fn le32(v: int) -> Seq<u8> {
    seq![
        (v % 256) as u8,
        ((v / 256) % 256) as u8,
        ((v / 65536) % 256) as u8,
        ((v / 16777216) % 256) as u8,
    ]
}

/// The little-endian 32-bit number stored at `off`.
pub open spec fn read_le32(s: Seq<u8>, off: int) -> int {
    s[off] + 256 * s[off + 1] + 65536 * s[off + 2] + 16777216 * s[off + 3]
}

/// The little-endian 16-bit number stored at `off`.
pub open spec fn read_le16(s: Seq<u8>, off: int) -> int {
    s[off] + 256 * s[off + 1]
}

/// Zero bytes appended to each row so that rows are 4-byte aligned.
pub open spec fn row_padding(width: nat) -> nat {
    ((4 - (width % 4) as int) % 4) as nat
}

/// Bytes per stored row: one index per pixel plus padding.
pub open spec fn row_size(width: nat) -> nat {
    width + row_padding(width)
}

/// Bytes of pixel data in the file.
pub open spec fn image_size(width: nat, height: nat) -> nat {
    row_size(width) * height
}

/// The 14-byte file header followed by the 40-byte info header.
pub open spec fn bmp_headers(width: u32, height: u32) -> Seq<u8> {
    let image = image_size(width as nat, height as nat) as int;
    seq![66u8, 77u8]  // "BM"
        + le32(PIXEL_DATA_OFFSET + image)
        + le16(0)
        + le16(0)
        + le32(PIXEL_DATA_OFFSET as int)
        + le32(40)
        + le32(width as int)
        + le32(height as int)
        + le16(1)
        + le16(8)
        + le32(0)
        + le32(image)
        + le32(2835)
        + le32(2835)
        + le32(PALETTE_ENTRIES as int)
        + le32(0)
}

/// Byte `k` of the palette table built from an RGBA palette: entry
/// `k / 4` is stored as blue, green, red, 0; entries beyond the colours
/// that `palette` holds are black.
pub open spec fn palette_table_byte(palette: Seq<u8>, k: int) -> u8 {
    let i = k / 4;
    let c = k % 4;
    if i < palette.len() / 4 {
        if c == 0 {
            palette[4 * i + 2]
        } else if c == 1 {
            palette[4 * i + 1]
        } else if c == 2 {
            palette[4 * i]
        } else {
            0u8
        }
    } else {
        0u8
    }
}

/// The 256-entry palette table.
pub open spec fn palette_table(palette: Seq<u8>) -> Seq<u8> {
    Seq::new(4 * PALETTE_ENTRIES as nat, |k: int| palette_table_byte(palette, k))
}

/// Byte `k` of the pixel data: rows are stored bottom-up, so stored row
/// `k / row_size` holds image row `height - 1 - k / row_size`; bytes past
/// the width are padding.
pub open spec fn pixel_data_byte(width: nat, height: nat, indices: Seq<u8>, k: int) -> u8 {
    let rs = row_size(width) as int;
    let row = (height - 1) - k / rs;
    let x = k % rs;
    if x < width {
        indices[row * width + x]
    } else {
        0u8
    }
}

/// The pixel data: `height` rows of `row_size(width)` bytes, bottom row first.
pub open spec fn pixel_data(width: nat, height: nat, indices: Seq<u8>) -> Seq<u8> {
    Seq::new(image_size(width, height), |k: int| pixel_data_byte(width, height, indices, k))
}

/// The whole file that `write_paletted_bmp` produces.
pub open spec fn bmp_file(width: u32, height: u32, palette: Seq<u8>, indices: Seq<u8>) -> Seq<u8> {
    bmp_headers(width, height) + palette_table(palette) + pixel_data(
        width as nat,
        height as nat,
        indices,
    )
}

fn push_le16(out: &mut Vec<u8>, v: u16)
    ensures
        final(out)@ == old(out)@ + le16(v as int),
{
    out.push((v % 256) as u8);
    out.push(((v / 256) % 256) as u8);
}

fn push_le32(out: &mut Vec<u8>, v: u64)
    ensures
        final(out)@ == old(out)@ + le32(v as int),
{
    out.push((v % 256) as u8);
    out.push(((v / 256) % 256) as u8);
    out.push(((v / 65536) % 256) as u8);
    out.push(((v / 16777216) % 256) as u8);
}

proof fn lemma_row_size_bounds(width: nat)
    ensures
        row_padding(width) < 4,
        row_size(width) >= width,
        row_size(width) % 4 == 0,
        width > 0 ==> row_size(width) > 0,
{
}

fn push_headers(data: &mut Vec<u8>, width: u32, height: u32, file_size: usize, pixel_bytes: usize)
    requires
        pixel_bytes == image_size(width as nat, height as nat),
        file_size == PIXEL_DATA_OFFSET + pixel_bytes,
    ensures
        final(data)@ == old(data)@ + bmp_headers(width, height),
{
    // File header.
    data.push(66u8);
    data.push(77u8);
    push_le32(data, file_size as u64);
    push_le16(data, 0);
    push_le16(data, 0);
    push_le32(data, PIXEL_DATA_OFFSET as u64);
    // Info header.
    push_le32(data, 40);
    push_le32(data, width as u64);
    push_le32(data, height as u64);
    push_le16(data, 1);
    push_le16(data, 8);
    push_le32(data, 0);
    push_le32(data, pixel_bytes as u64);
    push_le32(data, 2835);
    push_le32(data, 2835);
    push_le32(data, PALETTE_ENTRIES as u64);
    push_le32(data, 0);
    assert(data@ =~= old(data)@ + bmp_headers(width, height));
}

fn push_palette(data: &mut Vec<u8>, palette: &[u8])
    ensures
        final(data)@ == old(data)@ + palette_table(palette@),
{
    let palette_colors = palette.len() / 4;
    let ghost start = data@;
    let mut i: usize = 0;
    while i < PALETTE_ENTRIES
        invariant
            i <= PALETTE_ENTRIES,
            palette_colors == palette@.len() / 4,
            data@ =~= start + Seq::new(4 * i as nat, |k: int| palette_table_byte(palette@, k)),
        decreases PALETTE_ENTRIES - i,
    {
        if i < palette_colors {
            let base = i * 4;
            data.push(palette[base + 2]);
            data.push(palette[base + 1]);
            data.push(palette[base]);
        } else {
            data.push(0u8);
            data.push(0u8);
            data.push(0u8);
        }
        data.push(0u8);
        proof {
            let n = 4 * i as int;
            lemma_fundamental_div_mod_converse(n, 4, i as int, 0);
            lemma_fundamental_div_mod_converse(n + 1, 4, i as int, 1);
            lemma_fundamental_div_mod_converse(n + 2, 4, i as int, 2);
            lemma_fundamental_div_mod_converse(n + 3, 4, i as int, 3);
            assert(Seq::new((n + 4) as nat, |k: int| palette_table_byte(palette@, k)) =~= Seq::new(
                n as nat,
                |k: int| palette_table_byte(palette@, k),
            ).push(palette_table_byte(palette@, n)).push(palette_table_byte(palette@, n + 1)).push(
                palette_table_byte(palette@, n + 2),
            ).push(palette_table_byte(palette@, n + 3)));
        }
        i = i + 1;
    }
}

/// Appends stored row number `done_rows` (image row `h - 1 - done_rows`).
fn push_row(
    data: &mut Vec<u8>,
    w: usize,
    h: usize,
    row: usize,
    row_size: usize,
    indices: &[u8],
)
    requires
        row < h,
        row_size == crate::bmp::row_size(w as nat),
        indices@.len() >= w * h,
    ensures
        final(data)@ =~= old(data)@ + Seq::new(
            row_size as nat,
            |j: int| pixel_data_byte(w as nat, h as nat, indices@, (h - 1 - row) * row_size + j),
        ),
{
    proof {
        lemma_row_size_bounds(w as nat);
    }
    let index_count = indices.len();
    assert(row * w + w <= w * h) by (nonlinear_arith)
        requires
            row < h,
    ;
    let start = row * w;
    let ghost done = (h - 1 - row) * row_size;
    let ghost before = data@;
    let mut pos: usize = 0;
    while pos < row_size
        invariant
            row < h,
            pos <= row_size,
            start == row * w,
            start + w <= w * h,
            row_size == crate::bmp::row_size(w as nat),
            indices@.len() >= w * h,
            index_count == indices@.len(),
            done == (h - 1 - row) * row_size,
            data@ =~= before + Seq::new(
                pos as nat,
                |j: int| pixel_data_byte(w as nat, h as nat, indices@, done + j),
            ),
        decreases row_size - pos,
    {
        let byte = if pos < w {
            indices[start + pos]
        } else {
            0u8
        };
        proof {
            lemma_fundamental_div_mod_converse(
                done + pos,
                row_size as int,
                (h - 1 - row) as int,
                pos as int,
            );
            assert(pixel_data_byte(w as nat, h as nat, indices@, done + pos) == byte);
            assert(Seq::new((pos + 1) as nat, |j: int| pixel_data_byte(w as nat, h as nat, indices@, done + j))
                =~= Seq::new(pos as nat, |j: int| pixel_data_byte(w as nat, h as nat, indices@, done + j)).push(byte));
        }
        data.push(byte);
        pos = pos + 1;
    }
}

fn push_pixel_data(data: &mut Vec<u8>, w: usize, h: usize, row_size: usize, indices: &[u8])
    requires
        row_size == crate::bmp::row_size(w as nat),
        indices@.len() >= w * h,
        row_size * h <= usize::MAX,
    ensures
        final(data)@ =~= old(data)@ + pixel_data(w as nat, h as nat, indices@),
{
    let ghost start = data@;
    let mut row = h;
    assert(data@ =~= start + Seq::new(
        ((h - row) * row_size) as nat,
        |k: int| pixel_data_byte(w as nat, h as nat, indices@, k),
    ));
    while row > 0
        invariant
            row <= h,
            row_size == crate::bmp::row_size(w as nat),
            indices@.len() >= w * h,
            data@ =~= start + Seq::new(
                ((h - row) * row_size) as nat,
                |k: int| pixel_data_byte(w as nat, h as nat, indices@, k),
            ),
        decreases row,
    {
        row = row - 1;
        let ghost done = (h - 1 - row) * row_size;
        let ghost mid = data@;
        push_row(data, w, h, row, row_size, indices);
        proof {
            assert(done + row_size == (h - row) * row_size) by (nonlinear_arith)
                requires
                    done == (h - 1 - row) * row_size,
                    row < h,
            ;
            assert(done >= 0) by (nonlinear_arith)
                requires
                    done == (h - 1 - row) * row_size,
                    row < h,
            ;
            assert(Seq::new((done + row_size) as nat, |k: int| pixel_data_byte(w as nat, h as nat, indices@, k))
                =~= Seq::new(done as nat, |k: int| pixel_data_byte(w as nat, h as nat, indices@, k))
                + Seq::new(row_size as nat, |j: int| pixel_data_byte(w as nat, h as nat, indices@, done + j)));
        }
    }
    assert((h - row) * row_size == row_size * h) by (nonlinear_arith)
        requires
            row == 0,
    ;
}

/// Writes `indices` (one palette index per pixel, rows top to bottom) as an
/// 8-bit paletted BMP of `width` x `height` pixels with the RGBA `palette`.
pub fn write_paletted_bmp(width: u32, height: u32, palette: &[u8], indices: &[u8]) -> (data: Vec<u8>)
    requires
        indices@.len() >= width as int * height as int,
        row_size(width as nat) <= usize::MAX,
        PIXEL_DATA_OFFSET + image_size(width as nat, height as nat) <= usize::MAX,
    ensures
        data@ == bmp_file(width, height, palette@, indices@),
        data@.len() == PIXEL_DATA_OFFSET + image_size(width as nat, height as nat),
{
    let w = width as usize;
    let h = height as usize;
    let row_padding = (4 - (w % 4)) % 4;
    proof {
        lemma_row_size_bounds(w as nat);
    }
    let row_size = w + row_padding;
    let pixel_bytes = row_size * h;
    let header_size: usize = 14 + 40 + PALETTE_ENTRIES * 4;
    let file_size = header_size + pixel_bytes;

    let mut data: Vec<u8> = Vec::with_capacity(file_size);
    push_headers(&mut data, width, height, file_size, pixel_bytes);
    push_palette(&mut data, palette);
    push_pixel_data(&mut data, w, h, row_size, indices);
    data
}

/// Reading back four bytes written by `le32` gives the value modulo 2^32.
pub proof fn lemma_le32_read_back(v: int)
    requires
        v >= 0,
    ensures
        read_le32(le32(v), 0) == v % 4294967296,
{
    lemma_mod_breakdown(v, 256, 256);
    lemma_mod_breakdown(v, 65536, 256);
    lemma_mod_breakdown(v, 16777216, 256);
}

/// Reading back two bytes written by `le16` gives the value modulo 2^16.
pub proof fn lemma_le16_read_back(v: int)
    requires
        v >= 0,
    ensures
        read_le16(le16(v), 0) == v % 65536,
{
    lemma_mod_breakdown(v, 256, 256);
}

proof fn lemma_read_le32_shift(s: Seq<u8>, t: Seq<u8>, off: int)
    requires
        0 <= off,
        off + 4 <= s.len(),
        t.len() == 4,
        forall|j: int| 0 <= j < 4 ==> s[off + j] == t[j],
    ensures
        read_le32(s, off) == read_le32(t, 0),
{
    assert(s[off] == t[0]);
    assert(s[off + 1] == t[1]);
    assert(s[off + 2] == t[2]);
    assert(s[off + 3] == t[3]);
}

/// The header of every file written describes the file: the size field
/// holds the file's length (modulo 2^32), the data-offset field points past
/// the palette, and the dimension, depth and palette-size fields hold the
/// width, the height, 8 bits per pixel and 256 colours.
#[verifier::rlimit(60)]
pub proof fn lemma_bmp_header_fields(width: u32, height: u32, palette: Seq<u8>, indices: Seq<u8>)
    ensures
        ({
            let f = bmp_file(width, height, palette, indices);
            &&& f.len() == PIXEL_DATA_OFFSET + image_size(width as nat, height as nat)
            &&& f[0] == 66u8 && f[1] == 77u8
            &&& read_le32(f, 2) == f.len() % 4294967296
            &&& read_le32(f, 10) == PIXEL_DATA_OFFSET
            &&& read_le32(f, 14) == 40
            &&& read_le32(f, 18) == width
            &&& read_le32(f, 22) == height
            &&& read_le16(f, 26) == 1
            &&& read_le16(f, 28) == 8
            &&& read_le32(f, 30) == 0
            &&& read_le32(f, 34) == image_size(width as nat, height as nat) % 4294967296
            &&& read_le32(f, 46) == PALETTE_ENTRIES
        }),
{
    let f = bmp_file(width, height, palette, indices);
    let hd = bmp_headers(width, height);
    let image = image_size(width as nat, height as nat) as int;
    assert(hd.len() == 54);
    assert forall|j: int| 0 <= j < 54 implies f[j] == hd[j] by {}
    lemma_le32_read_back(PIXEL_DATA_OFFSET + image);
    lemma_le32_read_back(PIXEL_DATA_OFFSET as int);
    lemma_le32_read_back(40);
    lemma_le32_read_back(width as int);
    lemma_le32_read_back(height as int);
    lemma_le16_read_back(1);
    lemma_le16_read_back(8);
    lemma_le32_read_back(0);
    lemma_le32_read_back(image);
    lemma_le32_read_back(PALETTE_ENTRIES as int);
    lemma_read_le32_shift(f, le32(PIXEL_DATA_OFFSET + image), 2);
    lemma_read_le32_shift(f, le32(PIXEL_DATA_OFFSET as int), 10);
    lemma_read_le32_shift(f, le32(40), 14);
    lemma_read_le32_shift(f, le32(width as int), 18);
    lemma_read_le32_shift(f, le32(height as int), 22);
    lemma_read_le32_shift(f, le32(0), 30);
    lemma_read_le32_shift(f, le32(image), 34);
    lemma_read_le32_shift(f, le32(PALETTE_ENTRIES as int), 46);
    assert(f[26] == le16(1)[0] && f[27] == le16(1)[1]);
    assert(f[28] == le16(8)[0] && f[29] == le16(8)[1]);
}

/// Palette entry `i` of the file holds colour `i` of the RGBA palette as
/// blue, green, red and a zero byte; entries past the palette's colours are
/// black.
pub proof fn lemma_bmp_palette_entry(
    width: u32,
    height: u32,
    palette: Seq<u8>,
    indices: Seq<u8>,
    i: int,
)
    requires
        0 <= i < PALETTE_ENTRIES,
    ensures
        ({
            let f = bmp_file(width, height, palette, indices);
            let at = 54 + 4 * i;
            if i < palette.len() / 4 {
                &&& f[at] == palette[4 * i + 2]
                &&& f[at + 1] == palette[4 * i + 1]
                &&& f[at + 2] == palette[4 * i]
                &&& f[at + 3] == 0
            } else {
                f[at] == 0 && f[at + 1] == 0 && f[at + 2] == 0 && f[at + 3] == 0
            }
        }),
{
    let n = 4 * i;
    lemma_fundamental_div_mod_converse(n, 4, i, 0);
    lemma_fundamental_div_mod_converse(n + 1, 4, i, 1);
    lemma_fundamental_div_mod_converse(n + 2, 4, i, 2);
    lemma_fundamental_div_mod_converse(n + 3, 4, i, 3);
    let f = bmp_file(width, height, palette, indices);
    assert(bmp_headers(width, height).len() == 54);
    assert(f[54 + n] == palette_table(palette)[n]);
    assert(f[54 + n + 1] == palette_table(palette)[n + 1]);
    assert(f[54 + n + 2] == palette_table(palette)[n + 2]);
    assert(f[54 + n + 3] == palette_table(palette)[n + 3]);
}

/// Pixel `(x, y)` of the image (row `y` counted from the top) is stored at
/// column `x` of stored row `height - 1 - y`, and that byte is its palette
/// index: reading the file back gives the indices that were written.
pub proof fn lemma_bmp_pixel_read_back(
    width: u32,
    height: u32,
    palette: Seq<u8>,
    indices: Seq<u8>,
    x: int,
    y: int,
)
    requires
        0 <= x < width,
        0 <= y < height,
        indices.len() >= width as int * height as int,
    ensures
        ({
            let rs = row_size(width as nat) as int;
            bmp_file(width, height, palette, indices)[PIXEL_DATA_OFFSET + (height - 1 - y) * rs + x]
                == indices[y * width + x]
        }),
{
    let w = width as nat;
    let h = height as nat;
    let rs = row_size(w) as int;
    let k = (h - 1 - y) * rs + x;
    lemma_row_size_bounds(w);
    assert(0 <= k < rs * h) by (nonlinear_arith)
        requires
            k == (h - 1 - y) * rs + x,
            0 <= y < h,
            0 <= x < w,
            w <= rs,
    ;
    lemma_fundamental_div_mod_converse(k, rs, h - 1 - y, x);
    assert(pixel_data(w, h, indices)[k] == indices[y * w + x]);
    assert(bmp_headers(width, height).len() + palette_table(palette).len() == PIXEL_DATA_OFFSET);
}

/// Every stored row is a multiple of four bytes long, and the bytes that pad
/// a row past the image width are zero.
pub proof fn lemma_bmp_row_padding(
    width: u32,
    height: u32,
    palette: Seq<u8>,
    indices: Seq<u8>,
    r: int,
    x: int,
)
    requires
        0 <= r < height,
        width <= x < row_size(width as nat),
    ensures
        row_size(width as nat) % 4 == 0,
        row_size(width as nat) < width + 4,
        bmp_file(width, height, palette, indices)[PIXEL_DATA_OFFSET + r * row_size(width as nat) + x]
            == 0,
{
    let w = width as nat;
    let h = height as nat;
    let rs = row_size(w) as int;
    let k = r * rs + x;
    lemma_row_size_bounds(w);
    assert(0 <= k < rs * h) by (nonlinear_arith)
        requires
            k == r * rs + x,
            0 <= r < h,
            0 <= x < rs,
    ;
    lemma_fundamental_div_mod_converse(k, rs, r, x);
    assert(pixel_data(w, h, indices)[k] == 0);
    assert(bmp_headers(width, height).len() + palette_table(palette).len() == PIXEL_DATA_OFFSET);
}

/// The palette colours a file uses: those the palette holds, at most 256.
pub open spec fn used_colors(palette: Seq<u8>) -> int {
    if palette.len() / 4 < PALETTE_ENTRIES {
        (palette.len() / 4) as int
    } else {
        PALETTE_ENTRIES as int
    }
}

proof fn lemma_index_in_image(width: nat, height: nat, k: int)
    requires
        0 <= k < image_size(width, height),
    ensures
        ({
            let rs = row_size(width) as int;
            let row = (height - 1) - k / rs;
            let x = k % rs;
            0 <= row < height && 0 <= x < rs && (x < width ==> 0 <= row * width + x < width * height)
        }),
{
    let rs = row_size(width) as int;
    lemma_row_size_bounds(width);
    assert(rs > 0) by (nonlinear_arith)
        requires
            0 <= k < rs * height,
            rs >= 0,
    ;
    vstd::arithmetic::div_mod::lemma_fundamental_div_mod(k, rs);
    let q = k / rs;
    let x = k % rs;
    assert(0 <= x < rs) by {
        vstd::arithmetic::div_mod::lemma_mod_pos_bound(k, rs);
    }
    assert(0 <= q < height) by (nonlinear_arith)
        requires
            k == rs * q + x,
            0 <= x < rs,
            0 <= k < rs * height,
    ;
    let row = (height - 1) - q;
    if x < width {
        assert(0 <= row * width + x < width * height) by (nonlinear_arith)
            requires
                0 <= row < height,
                0 <= x < width,
        ;
    }
}

/// Only the colour bytes of the palette's first `used_colors` entries and
/// the first `width * height` indices make up the file: alpha bytes, colours
/// past the 256th and indices past the image do not change it.
pub proof fn lemma_bmp_ignores_unused_input(
    width: u32,
    height: u32,
    palette: Seq<u8>,
    indices: Seq<u8>,
    other_palette: Seq<u8>,
    other_indices: Seq<u8>,
)
    requires
        indices.len() >= width as int * height as int,
        other_indices.len() >= width as int * height as int,
        forall|j: int| 0 <= j < width as int * height as int ==> #[trigger] other_indices[j] == indices[j],
        used_colors(other_palette) == used_colors(palette),
        forall|i: int, c: int|
            0 <= i < used_colors(palette) && 0 <= c < 3 ==> #[trigger] other_palette[4 * i + c]
                == palette[4 * i + c],
    ensures
        bmp_file(width, height, other_palette, other_indices) == bmp_file(width, height, palette, indices),
{
    let w = width as nat;
    let h = height as nat;
    assert forall|k: int| 0 <= k < 4 * PALETTE_ENTRIES implies #[trigger] palette_table_byte(
        other_palette,
        k,
    ) == palette_table_byte(palette, k) by {
        let i = k / 4;
        let c = k % 4;
        assert(0 <= i < PALETTE_ENTRIES);
        assert((i < other_palette.len() / 4) == (i < palette.len() / 4));
        if i < palette.len() / 4 {
            if c == 0 {
                assert(other_palette[4 * i + 2] == palette[4 * i + 2]);
            } else if c == 1 {
                assert(other_palette[4 * i + 1] == palette[4 * i + 1]);
            } else if c == 2 {
                assert(other_palette[4 * i + 0] == palette[4 * i + 0]);
            }
        }
    }
    assert(palette_table(other_palette) =~= palette_table(palette));
    assert forall|k: int| 0 <= k < image_size(w, h) implies #[trigger] pixel_data_byte(
        w,
        h,
        other_indices,
        k,
    ) == pixel_data_byte(w, h, indices, k) by {
        lemma_index_in_image(w, h, k);
        let rs = row_size(w) as int;
        let row = (h - 1) - k / rs;
        let x = k % rs;
        if x < w {
            assert(other_indices[row * w + x] == indices[row * w + x]);
        }
    }
    assert(pixel_data(w, h, other_indices) =~= pixel_data(w, h, indices));
}

/// Writing with the palette cut to its used colours and the indices cut to
/// the image gives the same file.
pub proof fn lemma_bmp_truncated_input(width: u32, height: u32, palette: Seq<u8>, indices: Seq<u8>)
    requires
        indices.len() >= width as int * height as int,
    ensures
        bmp_file(width, height, palette, indices) == bmp_file(
            width,
            height,
            palette.subrange(0, 4 * used_colors(palette)),
            indices.subrange(0, width as int * height as int),
        ),
{
    let p2 = palette.subrange(0, 4 * used_colors(palette));
    assert(p2.len() / 4 == used_colors(palette));
    lemma_bmp_ignores_unused_input(
        width,
        height,
        p2,
        indices.subrange(0, width as int * height as int),
        palette,
        indices,
    );
}

} // verus!
