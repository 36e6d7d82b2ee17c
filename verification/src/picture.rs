use vstd::prelude::*;

verus! {

/// A decoded picture: 8-bit RGBA pixels, row after row, four bytes per pixel.
#[derive(Debug, Clone)]
pub struct RgbaImage {
    pub width: u32,
    pub height: u32,
    pub pixels: Vec<u8>,
}

impl View for RgbaImage {
    type V = (u32, u32, Seq<u8>);

    open spec fn view(&self) -> (u32, u32, Seq<u8>) {
        (self.width, self.height, self.pixels@)
    }
}

/// Four bytes per pixel, no more and no less.
pub open spec fn well_sized(img: (u32, u32, Seq<u8>)) -> bool {
    img.2.len() == 4 * img.0 * img.1
}

/// Where channel `c` of pixel `(x, y)` lies in a picture `width` pixels wide.
pub open spec fn pixel_index(width: int, x: int, y: int, c: int) -> int {
    4 * (y * width + x) + c
}

/// The side of the largest square that fits in the picture.
pub open spec fn square_side(img: (u32, u32, Seq<u8>)) -> u32 {
    if img.0 <= img.1 {
        img.0
    } else {
        img.1
    }
}

/// Where the centred square starts: a tall picture is cut at the top and the
/// bottom, a wide (or square) one at the left and the right.
pub open spec fn square_offset(img: (u32, u32, Seq<u8>)) -> (int, int) {
    let s = square_side(img);
    if img.1 > img.0 {
        (0, (img.1 - s) / 2)
    } else {
        ((img.0 - s) / 2, 0)
    }
}

/// The pixels of the centred square of the picture.
pub open spec fn centre_square(img: (u32, u32, Seq<u8>)) -> Seq<u8> {
    let s = square_side(img) as int;
    let (ox, oy) = square_offset(img);
    Seq::new(
        (4 * s * s) as nat,
        |i: int| img.2[pixel_index(img.0 as int, (i / 4) % s + ox, (i / 4) / s + oy, i % 4)],
    )
}

/// The pixel `(x, y)` of a square of side `size` lies outside the disc that
/// the square encloses: its corner is farther from the centre than the radius.
pub open spec fn outside_circle(size: int, x: int, y: int) -> bool {
    (2 * x - size) * (2 * x - size) + (2 * y - size) * (2 * y - size) > size * size
}

/// Channel `c` of pixel `(x, y)` after the mask: opaque black outside the disc,
/// unchanged inside.
pub open spec fn masked_byte(p: Seq<u8>, size: int, x: int, y: int, c: int) -> u8 {
    if outside_circle(size, x, y) {
        if c == 3 {
            255
        } else {
            0
        }
    } else {
        p[pixel_index(size, x, y, c)]
    }
}

/// The pixels of a square of side `size` with everything outside its disc
/// painted opaque black.
pub open spec fn masked(p: Seq<u8>, size: int) -> Seq<u8> {
    Seq::new(p.len(), |i: int| masked_byte(p, size, (i / 4) % size, (i / 4) / size, i % 4))
}

/// What `image::load_from_memory` decodes from the bytes, as 8-bit RGBA
/// (width, height, pixels); `None` where it reports an error.
pub uninterp spec fn decoded_rgba(data: Seq<u8>) -> Option<(u32, u32, Seq<u8>)>;

/// Calls `image::load_from_memory` and converts the picture with
/// `DynamicImage::to_rgba8`. Claimed: the result is the named decoding of the
/// bytes, and a decoded picture has exactly four bytes per pixel (the decoder
/// fills a buffer of exactly its size, and `to_rgba8` copies or converts it
/// into one of four bytes per pixel). What the decoders accept is not stated.
#[verifier::external_body]
fn load_rgba(data: &[u8]) -> (res: Option<RgbaImage>)
    ensures
        res matches Some(img) ==> decoded_rgba(data@) == Some(img@),
        res is None ==> decoded_rgba(data@) is None,
        res matches Some(img) ==> well_sized(img@),
{
    match image::load_from_memory(data) {
        Ok(img) => {
            let buf = img.to_rgba8();
            Some(RgbaImage { width: buf.width(), height: buf.height(), pixels: buf.into_raw() })
        },
        Err(_) => None,
    }
}

/// Calls `DynamicImage::resize_to_fill(side, side, Lanczos3)` on the picture,
/// where `side` is its shorter side, and converts back with `to_rgba8`.
/// Claimed, as the crate's source shows for this case: the scale factor is
/// exactly one, so `resize_exact` copies the picture unchanged and `crop`
/// keeps the centred square, the cut split evenly (rounding down) between
/// the two ends of the longer side.
#[verifier::external_body]
fn resize_to_fill_square(img: &RgbaImage, side: u32) -> (res: RgbaImage)
    requires
        well_sized(img@),
        side == square_side(img@),
    ensures
        res.width == side,
        res.height == side,
        res.pixels@ == centre_square(img@),
{
    let buf = image::RgbaImage::from_raw(img.width, img.height, img.pixels.clone()).unwrap();
    let out = image::DynamicImage::ImageRgba8(buf).resize_to_fill(
        side,
        side,
        image::imageops::FilterType::Lanczos3,
    ).to_rgba8();
    RgbaImage { width: out.width(), height: out.height(), pixels: out.into_raw() }
}

/// Decodes a picture (any format the decoders know) into RGBA.
pub fn decode_image(data: &[u8]) -> (res: Option<RgbaImage>)
    ensures
        res matches Some(img) ==> decoded_rgba(data@) == Some(img@),
        res is None ==> decoded_rgba(data@) is None,
{
    load_rgba(data)
}

/// What `decode_circular` makes of the bytes: the centred square of the
/// decoded picture with everything outside its disc painted opaque black.
pub open spec fn circular_avatar(data: Seq<u8>) -> Option<(u32, u32, Seq<u8>)> {
    match decoded_rgba(data) {
        Some(img) => {
            let s = square_side(img);
            Some((s, s, masked(centre_square(img), s as int)))
        },
        None => None,
    }
}

/// Decodes an avatar and bakes a circular mask into it: the picture is cut to
/// its centred square and every pixel outside the disc becomes opaque black
/// (the overlay's transparent colour).
pub fn decode_circular(data: &[u8]) -> (res: Option<RgbaImage>)
    ensures
        res matches Some(img) ==> circular_avatar(data@) == Some(img@),
        res is None ==> circular_avatar(data@) is None,
{
    let img = match load_rgba(data) {
        Some(img) => img,
        None => return None,
    };
    let side = if img.width <= img.height {
        img.width
    } else {
        img.height
    };
    let mut square = resize_to_fill_square(&img, side);
    proof {
        lemma_square_len(img@);
    }
    mask_outside_circle(&mut square.pixels, side);
    Some(square)
}

proof fn lemma_square_len(img: (u32, u32, Seq<u8>))
    ensures
        centre_square(img).len() == 4 * square_side(img) * square_side(img),
{
    let s = square_side(img) as int;
    assert(4 * s * s >= 0) by (nonlinear_arith);
}

proof fn lemma_index_in_bounds(size: int, x: int, y: int, c: int)
    requires
        0 <= x < size,
        0 <= y < size,
        0 <= c < 4,
    ensures
        0 <= pixel_index(size, x, y, c) < 4 * size * size,
        pixel_index(size, x, y, c) + 3 - c < 4 * size * size,
{
    assert(4 * size * size == 4 * (size * size)) by (nonlinear_arith);
    assert(0 <= y * size + x <= size * size - 1) by (nonlinear_arith)
        requires
            0 <= x < size,
            0 <= y < size,
    ;
}

proof fn lemma_index_unique(size: int, x1: int, y1: int, c1: int, x2: int, y2: int, c2: int)
    requires
        0 <= x1 < size,
        0 <= x2 < size,
        0 <= y1,
        0 <= y2,
        0 <= c1 < 4,
        0 <= c2 < 4,
        pixel_index(size, x1, y1, c1) == pixel_index(size, x2, y2, c2),
    ensures
        x1 == x2 && y1 == y2 && c1 == c2,
{
    let a = y1 * size + x1;
    let b = y2 * size + x2;
    assert(a == b && c1 == c2);
    if y1 < y2 {
        assert(y2 * size >= y1 * size + size) by (nonlinear_arith)
            requires
                y1 < y2,
                0 <= size,
        ;
    } else if y2 < y1 {
        assert(y1 * size >= y2 * size + size) by (nonlinear_arith)
            requires
                y2 < y1,
                0 <= size,
        ;
    }
}

/// Splits a byte index of a square picture into pixel and channel.
proof fn lemma_split_index(size: int, i: int)
    requires
        0 < size,
        0 <= i < 4 * size * size,
    ensures
        0 <= (i / 4) % size < size,
        0 <= (i / 4) / size < size,
        0 <= i % 4 < 4,
        pixel_index(size, (i / 4) % size, (i / 4) / size, i % 4) == i,
{
    let q = i / 4;
    assert(4 * size * size == 4 * (size * size)) by (nonlinear_arith);
    assert(i == 4 * q + i % 4);
    assert(q == size * (q / size) + q % size) by (nonlinear_arith)
        requires
            0 < size,
            0 <= q,
    ;
    assert(0 <= q % size < size) by (nonlinear_arith)
        requires
            0 < size,
    ;
    assert(q < size * size);
    assert(0 <= q / size < size) by (nonlinear_arith)
        requires
            0 < size,
            0 <= q < size * size,
    ;
    assert(q / size * size == size * (q / size)) by (nonlinear_arith);
}

/// Whether the pixel `(x, y)` of a square of side `size` lies outside its disc.
fn is_outside_circle(size: u32, x: u32, y: u32) -> (b: bool)
    requires
        x < size,
        y < size,
    ensures
        b == outside_circle(size as int, x as int, y as int),
{
    let s = size as u128;
    let tx = 2 * (x as u128);
    let ty = 2 * (y as u128);
    let dx = if tx >= s {
        tx - s
    } else {
        s - tx
    };
    let dy = if ty >= s {
        ty - s
    } else {
        s - ty
    };
    assert(dx * dx == (2 * x - size) * (2 * x - size)) by (nonlinear_arith)
        requires
            dx == tx - s || dx == s - tx,
            tx == 2 * x,
            s == size,
    ;
    assert(dy * dy == (2 * y - size) * (2 * y - size)) by (nonlinear_arith)
        requires
            dy == ty - s || dy == s - ty,
            ty == 2 * y,
            s == size,
    ;
    assert(dx * dx <= s * s && dy * dy <= s * s) by (nonlinear_arith)
        requires
            dx <= s,
            dy <= s,
    ;
    assert(s * s < 0x1_0000_0000_0000_0000) by (nonlinear_arith)
        requires
            s < 0x1_0000_0000,
    ;
    dx * dx + dy * dy > s * s
}

/// Paints every pixel of a square picture of side `size` that lies outside
/// its disc opaque black; the pixels inside keep their colour.
fn mask_outside_circle(pixels: &mut Vec<u8>, size: u32)
    requires
        old(pixels)@.len() == 4 * size * size,
    ensures
        final(pixels)@ == masked(old(pixels)@, size as int),
{
    let ghost orig = pixels@;
    let ghost s = size as int;
    let n = size as usize;
    let total = pixels.len();
    let mut y: usize = 0;
    let mut row: usize = 0;
    while y < n
        invariant
            n == size,
            s == size,
            orig.len() == 4 * s * s,
            pixels@.len() == orig.len(),
            y <= n,
            total == orig.len(),
            y < n ==> row == 4 * (y * s),
            forall|x2: int, y2: int, c2: int|
                0 <= x2 < s && 0 <= y2 < y && 0 <= c2 < 4 ==> pixels@[#[trigger] pixel_index(
                    s,
                    x2,
                    y2,
                    c2,
                )] == masked_byte(orig, s, x2, y2, c2),
            forall|x2: int, y2: int, c2: int|
                0 <= x2 < s && y <= y2 < s && 0 <= c2 < 4 ==> pixels@[#[trigger] pixel_index(
                    s,
                    x2,
                    y2,
                    c2,
                )] == orig[pixel_index(s, x2, y2, c2)],
        decreases n - y,
    {
        let mut x: usize = 0;
        while x < n
            invariant
                n == size,
                s == size,
                orig.len() == 4 * s * s,
                pixels@.len() == orig.len(),
                y < n,
                x <= n,
                total == orig.len(),
                row == 4 * (y * s),
                forall|x2: int, y2: int, c2: int|
                    0 <= x2 < s && 0 <= c2 < 4 && (0 <= y2 < y || (y2 == y && x2 < x))
                        ==> pixels@[#[trigger] pixel_index(s, x2, y2, c2)] == masked_byte(
                        orig,
                        s,
                        x2,
                        y2,
                        c2,
                    ),
                forall|x2: int, y2: int, c2: int|
                    0 <= x2 < s && 0 <= c2 < 4 && ((y == y2 && x <= x2) || y < y2 < s)
                        ==> pixels@[#[trigger] pixel_index(s, x2, y2, c2)] == orig[pixel_index(
                        s,
                        x2,
                        y2,
                        c2,
                    )],
            decreases n - x,
        {
            proof {
                lemma_index_in_bounds(s, x as int, y as int, 0);
            }
            let base = row + 4 * x;
            assert(base == pixel_index(s, x as int, y as int, 0));
            if is_outside_circle(size, x as u32, y as u32) {
                let ghost before = pixels@;
                pixels.set(base, 0);
                pixels.set(base + 1, 0);
                pixels.set(base + 2, 0);
                pixels.set(base + 3, 255);
                assert forall|x2: int, y2: int, c2: int|
                    0 <= x2 < s && 0 <= y2 < s && 0 <= c2 < 4 && !(x2 == x && y2 == y) implies
                    pixels@[#[trigger] pixel_index(s, x2, y2, c2)] == before[pixel_index(
                    s,
                    x2,
                    y2,
                    c2,
                )] by {
                    lemma_index_in_bounds(s, x2, y2, c2);
                    if pixel_index(s, x2, y2, c2) == base
                        || pixel_index(s, x2, y2, c2) == base + 1
                        || pixel_index(s, x2, y2, c2) == base + 2
                        || pixel_index(s, x2, y2, c2) == base + 3 {
                        let k = pixel_index(s, x2, y2, c2) - base;
                        assert(pixel_index(s, x as int, y as int, k) == pixel_index(s, x2, y2, c2));
                        lemma_index_unique(s, x as int, y as int, k, x2, y2, c2);
                    }
                }
                assert forall|c2: int| 0 <= c2 < 4 implies pixels@[#[trigger] pixel_index(
                    s,
                    x as int,
                    y as int,
                    c2,
                )] == masked_byte(orig, s, x as int, y as int, c2) by {
                    assert(pixel_index(s, x as int, y as int, c2) == base + c2);
                }
            } else {
                assert forall|c2: int| 0 <= c2 < 4 implies pixels@[#[trigger] pixel_index(
                    s,
                    x as int,
                    y as int,
                    c2,
                )] == masked_byte(orig, s, x as int, y as int, c2) by {
                    assert(pixel_index(s, x as int, y as int, c2) == base + c2);
                }
            }
            x = x + 1;
        }
        proof {
            lemma_index_in_bounds(s, 0, y as int, 0);
            assert((y + 1) * s == y * s + s) by (nonlinear_arith);
            if y + 1 < n {
                lemma_index_in_bounds(s, 0, y as int + 1, 0);
            }
        }
        y = y + 1;
        if y < n {
            row = row + 4 * n;
        }
    }
    assert forall|i: int| 0 <= i < orig.len() implies pixels@[i] == masked(orig, s)[i] by {
        lemma_split_index(s, i);
        let x2 = (i / 4) % s;
        let y2 = (i / 4) / s;
        let c2 = i % 4;
        assert(pixels@[pixel_index(s, x2, y2, c2)] == masked_byte(orig, s, x2, y2, c2));
    }
    assert(pixels@ =~= masked(orig, s));
}

} // verus!
