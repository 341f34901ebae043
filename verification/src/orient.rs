//! Turning and mirroring a decoded image, held as RGBA bytes row by row.
use vstd::prelude::*;

verus! {

/// The byte of channel `c` of the pixel at column `x`, row `y` of an image
/// `w` pixels wide.
pub open spec fn sample(b: Seq<u8>, w: int, x: int, y: int, c: int) -> u8 {
    b[(y * w + x) * 4 + c]
}

/// The image `w` by `h` turned a quarter clockwise: the pixel at (x, y)
/// moves to (h - 1 - y, x) of an image `h` wide.
pub open spec fn rotated90(w: u32, h: u32, b: Seq<u8>) -> Seq<u8> {
    Seq::new(
        b.len(),
        |i: int| { let p = i / 4; sample(b, w as int, p / (h as int), h - 1 - p % (h as int), i % 4) },
    )
}

/// The image turned half way: the pixel at (x, y) moves to
/// (w - 1 - x, h - 1 - y).
pub open spec fn rotated180(w: u32, h: u32, b: Seq<u8>) -> Seq<u8> {
    Seq::new(
        b.len(),
        |i: int|
            {
                let p = i / 4;
                sample(b, w as int, w - 1 - p % (w as int), h - 1 - p / (w as int), i % 4)
            },
    )
}

/// The image turned three quarters clockwise: the pixel at (x, y) moves to
/// (y, w - 1 - x) of an image `h` wide.
pub open spec fn rotated270(w: u32, h: u32, b: Seq<u8>) -> Seq<u8> {
    Seq::new(
        b.len(),
        |i: int| { let p = i / 4; sample(b, w as int, w - 1 - p / (h as int), p % (h as int), i % 4) },
    )
}

/// The image mirrored left to right: the pixel at (x, y) moves to (w - 1 - x, y).
pub open spec fn flipped_h(w: u32, h: u32, b: Seq<u8>) -> Seq<u8> {
    Seq::new(
        b.len(),
        |i: int| { let p = i / 4; sample(b, w as int, w - 1 - p % (w as int), p / (w as int), i % 4) },
    )
}

/// The image mirrored top to bottom: the pixel at (x, y) moves to (x, h - 1 - y).
pub open spec fn flipped_v(w: u32, h: u32, b: Seq<u8>) -> Seq<u8> {
    Seq::new(
        b.len(),
        |i: int| { let p = i / 4; sample(b, w as int, p % (w as int), h - 1 - p / (w as int), i % 4) },
    )
}

/// The image turned clockwise by `rotation` degrees (0 for any other
/// value), as width, height and bytes.
pub open spec fn turned(w: u32, h: u32, b: Seq<u8>, rotation: u16) -> (u32, u32, Seq<u8>) {
    if rotation == 90 {
        (h, w, rotated90(w, h, b))
    } else if rotation == 180 {
        (w, h, rotated180(w, h, b))
    } else if rotation == 270 {
        (h, w, rotated270(w, h, b))
    } else {
        (w, h, b)
    }
}

/// The image turned by `rotation`, then mirrored left to right when
/// `flip_h`, then top to bottom when `flip_v`.
pub open spec fn oriented(w: u32, h: u32, b: Seq<u8>, rotation: u16, flip_h: bool, flip_v: bool) -> (
    u32,
    u32,
    Seq<u8>,
) {
    let t = turned(w, h, b, rotation);
    let f = if flip_h {
        flipped_h(t.0, t.1, t.2)
    } else {
        t.2
    };
    (t.0, t.1, if flip_v {
        flipped_v(t.0, t.1, f)
    } else {
        f
    })
}

/// `image::imageops::rotate90` on an RGBA image built with
/// `ImageBuffer::from_raw`. The contract claims the crate's loop: each
/// pixel (x, y) is put at (h - 1 - y, x) of an `h` by `w` image.
#[verifier::external_body]
fn rotate90(width: u32, height: u32, raw: Vec<u8>) -> (r: Vec<u8>)
    requires
        raw@.len() == 4 * width * height,
    ensures
        r@ == rotated90(width, height, raw@),
{
    let img = image::RgbaImage::from_raw(width, height, raw).unwrap();
    image::imageops::rotate90(&img).into_raw()
}

/// `image::imageops::rotate180` on an RGBA image. The contract claims the
/// crate's loop: each pixel (x, y) is put at (w - 1 - x, h - 1 - y).
#[verifier::external_body]
fn rotate180(width: u32, height: u32, raw: Vec<u8>) -> (r: Vec<u8>)
    requires
        raw@.len() == 4 * width * height,
    ensures
        r@ == rotated180(width, height, raw@),
{
    let img = image::RgbaImage::from_raw(width, height, raw).unwrap();
    image::imageops::rotate180(&img).into_raw()
}

/// `image::imageops::rotate270` on an RGBA image. The contract claims the
/// crate's loop: each pixel (x, y) is put at (y, w - 1 - x) of an `h` by
/// `w` image.
#[verifier::external_body]
fn rotate270(width: u32, height: u32, raw: Vec<u8>) -> (r: Vec<u8>)
    requires
        raw@.len() == 4 * width * height,
    ensures
        r@ == rotated270(width, height, raw@),
{
    let img = image::RgbaImage::from_raw(width, height, raw).unwrap();
    image::imageops::rotate270(&img).into_raw()
}

/// `image::imageops::flip_horizontal` on an RGBA image. The contract claims
/// the crate's loop: each pixel (x, y) is put at (w - 1 - x, y).
#[verifier::external_body]
fn flip_horizontal(width: u32, height: u32, raw: Vec<u8>) -> (r: Vec<u8>)
    requires
        raw@.len() == 4 * width * height,
    ensures
        r@ == flipped_h(width, height, raw@),
{
    let img = image::RgbaImage::from_raw(width, height, raw).unwrap();
    image::imageops::flip_horizontal(&img).into_raw()
}

/// `image::imageops::flip_vertical` on an RGBA image. The contract claims
/// the crate's loop: each pixel (x, y) is put at (x, h - 1 - y).
#[verifier::external_body]
fn flip_vertical(width: u32, height: u32, raw: Vec<u8>) -> (r: Vec<u8>)
    requires
        raw@.len() == 4 * width * height,
    ensures
        r@ == flipped_v(width, height, raw@),
{
    let img = image::RgbaImage::from_raw(width, height, raw).unwrap();
    image::imageops::flip_vertical(&img).into_raw()
}

/// Turns a decoded image by `rotation` degrees clockwise (90, 180 or 270;
/// any other value leaves it as it is), then mirrors it left to right when
/// `flip_h` and top to bottom when `flip_v`. The image is `width` by
/// `height` pixels of four bytes each, row by row; the result gives the new
/// width and height with the bytes.
pub fn orient(width: u32, height: u32, raw: Vec<u8>, rotation: u16, flip_h: bool, flip_v: bool) -> (r: (
    u32,
    u32,
    Vec<u8>,
))
    requires
        raw@.len() == 4 * width * height,
    ensures
        (r.0, r.1, r.2@) == oriented(width, height, raw@, rotation, flip_h, flip_v),
        r.2@.len() == 4 * r.0 * r.1,
{
    assert(4 * height * width == 4 * width * height) by (nonlinear_arith);
    let (w, h, mut bytes) = if rotation == 90 {
        (height, width, rotate90(width, height, raw))
    } else if rotation == 180 {
        (width, height, rotate180(width, height, raw))
    } else if rotation == 270 {
        (height, width, rotate270(width, height, raw))
    } else {
        (width, height, raw)
    };
    if flip_h {
        bytes = flip_horizontal(w, h, bytes);
    }
    if flip_v {
        bytes = flip_vertical(w, h, bytes);
    }
    (w, h, bytes)
}

} // verus!
