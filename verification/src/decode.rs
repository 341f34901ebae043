//! Decoding an image file's bytes into RGBA pixels, turned and mirrored.
use vstd::prelude::*;

use crate::img::{extension, path_extension};
use crate::orient::{orient, oriented};

verus! {

/// What the `image` crate decodes from `bytes` as the format that the
/// file extension `ext` names, converted to 8-bit RGBA: width, height and
/// the pixels row by row; `None` when the extension names no format it
/// decodes or the bytes are not a valid image of that format.
pub uninterp spec fn decoded_rgba(ext: Seq<char>, bytes: Seq<u8>) -> Option<(u32, u32, Seq<u8>)>;

/// `image::load_from_memory_with_format` with the format that
/// `image::ImageFormat::from_extension` picks for `ext`, then
/// `DynamicImage::to_rgba8`. The contract claims that the result is the
/// named `decoded_rgba` of the arguments, and that the RGBA buffer holds
/// exactly four bytes per pixel, as `to_rgba8` allocates it.
#[verifier::external_body]
fn decode_rgba(ext: &str, bytes: &[u8]) -> (r: Option<(u32, u32, Vec<u8>)>)
    ensures
        match r {
            Some((w, h, b)) => decoded_rgba(ext@, bytes@) == Some((w, h, b@)) && b@.len() == 4 * w * h,
            None => decoded_rgba(ext@, bytes@) is None,
        },
{
    let format = image::ImageFormat::from_extension(ext)?;
    let img = image::load_from_memory_with_format(bytes, format).ok()?.to_rgba8();
    let (width, height) = img.dimensions();
    Some((width, height, img.into_raw()))
}

/// The image in the file `path`, whose bytes are `bytes`, decoded by the
/// format its extension names, turned by `rotation` degrees clockwise and
/// mirrored as asked: width, height and RGBA bytes. A path without an
/// extension, or bytes that do not decode, give `None`.
pub fn load_image(path: &str, bytes: &[u8], rotation: u16, flip_h: bool, flip_v: bool) -> (r: Option<
    (u32, u32, Vec<u8>),
>)
    ensures
        match path_extension(path@) {
            None => r is None,
            Some(ext) => match decoded_rgba(ext, bytes@) {
                None => r is None,
                Some((w, h, b)) => r matches Some((w2, h2, b2)) && (w2, h2, b2@) == oriented(
                    w,
                    h,
                    b,
                    rotation,
                    flip_h,
                    flip_v,
                ) && b2@.len() == 4 * w2 * h2,
            },
        },
{
    let ext = match extension(path) {
        Some(e) => e,
        None => return None,
    };
    match decode_rgba(ext.as_str(), bytes) {
        Some((w, h, raw)) => Some(orient(w, h, raw, rotation, flip_h, flip_v)),
        None => None,
    }
}

} // verus!
