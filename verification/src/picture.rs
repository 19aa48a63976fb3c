//! Packaged pictures: PNG bytes decoded into RGBA pixels, and city pictures scaled down to
//! their map resolution with premultiplied alpha, so that transparent edges stay clean.

use vstd::prelude::*;

use crate::pixels::{
    channels_mapped, premultiplied, premultiply_alpha, unpremultiplied, unpremultiply_alpha,
};

verus! {

/// Why a city picture could not be prepared.
#[derive(Clone, Copy, Debug, PartialEq, Eq, Structural)]
pub enum PictureError {
    /// The bytes do not decode to a picture.
    Undecodable,
    /// Scaling the decoded `width` by `height` picture needs buffers larger than memory
    /// can address.
    TooLarge { width: u32, height: u32 },
}

/// Width, height and RGBA bytes (row by row, at least four per pixel) of the picture that
/// the PNG bytes `png` decode to; `None` where they do not decode.
pub uninterp spec fn png_rgba(png: Seq<u8>) -> Option<(u32, u32, Seq<u8>)>;

/// A decoded picture with its pixel bytes taken by value.
pub open spec fn picture_view(picture: Option<(u32, u32, Vec<u8>)>) -> Option<(u32, u32, Seq<u8>)> {
    match picture {
        Some((width, height, pixels)) => Some((width, height, pixels@)),
        None => None,
    }
}

/// A decoded picture cut to exactly four bytes for each of its pixels.
pub open spec fn fitted(picture: Option<(u32, u32, Seq<u8>)>) -> Option<(u32, u32, Seq<u8>)> {
    match picture {
        Some((width, height, pixels)) => Some((width, height, pixels.take(width * height * 4))),
        None => None,
    }
}

/// A `width` by `height` RGBA picture can be scaled to `size` by `size` pixels: the
/// working buffer (four 4-byte floats per pixel of a `width` by `size` picture) and the
/// result (four bytes per pixel) both fit in an addressable allocation.
pub open spec fn scalable(width: u32, height: u32, size: u32) -> bool {
    &&& width * size * 16 <= isize::MAX
    &&& size * size * 4 <= isize::MAX
}

/// Every byte of `pixels` is zero.
pub open spec fn all_zero(pixels: Seq<u8>) -> bool {
    forall|i: int| 0 <= i < pixels.len() ==> #[trigger] pixels[i] == 0
}

/// Every pixel of the RGBA picture `pixels` is fully transparent.
pub open spec fn transparent(pixels: Seq<u8>) -> bool {
    forall|i: int| 0 <= i < pixels.len() && i % 4 == 3 ==> #[trigger] pixels[i] == 0
}

/// `scaled` is the RGBA picture `resized` with each colour channel scaled back by its
/// pixel's opacity.
pub open spec fn unpremultiplied_from(resized: Seq<u8>, scaled: Seq<u8>) -> bool {
    channels_mapped(resized, scaled, |c: u8, a: u8| unpremultiplied(c, a))
}

/// `scaled` can come of scaling the `width` by `height` RGBA picture `pixels` to `size`
/// by `size` pixels: it holds four bytes per pixel, it is some resized picture with its
/// colour scaled back by opacity, it keeps no colour at all where `pixels` was wholly
/// transparent, and where the picture already has that size it is `pixels` with its colour
/// premultiplied by opacity once and scaled back once.
pub open spec fn city_picture_scaled(
    pixels: Seq<u8>,
    width: u32,
    height: u32,
    size: u32,
    scaled: Seq<u8>,
) -> bool {
    &&& scaled.len() == size * size * 4
    &&& exists|resized: Seq<u8>|
        resized.len() == size * size * 4 && #[trigger] unpremultiplied_from(resized, scaled)
    &&& transparent(pixels) ==> all_zero(scaled)
    &&& width == size && height == size ==> channels_mapped(
        pixels,
        scaled,
        |c: u8, a: u8| unpremultiplied(premultiplied(c, a), a),
    )
}

/// Calls `image::load_from_memory` on `png` and converts the picture with
/// `DynamicImage::to_rgba8`; gives its width, height and raw pixel bytes, or `None` where
/// decoding fails. The contract names the outcome `png_rgba` of the bytes (this build
/// decodes PNG only, in integer arithmetic and fixed-order float arithmetic) and claims
/// what an `RgbaImage` always keeps: at least four bytes for each of its pixels.
#[verifier::external_body]
fn decode_rgba(png: &[u8]) -> (decoded: Option<(u32, u32, Vec<u8>)>)
    ensures
        picture_view(decoded) == png_rgba(png@),
        decoded matches Some((width, height, pixels)) ==> pixels@.len() >= width * height * 4,
{
    match image::load_from_memory(png) {
        Ok(picture) => {
            let rgba = picture.to_rgba8();
            let (width, height) = rgba.dimensions();
            Some((width, height, rgba.into_raw()))
        },
        Err(_) => None,
    }
}

/// Wraps `pixels` as a `width` by `height` `RgbaImage` (`ImageBuffer::from_raw`, which
/// accepts a buffer of exactly four bytes per pixel) and calls `image::imageops::resize` to
/// `size` by `size` pixels with the Lanczos3 filter. The contract claims that the result
/// holds four bytes for each of the `size * size` pixels, which every branch of `resize`
/// allocates with `ImageBuffer::new(size, size)`; that a picture of zero bytes resizes to
/// zero bytes (each output is a weighted sum of zeros, rounded); and that a picture that
/// already has the requested size comes back unchanged (`resize` copies it with
/// `copy_from` in that case). The `requires` keeps
/// the buffers within an addressable allocation, where `ImageBuffer::new` would otherwise
/// panic. Other pixel values are left unsaid: the filter weights come from `f32::sin`,
/// whose precision the platform decides.
#[verifier::external_body]
fn resize_lanczos3(pixels: Vec<u8>, width: u32, height: u32, size: u32) -> (resized: Vec<u8>)
    requires
        pixels@.len() == width * height * 4,
        scalable(width, height, size),
    ensures
        resized@.len() == size * size * 4,
        all_zero(pixels@) ==> all_zero(resized@),
        width == size && height == size ==> resized@ == pixels@,
{
    let picture = image::RgbaImage::from_raw(width, height, pixels).expect("four bytes per pixel");
    image::imageops::resize(&picture, size, size, image::imageops::FilterType::Lanczos3).into_raw()
}

/// The first four bytes of each of the `width * height` pixels of `pixels`.
pub fn fit_pixels(width: u32, height: u32, pixels: Vec<u8>) -> (fitted: Vec<u8>)
    requires
        pixels@.len() >= width * height * 4,
    ensures
        fitted@ == pixels@.take(width * height * 4),
{
    let mut pixels = pixels;
    let len = product(width, height) * 4;
    assert(len <= pixels@.len());
    pixels.truncate(len as usize);
    pixels
}

/// Decodes a packaged PNG picture into its width, its height and exactly four RGBA bytes
/// per pixel, row by row; `None` where the bytes do not decode.
pub fn decode_picture(png: &[u8]) -> (decoded: Option<(u32, u32, Vec<u8>)>)
    ensures
        picture_view(decoded) == fitted(png_rgba(png@)),
        decoded matches Some((width, height, pixels)) ==> pixels@.len() == width * height * 4,
{
    match decode_rgba(png) {
        Some((width, height, pixels)) => Some((width, height, fit_pixels(width, height, pixels))),
        None => None,
    }
}

/// Scales a `width` by `height` RGBA picture to `size` by `size` pixels: the colour is
/// premultiplied by opacity, the picture resized with the Lanczos3 filter, and the colour
/// scaled back by the resized opacity.
pub fn scale_city_picture(pixels: Vec<u8>, width: u32, height: u32, size: u32) -> (scaled: Vec<u8>)
    requires
        pixels@.len() == width * height * 4,
        scalable(width, height, size),
    ensures
        city_picture_scaled(pixels@, width, height, size, scaled@),
{
    proof {
        lemma_four_bytes_per_pixel(width as int, height as int);
    }
    let ghost original = pixels@;
    let mut pixels = pixels;
    premultiply_alpha(&mut pixels);
    let ghost premultiplied_once = pixels@;
    proof {
        if transparent(original) {
            assert forall|i: int| 0 <= i < pixels@.len() implies #[trigger] pixels@[i] == 0 by {
                assert(original[i - i % 4 + 3] == 0);
            }
        }
    }
    let mut resized = resize_lanczos3(pixels, width, height, size);
    let ghost before = resized@;
    proof {
        lemma_four_bytes_per_pixel(size as int, size as int);
    }
    unpremultiply_alpha(&mut resized);
    assert(before.len() == size * size * 4 && unpremultiplied_from(before, resized@));
    proof {
        if transparent(original) {
            assert forall|i: int| 0 <= i < resized@.len() implies #[trigger] resized@[i] == 0 by {
                assert(before[i] == 0 && before[i - i % 4 + 3] == 0);
            }
        }
        if width == size && height == size {
            assert forall|i: int| 0 <= i < original.len() implies #[trigger] resized@[i] == if i
                % 4 == 3 {
                original[i]
            } else {
                unpremultiplied(
                    premultiplied(original[i], original[i - i % 4 + 3]),
                    original[i - i % 4 + 3],
                )
            } by {
                let a = i - i % 4 + 3;
                assert(before[i] == premultiplied_once[i]);
                assert(before[a] == premultiplied_once[a]);
                assert(a % 4 == 3);
            }
        }
    }
    resized
}

/// Prepares a decoded picture (`None` where its bytes did not decode) for the map at
/// `size` by `size` pixels, scaling it as `scale_city_picture` does where its buffers fit.
pub fn city_picture_from(decoded: Option<(u32, u32, Vec<u8>)>, size: u32) -> (prepared: Result<
    Vec<u8>,
    PictureError,
>)
    requires
        decoded matches Some((width, height, pixels)) ==> pixels@.len() == width * height * 4,
    ensures
        match picture_view(decoded) {
            None => prepared == Err::<Vec<u8>, PictureError>(PictureError::Undecodable),
            Some((width, height, pixels)) => if scalable(width, height, size) {
                prepared matches Ok(scaled) && city_picture_scaled(pixels, width, height, size, scaled@)
            } else {
                prepared == Err::<Vec<u8>, PictureError>(
                    PictureError::TooLarge { width, height },
                )
            },
        },
{
    let (width, height, pixels) = match decoded {
        Some(picture) => picture,
        None => {
            return Err(PictureError::Undecodable);
        },
    };
    let wide = product(width, size) * 16;
    let result = product(size, size) * 4;
    let limit = isize::MAX as u128;
    if wide > limit || result > limit {
        return Err(PictureError::TooLarge { width, height });
    }
    Ok(scale_city_picture(pixels, width, height, size))
}

/// Prepares a packaged city picture for the map at `size` by `size` pixels: decodes the
/// PNG bytes and scales the picture as `scale_city_picture` does.
pub fn prepare_city_picture(png: &[u8], size: u32) -> (prepared: Result<Vec<u8>, PictureError>)
    ensures
        match fitted(png_rgba(png@)) {
            None => prepared == Err::<Vec<u8>, PictureError>(PictureError::Undecodable),
            Some((width, height, pixels)) => if scalable(width, height, size) {
                prepared matches Ok(scaled) && city_picture_scaled(pixels, width, height, size, scaled@)
            } else {
                prepared == Err::<Vec<u8>, PictureError>(
                    PictureError::TooLarge { width, height },
                )
            },
        },
{
    city_picture_from(decode_picture(png), size)
}

/// Scaling a picture to the size it already has keeps every pixel's opacity and brings its
/// colour back from premultiplied alpha exactly once; a fully opaque pixel comes back
/// unchanged.
pub proof fn lemma_same_size_scaling_restores_each_pixel(pixels: Seq<u8>, size: u32, scaled: Seq<u8>)
    requires
        pixels.len() == size * size * 4,
        city_picture_scaled(pixels, size, size, size, scaled),
    ensures
        scaled.len() == pixels.len(),
        forall|i: int| 0 <= i < pixels.len() && i % 4 == 3 ==> #[trigger] scaled[i] == pixels[i],
        forall|i: int|
            0 <= i < pixels.len() && i % 4 != 3 ==> #[trigger] scaled[i] == unpremultiplied(
                premultiplied(pixels[i], pixels[i - i % 4 + 3]),
                pixels[i - i % 4 + 3],
            ),
        forall|i: int|
            0 <= i < pixels.len() && pixels[i - i % 4 + 3] == 255 ==> #[trigger] scaled[i]
                == pixels[i],
{
    assert forall|c: u8| #[trigger] premultiplied(c, 255) == c && unpremultiplied(c, 255) == c by {
        assert(((c * 255 + 127) / 255) == c);
        assert(((c * 255 + 127) / (255 as int)) == c);
    }
    assert forall|i: int| 0 <= i < pixels.len() && pixels[i - i % 4 + 3] == 255 implies #[trigger] scaled[i]
        == pixels[i] by {
        if i % 4 != 3 {
            assert(premultiplied(pixels[i], 255) == pixels[i]);
            assert(unpremultiplied(pixels[i], 255) == pixels[i]);
        }
    }
}

/// `a * b`, which a `u128` always holds.
fn product(a: u32, b: u32) -> (p: u128)
    ensures
        p == a * b,
        p <= 0xffff_fffe_0000_0001,
{
    let (a, b) = (a as u128, b as u128);
    assert(a * b <= 0xffff_ffff * 0xffff_ffff) by (nonlinear_arith)
        requires
            a <= 0xffff_ffff,
            b <= 0xffff_ffff,
    ;
    a * b
}

/// A buffer of four bytes per pixel splits into whole pixels.
proof fn lemma_four_bytes_per_pixel(width: int, height: int)
    ensures
        (width * height * 4) % 4 == 0,
{
    assert((width * height * 4) % 4 == 0) by (nonlinear_arith);
}

} // verus!
