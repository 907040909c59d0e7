//! Turning the bytes of an encoded image into a [`DecodedImage`].

use vstd::prelude::*;
use crate::bitmap::{bitmap_of, Bitmap, DecodeError, DecodedImage};
use crate::text::{has_prefix, starts_with};

verus! {

/// The error of the `image` crate. Nothing of its inside is known here.
#[verifier::external_type_specification]
#[verifier::external_body]
pub struct ExImageError(image::ImageError);

/// Calls `image::load_from_memory`, which guesses the format from the first
/// bytes and decodes, and hands back the image's `width()`, its `height()`
/// and the buffer of `to_rgba8()`.
///
/// Nothing is claimed of the result. The pixels of a lossy format are not
/// the same on every machine, since the decoder may use what the processor
/// offers, so two calls on the same bytes need not agree.
#[verifier::external_body]
fn load_rgba(bytes: &[u8]) -> (loaded: Result<(u32, u32, Vec<u8>), image::ImageError>) {
    let image = image::load_from_memory(bytes)?;
    Ok((image.width(), image.height(), image.to_rgba8().into_raw()))
}

/// The characters `image/`, with which the content type of every image begins.
pub open spec fn image_type_prefix() -> Seq<char> {
    seq!['i', 'm', 'a', 'g', 'e', '/']
}

/// A content type that announces an image.
pub open spec fn is_image_type(content_type: Seq<char>) -> bool {
    has_prefix(content_type, image_type_prefix())
}

/// The characters of a content hint, where one is given.
pub open spec fn hint_text(content_hint: Option<&str>) -> Option<Seq<char>> {
    match content_hint {
        Some(hint) => Some(hint@),
        None => None,
    }
}

/// The result of decoding `bytes` under `content_hint`, where `decoder` is
/// what the image decoder makes of the bytes: a width, a height and pixel
/// bytes, or `None` where it reports an error.
///
/// A hint that names something other than an image settles the matter before
/// the bytes are looked at. Without a hint, or with one that names an image,
/// the format is detected from the bytes themselves.
pub open spec fn decode_outcome(
    bytes: Seq<u8>,
    content_hint: Option<Seq<char>>,
    decoder: Option<(u32, u32, Seq<u8>)>,
) -> Result<Bitmap, DecodeError> {
    if content_hint is Some && !is_image_type(content_hint->0) {
        Err(DecodeError::NotAnImage)
    } else if bytes.len() == 0 {
        Err(DecodeError::Undecodable)
    } else {
        match decoder {
            Some((width, height, pixels)) => bitmap_of(width, height, pixels),
            None => Err(DecodeError::Undecodable),
        }
    }
}

/// Whether a content type announces an image.
pub fn names_image(content_type: &str) -> (named: bool)
    ensures
        named == is_image_type(content_type@),
{
    proof {
        reveal_strlit("image/");
        assert("image/"@ =~= image_type_prefix());
    }
    starts_with(content_type, "image/")
}

/// The view of a decoding result.
pub open spec fn decoded_view(decoded: Result<DecodedImage, DecodeError>) -> Result<Bitmap, DecodeError> {
    match decoded {
        Ok(image) => Ok(image@),
        Err(error) => Err(error),
    }
}

/// Decodes an image from `bytes` into RGBA pixels.
///
/// The result is [`decode_outcome`] for whatever the image decoder makes of
/// the bytes. Which bytes it accepts, and with what pixels, is the decoder's
/// answer alone. The hint is the library's own affair: it is refused exactly
/// when it names something other than an image. An empty buffer is never an
/// image, and an image that comes back always holds four bytes for each of
/// its pixels.
pub fn decode(bytes: &[u8], content_hint: Option<&str>) -> (decoded: Result<DecodedImage, DecodeError>)
    ensures
        exists|decoder: Option<(u32, u32, Seq<u8>)>| #[trigger]
            decode_outcome(bytes@, hint_text(content_hint), decoder) == decoded_view(decoded),
        decoded == Err::<DecodedImage, DecodeError>(DecodeError::NotAnImage) <==> (content_hint matches Some(hint)
            && !is_image_type(hint@)),
        decoded matches Ok(image) ==> image@.is_rgba(),
        bytes@.len() == 0 ==> decoded is Err,
{
    if let Some(hint) = content_hint {
        if !names_image(hint) {
            assert(decode_outcome(bytes@, hint_text(content_hint), None) == decoded_view(
                Err(DecodeError::NotAnImage),
            ));
            return Err(DecodeError::NotAnImage);
        }
    }
    if bytes.len() == 0 {
        assert(decode_outcome(bytes@, hint_text(content_hint), None) == decoded_view(
            Err(DecodeError::Undecodable),
        ));
        return Err(DecodeError::Undecodable);
    }
    match load_rgba(bytes) {
        Ok((width, height, pixels)) => {
            let ghost decoder = Some((width, height, pixels@));
            let decoded = DecodedImage::from_rgba(width, height, pixels);
            assert(decode_outcome(bytes@, hint_text(content_hint), decoder) == decoded_view(decoded));
            decoded
        },
        Err(_) => {
            assert(decode_outcome(bytes@, hint_text(content_hint), None) == decoded_view(
                Err(DecodeError::Undecodable),
            ));
            Err(DecodeError::Undecodable)
        },
    }
}

} // verus!
