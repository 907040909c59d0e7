//! Decoded images: a width, a height and four bytes per pixel.

use vstd::prelude::*;

verus! {

/// The mathematical value of a decoded image.
pub struct Bitmap {
    pub width: nat,
    pub height: nat,
    /// Red, green, blue and alpha of each pixel, row after row.
    pub pixels: Seq<u8>,
}

impl Bitmap {
    /// The pixel bytes are exactly four for each of `width * height` pixels.
    pub open spec fn is_rgba(self) -> bool {
        self.pixels.len() == 4 * (self.width * self.height)
    }

    /// The four bytes of the pixel in column `x` of row `y`.
    pub open spec fn pixel(self, x: int, y: int) -> Seq<u8> {
        self.pixels.subrange(4 * (y * self.width + x), 4 * (y * self.width + x) + 4)
    }
}

/// Why a byte buffer did not become a [`DecodedImage`].
#[derive(Clone, Copy, Debug, PartialEq, Eq, Structural)]
pub enum DecodeError {
    /// The content type names something other than an image; the bytes were not looked at.
    NotAnImage,
    /// The bytes are not an image in a format that can be read.
    Undecodable,
    /// The pixel bytes do not number four for each pixel of the stated size.
    SizeMismatch,
}

/// An image in memory, ready to be handed to a renderer.
#[derive(Debug, PartialEq, Eq)]
pub struct DecodedImage {
    width: u32,
    height: u32,
    pixels: Vec<u8>,
}

impl View for DecodedImage {
    type V = Bitmap;

    closed spec fn view(&self) -> Bitmap {
        Bitmap { width: self.width as nat, height: self.height as nat, pixels: self.pixels@ }
    }
}

/// What [`DecodedImage::from_rgba`] makes of a size and pixel bytes.
pub open spec fn bitmap_of(width: u32, height: u32, pixels: Seq<u8>) -> Result<Bitmap, DecodeError> {
    let bitmap = Bitmap { width: width as nat, height: height as nat, pixels };
    if bitmap.is_rgba() {
        Ok(bitmap)
    } else {
        Err(DecodeError::SizeMismatch)
    }
}

impl DecodedImage {
    /// Every image holds four bytes for each of its pixels.
    #[verifier::type_invariant]
    pub open spec fn well_formed(&self) -> bool {
        self@.is_rgba()
    }

    /// Builds an image from its size and its pixel bytes, which must number
    /// four for each pixel.
    pub fn from_rgba(width: u32, height: u32, pixels: Vec<u8>) -> (made: Result<DecodedImage, DecodeError>)
        ensures
            match made {
                Ok(image) => bitmap_of(width, height, pixels@) == Ok::<Bitmap, DecodeError>(image@),
                Err(error) => bitmap_of(width, height, pixels@) == Err::<Bitmap, DecodeError>(error),
            },
    {
        assert(width * height <= 0xffff_ffff * 0xffff_ffff) by (nonlinear_arith)
            requires
                0 <= width <= 0xffff_ffff,
                0 <= height <= 0xffff_ffff,
        ;
        let area: u64 = (width as u64) * (height as u64);
        if pixels.len() as u128 == 4u128 * (area as u128) {
            Ok(DecodedImage { width, height, pixels })
        } else {
            Err(DecodeError::SizeMismatch)
        }
    }

    /// The number of pixels in a row.
    pub fn width(&self) -> (width: u32)
        ensures
            width == self@.width,
    {
        self.width
    }

    /// The number of rows.
    pub fn height(&self) -> (height: u32)
        ensures
            height == self@.height,
    {
        self.height
    }

    /// The pixel bytes, four for each pixel, row after row.
    pub fn pixels(&self) -> (pixels: &[u8])
        ensures
            pixels@ == self@.pixels,
            self@.is_rgba(),
    {
        proof {
            use_type_invariant(self);
        }
        self.pixels.as_slice()
    }

    /// The red, green, blue and alpha bytes of the pixel in column `x` of
    /// row `y`, if the image has such a pixel.
    pub fn pixel(&self, x: u32, y: u32) -> (found: Option<[u8; 4]>)
        ensures
            match found {
                Some(rgba) => x < self@.width && y < self@.height && rgba@ == self@.pixel(x as int, y as int),
                None => !(x < self@.width && y < self@.height),
            },
    {
        if x >= self.width || y >= self.height {
            return None;
        }
        proof {
            use_type_invariant(self);
            lemma_pixel_in_bounds(x as int, y as int, self.width as int, self.height as int);
            assert(4 * (y * self.width + x) + 4 <= self.pixels.len());
        }
        let row: usize = y as usize * self.width as usize;
        let start: usize = 4 * (row + x as usize);
        let rgba = [
            self.pixels[start],
            self.pixels[start + 1],
            self.pixels[start + 2],
            self.pixels[start + 3],
        ];
        Some(rgba)
    }
}

/// The bytes of a pixel inside the image lie inside its pixel bytes.
proof fn lemma_pixel_in_bounds(x: int, y: int, width: int, height: int)
    requires
        0 <= x < width,
        0 <= y < height,
    ensures
        0 <= y * width,
        4 * (y * width + x) + 4 <= 4 * (width * height),
{
    assert(0 <= y * width && y * width + width <= width * height) by (nonlinear_arith)
        requires
            0 <= y,
            y + 1 <= height,
            0 <= width,
    ;
}

} // verus!
