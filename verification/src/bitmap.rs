//! The decoded image, as the `image` crate holds it.
//!
//! A `DynamicImage` is opaque here. What the conversion reads of it has a
//! name: its width, its height, and the samples of its RGBA8 form.

use vstd::prelude::*;

verus! {

/// `image::DynamicImage`, carried through as a value that nothing here looks
/// into.
#[verifier::external_type_specification]
#[verifier::external_body]
pub struct ExDynamicImage(image::DynamicImage);

/// The width of an image in pixels, as `DynamicImage::width` gives it.
pub uninterp spec fn image_width(img: image::DynamicImage) -> nat;

/// The height of an image in pixels, as `DynamicImage::height` gives it.
pub uninterp spec fn image_height(img: image::DynamicImage) -> nat;

/// The samples that the buffer of `DynamicImage::to_rgba8` holds: the
/// pixels row by row from the top, four bytes each in the order red, green,
/// blue, alpha, and after them whatever the buffer holds beyond its pixels.
pub uninterp spec fn rgba8_samples(img: image::DynamicImage) -> Seq<u8>;

/// The length in bytes of an RGBA8 buffer for an image of this size.
pub open spec fn rgba8_len(width: nat, height: nat) -> nat {
    4 * (width * height)
}

/// Whether an RGBA8 buffer for an image of this size is no longer than a
/// vector of bytes can be.
pub open spec fn rgba8_fits(width: nat, height: nat) -> bool {
    rgba8_len(width, height) <= isize::MAX
}

/// The RGBA8 pixel buffer of an image: the samples of its pixels, without
/// what may follow them.
pub open spec fn rgba8_pixels(img: image::DynamicImage) -> Seq<u8> {
    rgba8_samples(img).take(rgba8_len(image_width(img), image_height(img)) as int)
}

/// `DynamicImage::width` reads the width of the image.
pub assume_specification[ image::DynamicImage::width ](img: &image::DynamicImage) -> (width: u32)
    ensures
        width == image_width(*img),
;

/// `DynamicImage::height` reads the height of the image.
pub assume_specification[ image::DynamicImage::height ](img: &image::DynamicImage) -> (height:
    u32)
    ensures
        height == image_height(*img),
;

/// Calls `DynamicImage::to_rgba8` and takes the buffer out of the result
/// with `ImageBuffer::into_raw`. The buffer holds the named samples, and at
/// least the four bytes of each pixel: an image buffer is only ever made
/// over a container that is long enough for its width and height. The
/// images left out are those whose RGBA8 form is too long for a vector, on
/// which the call panics. That memory can be had for the buffer is taken for
/// granted.
#[verifier::external_body]
pub(crate) fn to_rgba8_samples(img: &image::DynamicImage) -> (samples: Vec<u8>)
    requires
        rgba8_fits(image_width(*img), image_height(*img)),
    ensures
        samples@ == rgba8_samples(*img),
        samples@.len() >= rgba8_len(image_width(*img), image_height(*img)),
{
    img.to_rgba8().into_raw()
}

} // verus!
