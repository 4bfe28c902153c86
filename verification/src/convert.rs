//! The conversion of a decoded image into the bytes of a destination layout.

use vstd::prelude::*;
use vstd::slice::slice_subrange;
use crate::bitmap::{
    image_height,
    image_width,
    rgba8_fits,
    rgba8_len,
    rgba8_pixels,
    to_rgba8_samples,
};
use crate::dst_type::DstType;
use crate::error::ConvError;
use crate::reorder::argb32_from_rgba8;

verus! {

/// What the conversion of an image into a layout gives: the image's RGBA8
/// pixel buffer in that layout, unless the buffer would be too long.
pub open spec fn converted(img: image::DynamicImage, dst_type: DstType) -> Result<
    Seq<u8>,
    ConvError,
> {
    if rgba8_fits(image_width(img), image_height(img)) {
        Ok(dst_type.of_rgba8(rgba8_pixels(img)))
    } else {
        Err(ConvError::ImageTooLarge)
    }
}

/// The length in bytes of the RGBA8 buffer of an image of this size, or
/// nothing where no buffer is that long.
pub fn rgba8_buffer_len(width: u32, height: u32) -> (res: Option<usize>)
    ensures
        match res {
            Some(len) => rgba8_fits(width as nat, height as nat) && len == rgba8_len(
                width as nat,
                height as nat,
            ),
            None => !rgba8_fits(width as nat, height as nat),
        },
{
    assert(0 <= width * height <= 0xffff_ffff * 0xffff_ffff) by (nonlinear_arith)
        requires
            0 <= width <= 0xffff_ffff,
            0 <= height <= 0xffff_ffff,
    ;
    let pixels: u128 = (width as u128) * (height as u128);
    let len: u128 = 4 * pixels;
    if len <= isize::MAX as u128 {
        Some(len as usize)
    } else {
        None
    }
}

/// The pixels of an image as ARGB32: four bytes a pixel in the order alpha,
/// red, green, blue, row by row from the top.
pub fn conv_argb32(img: &image::DynamicImage) -> (res: Result<Vec<u8>, ConvError>)
    ensures
        match res {
            Ok(argb) => converted(*img, DstType::Argb32) == Ok::<Seq<u8>, ConvError>(argb@),
            Err(e) => converted(*img, DstType::Argb32) == Err::<Seq<u8>, ConvError>(e),
        },
        res matches Ok(argb) ==> {
            &&& argb@.len() == rgba8_len(image_width(*img), image_height(*img))
            &&& rgba8_pixels(*img).len() == argb@.len()
        },
{
    match rgba8_buffer_len(img.width(), img.height()) {
        Some(len) => {
            let samples = to_rgba8_samples(img);
            let rgba = slice_subrange(samples.as_slice(), 0, len);
            Ok(argb32_from_rgba8(rgba))
        },
        None => Err(ConvError::ImageTooLarge),
    }
}

/// The pixels of an image in the layout asked for.
pub fn conv_to_type(img: &image::DynamicImage, type_: DstType) -> (res: Result<Vec<u8>, ConvError>)
    ensures
        match res {
            Ok(bytes) => converted(*img, type_) == Ok::<Seq<u8>, ConvError>(bytes@),
            Err(e) => converted(*img, type_) == Err::<Seq<u8>, ConvError>(e),
        },
        res matches Ok(bytes) ==> {
            &&& bytes@.len() == rgba8_len(image_width(*img), image_height(*img))
            &&& rgba8_pixels(*img).len() == bytes@.len()
        },
{
    match type_ {
        DstType::Argb32 => conv_argb32(img),
    }
}

} // verus!
