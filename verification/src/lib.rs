//! Conversion of decoded raster images into raw packed-pixel byte layouts.
//!
//! The destination layout is chosen by the extension of the destination
//! path; the pixel data is the image's RGBA8 form with the channels of each
//! pixel reordered.
//!
//! - [`dst_type`] and [`ext`] resolve a destination path to a layout.
//! - [`reorder`] holds the reordering of a pixel buffer and its laws.
//! - [`convert`] joins the two on a decoded image.
//! - [`args`] and [`error`] hold the rule of the command line and the
//!   failures.
//!
//! Two things are taken on trust and not proved: on which bytes
//! `core::str::from_utf8` succeeds ([`text`]), and what the `image` crate
//! gives as the width, the height and the RGBA8 samples of an image
//! ([`bitmap`]).

pub mod args;
pub mod bitmap;
pub mod convert;
pub mod dst_type;
pub mod error;
pub mod ext;
pub mod reorder;
pub mod text;

pub use crate::args::paths_of_args;
pub use crate::convert::{conv_argb32, conv_to_type, rgba8_buffer_len};
pub use crate::dst_type::{determine_dst_type, DstType};
pub use crate::error::ConvError;
pub use crate::ext::{os_str_ext, str_ext};
pub use crate::reorder::argb32_from_rgba8;
