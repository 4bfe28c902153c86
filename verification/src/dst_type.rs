//! The layout of the destination, chosen by the extension of its path.

use vstd::prelude::*;
use vstd::utf8::*;
use crate::error::ConvError;
use crate::ext::{extension_of_bytes, lemma_no_period_no_extension, os_str_ext};
use crate::reorder::argb32_of_rgba8;
use crate::text::str_eq;

verus! {

/// A packed-pixel layout that a conversion can produce.
#[derive(Debug, Clone, Copy, PartialEq, Eq)]
pub enum DstType {
    /// Four bytes a pixel: alpha, red, green, blue.
    Argb32,
}

/// The extension that names the ARGB32 layout.
pub open spec fn argb32_ext() -> Seq<char> {
    seq!['a', 'r', 'g', 'b', '3', '2']
}

/// The layout that an extension names. The match is exact, so it tells
/// upper case from lower case.
pub open spec fn dst_type_of_ext(ext: Seq<char>) -> Option<DstType> {
    if ext == argb32_ext() {
        Some(DstType::Argb32)
    } else {
        None
    }
}

/// The layout that a destination path, given as its bytes, asks for.
pub open spec fn dst_type_of_path(path: Seq<u8>) -> Result<DstType, ConvError> {
    match extension_of_bytes(path) {
        Ok(ext) => match dst_type_of_ext(ext) {
            Some(dst_type) => Ok(dst_type),
            None => Err(ConvError::UnsupportedFormat),
        },
        Err(e) => Err(e),
    }
}

impl DstType {
    /// The bytes of an RGBA8 pixel buffer in this layout.
    pub open spec fn of_rgba8(self, rgba: Seq<u8>) -> Seq<u8> {
        match self {
            DstType::Argb32 => argb32_of_rgba8(rgba),
        }
    }

    /// The layout that an extension names, if it names one.
    pub fn from_ext(ext: &str) -> (res: Option<Self>)
        ensures
            res == dst_type_of_ext(ext@),
    {
        proof {
            reveal_strlit("argb32");
            assert("argb32"@ =~= argb32_ext());
        }
        if str_eq(ext, "argb32") {
            Some(DstType::Argb32)
        } else {
            None
        }
    }
}

/// The layout that a destination path, given as its bytes, asks for by its
/// extension.
pub fn determine_dst_type(path: &[u8]) -> (res: Result<DstType, ConvError>)
    ensures
        res == dst_type_of_path(path@),
{
    match os_str_ext(path) {
        Ok(ext) => match DstType::from_ext(ext) {
            Some(dst_type) => Ok(dst_type),
            None => Err(ConvError::UnsupportedFormat),
        },
        Err(e) => Err(e),
    }
}

/// A destination path that is valid text without a period is refused for
/// its missing extension, and for no other reason.
pub proof fn lemma_no_period_is_missing_extension(path: Seq<u8>)
    requires
        valid_utf8(path),
        !decode_utf8(path).contains('.'),
    ensures
        dst_type_of_path(path) == Err::<DstType, ConvError>(ConvError::MissingExtension),
{
    lemma_no_period_no_extension(decode_utf8(path));
}

} // verus!
