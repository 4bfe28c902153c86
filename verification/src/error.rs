//! The failures of a conversion.

use vstd::prelude::*;

verus! {

/// Why a conversion could not be carried out.
#[derive(Debug, Clone, Copy, PartialEq, Eq)]
pub enum ConvError {
    /// The command line names no source path or no destination path.
    Usage,
    /// The destination path is not valid text.
    PathEncoding,
    /// The destination path holds no period, so it has no extension.
    MissingExtension,
    /// The extension of the destination path names no known layout.
    UnsupportedFormat,
    /// The RGBA8 form of the image would be longer than a buffer can be.
    ImageTooLarge,
}

impl ConvError {
    /// The text of the diagnostic for this failure.
    pub open spec fn message_text(self) -> Seq<char> {
        match self {
            ConvError::Usage => "Usage: rust-imageconv src dst"@,
            ConvError::PathEncoding => "Could not convert path to str"@,
            ConvError::MissingExtension => "Path doesn't contain period"@,
            ConvError::UnsupportedFormat => "Couldn't determine extension for destination"@,
            ConvError::ImageTooLarge => "Image is too large for an RGBA8 buffer"@,
        }
    }

    /// A diagnostic for the user.
    pub fn message(&self) -> (text: &'static str)
        ensures
            text@ == self.message_text(),
    {
        match self {
            ConvError::Usage => "Usage: rust-imageconv src dst",
            ConvError::PathEncoding => "Could not convert path to str",
            ConvError::MissingExtension => "Path doesn't contain period",
            ConvError::UnsupportedFormat => "Couldn't determine extension for destination",
            ConvError::ImageTooLarge => "Image is too large for an RGBA8 buffer",
        }
    }
}

} // verus!
