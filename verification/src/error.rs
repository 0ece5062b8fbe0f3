//! What can go wrong while an icon is assembled.

use vstd::prelude::*;

verus! {

/// The PNG decoder's own error. It is carried through unopened, so that a
/// caller can report the decoder's message as the decoder words it.
#[verifier::external_type_specification]
#[verifier::external_body]
pub struct ExDecodingError(png::DecodingError);

/// Why an image could not be described, or a container not be laid out.
#[derive(Debug)]
pub enum IcoError {
    /// The decoder could not read the PNG header.
    Decode(png::DecodingError),
    /// A native width or height outside `1..=256`; holds the offending value.
    Dimension(u32),
    /// Bit depth times samples per pixel does not fit the 16-bit depth field.
    DepthOverflow { bit_depth: u8, samples: usize },
    /// The payload's byte count does not fit the 32-bit size field.
    LengthOverflow(usize),
    /// More images than the 16-bit count field of the header can hold.
    TooManyImages(usize),
    /// The payload of image `index` would start at `offset`, which does not
    /// fit the 32-bit offset field.
    OffsetOverflow { index: usize, offset: u64 },
}

} // verus!
