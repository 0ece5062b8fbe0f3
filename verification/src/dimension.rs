//! The width and height fields of a directory entry.
//!
//! Each is a single byte, and the format spends the value 0, which no image
//! can have, on the one size a byte cannot hold: 256.

use vstd::prelude::*;
use crate::error::IcoError;

verus! {

/// The largest width or height an ICO directory entry can describe.
pub const MAX_ICO_DIMENSION: u32 = 256;

/// Whether a native width or height can be written into a directory entry.
pub open spec fn dimension_fits(dim: u32) -> bool {
    1 <= dim <= MAX_ICO_DIMENSION
}

/// The byte that stands for a native dimension: 256 becomes 0, anything
/// smaller stands for itself.
pub open spec fn ico_dimension(dim: u32) -> u32
    recommends
        dimension_fits(dim),
{
    if dim == MAX_ICO_DIMENSION {
        0
    } else {
        dim
    }
}

/// What a reader of the container takes a width or height field to mean:
/// 0 is read as 256.
pub open spec fn native_dimension(field: u8) -> u32 {
    if field == 0 {
        MAX_ICO_DIMENSION
    } else {
        field as u32
    }
}

/// Encodes a native width or height for a directory entry.
pub fn get_ico_dimension(dim: u32) -> (r: Result<u32, IcoError>)
    ensures
        dimension_fits(dim) ==> r == Ok::<u32, IcoError>(ico_dimension(dim)),
        !dimension_fits(dim) ==> r == Err::<u32, IcoError>(IcoError::Dimension(dim)),
{
    if dim == MAX_ICO_DIMENSION {
        Ok(0)
    } else if dim == 0 || dim > MAX_ICO_DIMENSION {
        Err(IcoError::Dimension(dim))
    } else {
        Ok(dim)
    }
}

/// Encoding loses nothing: for every size a directory entry can describe,
/// the field fits a byte, and a reader gets the native size back from it.
pub proof fn lemma_dimension_round_trip(dim: u32)
    requires
        dimension_fits(dim),
    ensures
        ico_dimension(dim) <= 255,
        ico_dimension(dim) == 0 <==> dim == MAX_ICO_DIMENSION,
        native_dimension(ico_dimension(dim) as u8) == dim,
{
}

} // verus!
