//! Where each payload goes.
//!
//! The payloads follow the header and the directory without gaps, in the
//! order of their directory entries, so the place of each is fixed by the
//! number of images and the lengths of the payloads before it.

use vstd::prelude::*;
use crate::error::IcoError;

verus! {

/// Size in bytes of the file header.
pub const HEADER_SIZE: u64 = 6;

/// Size in bytes of one directory entry.
pub const ENTRY_SIZE: u64 = 16;

/// The most images the header's 16-bit count can announce.
pub const MAX_IMAGES: usize = 65535;

/// The sum of all payload lengths.
pub open spec fn total_length(lengths: Seq<u32>) -> nat
    decreases lengths.len(),
{
    if lengths.len() == 0 {
        0
    } else {
        total_length(lengths.drop_last()) + lengths.last() as nat
    }
}

/// The offset from the start of the file at which payload `i` begins: past
/// the header, the whole directory and the payloads before it. For `i`
/// equal to the number of images this is the length of the file.
pub open spec fn payload_offset(lengths: Seq<u32>, i: int) -> int
    recommends
        0 <= i <= lengths.len(),
{
    HEADER_SIZE + ENTRY_SIZE * lengths.len() + total_length(lengths.take(i))
}

/// Whether a container can be laid out for payloads of these lengths: the
/// count fits its 16-bit field and every payload's offset its 32-bit field.
pub open spec fn layout_fits(lengths: Seq<u32>) -> bool {
    &&& lengths.len() <= MAX_IMAGES
    &&& forall|i: int| 0 <= i < lengths.len() ==> payload_offset(lengths, i) <= u32::MAX
}

/// Whether `e` is the error that a layout for these lengths fails with: too
/// many images, or else the first payload that starts out of reach.
pub open spec fn is_layout_error(lengths: Seq<u32>, e: IcoError) -> bool {
    if lengths.len() > MAX_IMAGES {
        e == IcoError::TooManyImages(lengths.len() as usize)
    } else {
        &&& e matches IcoError::OffsetOverflow { index, offset }
        &&& index < lengths.len()
        &&& offset == payload_offset(lengths, index as int)
        &&& offset > u32::MAX
        &&& forall|j: int| 0 <= j < index ==> payload_offset(lengths, j) <= u32::MAX
    }
}

/// One more payload moves the next offset on by its length.
pub proof fn lemma_offset_step(lengths: Seq<u32>, i: int)
    requires
        0 <= i < lengths.len(),
    ensures
        payload_offset(lengths, i + 1) == payload_offset(lengths, i) + lengths[i],
{
    assert(lengths.take(i + 1).drop_last() =~= lengths.take(i));
}

/// Computes the offset of every payload, given the payloads' lengths in
/// directory order.
pub fn payload_offsets(lengths: &[u32]) -> (r: Result<Vec<u32>, IcoError>)
    ensures
        r is Ok <==> layout_fits(lengths@),
        r matches Ok(offsets) ==> {
            &&& offsets@.len() == lengths@.len()
            &&& forall|i: int|
                0 <= i < lengths@.len() ==> #[trigger] offsets@[i] == payload_offset(lengths@, i)
        },
        r matches Err(e) ==> is_layout_error(lengths@, e),
{
    let n: usize = lengths.len();
    if n > MAX_IMAGES {
        return Err(IcoError::TooManyImages(n));
    }
    let mut offsets: Vec<u32> = Vec::new();
    let mut offset: u64 = HEADER_SIZE + ENTRY_SIZE * (n as u64);
    let mut i: usize = 0;
    while i < n
        invariant
            n == lengths@.len(),
            n <= MAX_IMAGES,
            i <= n,
            offset == payload_offset(lengths@, i as int),
            offset <= HEADER_SIZE + ENTRY_SIZE * n + i * 0xffff_ffff,
            offsets@.len() == i,
            forall|j: int| 0 <= j < i ==> #[trigger] offsets@[j] == payload_offset(lengths@, j),
            forall|j: int| 0 <= j < i ==> #[trigger] payload_offset(lengths@, j) <= u32::MAX,
        decreases n - i,
    {
        if offset > u32::MAX as u64 {
            return Err(IcoError::OffsetOverflow { index: i, offset });
        }
        proof {
            lemma_offset_step(lengths@, i as int);
        }
        offsets.push(offset as u32);
        offset = offset + lengths[i] as u64;
        i = i + 1;
    }
    Ok(offsets)
}

} // verus!
