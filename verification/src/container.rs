//! The container, byte for byte.
//!
//! ```text
//! offset 0      reserved (u16, 0), type (u16, 1), image count (u16)
//! offset 6      one entry per image:
//!               width (u8), height (u8), palette (u8, 0), reserved (u8, 0),
//!               planes (u16, 1), bit depth (u16),
//!               payload length (u32), payload offset (u32)
//! offset 6+16n  the payloads, in the order of their entries
//! ```
//!
//! All multi-byte fields are little-endian.

use vstd::prelude::*;
use crate::dimension::native_dimension;
use crate::error::IcoError;
use crate::layout::{
    is_layout_error, layout_fits, payload_offset, payload_offsets, total_length, ENTRY_SIZE,
    HEADER_SIZE, MAX_IMAGES,
};
use crate::le::{
    le_u16, le_u32, lemma_u16_reads_back, lemma_u32_reads_back, put_u16, put_u32, u16_at,
    u32_at,
};
use crate::metadata::{
    all_wf, lemma_metadata_is_faithful, metadata_of, records, ImageRecord, PngHeader,
    PngMetadata,
};

verus! {

/// Value of every reserved field.
pub const ICO_RESERVED: u8 = 0;

/// The resource type of an icon, as opposed to a cursor.
pub const ICO_TYPE: u16 = 1;

/// Number of colour planes of every image.
pub const ICO_COLOUR_PLANES: u16 = 1;

/// Size of the colour palette; 0 where the image has none.
pub const ICO_COLOUR_PALETTE: u8 = 0;

/// The payload lengths of a run of records, in order.
pub open spec fn lengths_of(images: Seq<ImageRecord>) -> Seq<u32> {
    images.map_values(|image: ImageRecord| image.length)
}

/// The six bytes at the start of the file.
pub open spec fn file_header(count: u16) -> Seq<u8> {
    le_u16(ICO_RESERVED as u16) + le_u16(ICO_TYPE) + le_u16(count)
}

/// The sixteen bytes that describe one image whose payload starts at
/// `offset`.
pub open spec fn directory_entry(image: ImageRecord, offset: u32) -> Seq<u8> {
    seq![image.width, image.height, ICO_COLOUR_PALETTE, ICO_RESERVED] + le_u16(ICO_COLOUR_PLANES)
        + le_u16(image.depth) + le_u32(image.length) + le_u32(offset)
}

/// The directory entries of the first `n` images, one after another.
pub open spec fn directory(images: Seq<ImageRecord>, n: nat) -> Seq<u8>
    recommends
        n <= images.len(),
    decreases n,
{
    if n == 0 {
        Seq::empty()
    } else {
        directory(images, (n - 1) as nat) + directory_entry(
            images[n - 1],
            payload_offset(lengths_of(images), n - 1) as u32,
        )
    }
}

/// The payloads of the first `n` images, one after another.
pub open spec fn payloads(images: Seq<ImageRecord>, n: nat) -> Seq<u8>
    recommends
        n <= images.len(),
    decreases n,
{
    if n == 0 {
        Seq::empty()
    } else {
        payloads(images, (n - 1) as nat) + images[n - 1].data
    }
}

/// The whole container for these images: header, directory, payloads.
pub open spec fn ico_file(images: Seq<ImageRecord>) -> Seq<u8>
    recommends
        layout_fits(lengths_of(images)),
{
    file_header(images.len() as u16) + directory(images, images.len()) + payloads(
        images,
        images.len(),
    )
}

/// Appends the directory entry of `image` to `out`.
fn put_entry(out: &mut Vec<u8>, image: &PngMetadata, offset: u32)
    ensures
        final(out)@ == old(out)@ + directory_entry(image@, offset),
{
    out.push(image.width());
    out.push(image.height());
    out.push(ICO_COLOUR_PALETTE);
    out.push(ICO_RESERVED);
    put_u16(out, ICO_COLOUR_PLANES);
    put_u16(out, image.depth());
    put_u32(out, image.length());
    put_u32(out, offset);
}

/// Appends a payload to `out`.
fn put_payload(out: &mut Vec<u8>, data: &[u8])
    ensures
        final(out)@ == old(out)@ + data@,
{
    out.extend_from_slice(data);
}

/// Writes the container that holds `images`, in their order, into `out`,
/// replacing what `out` held. Where no container can be laid out for them,
/// `out` is left as it was.
///
/// Every `PngMetadata` says truly how long its payload is. The contract
/// passes that on, so that what is proved below of well-formed records
/// holds of the file written here.
pub fn write_ico(out: &mut Vec<u8>, images: &[PngMetadata]) -> (r: Result<(), IcoError>)
    ensures
        all_wf(records(images@)),
        r is Ok <==> layout_fits(lengths_of(records(images@))),
        r is Ok ==> final(out)@ == ico_file(records(images@)),
        r matches Err(e) ==> final(out)@ == old(out)@ && is_layout_error(
            lengths_of(records(images@)),
            e,
        ),
{
    let n: usize = images.len();
    let ghost recs = records(images@);
    let mut lengths: Vec<u32> = Vec::new();
    let mut i: usize = 0;
    while i < n
        invariant
            n == images@.len(),
            recs == records(images@),
            i <= n,
            lengths@ == lengths_of(recs).take(i as int),
            forall|j: int| 0 <= j < i ==> (#[trigger] recs[j]).wf(),
        decreases n - i,
    {
        lengths.push(images[i].length());
        i = i + 1;
    }
    assert(lengths@ =~= lengths_of(recs));
    let offsets: Vec<u32> = match payload_offsets(lengths.as_slice()) {
        Ok(offsets) => offsets,
        Err(e) => {
            return Err(e);
        },
    };

    let mut file: Vec<u8> = Vec::new();
    put_u16(&mut file, ICO_RESERVED as u16);
    put_u16(&mut file, ICO_TYPE);
    put_u16(&mut file, n as u16);
    i = 0;
    while i < n
        invariant
            n == images@.len(),
            recs == records(images@),
            i <= n,
            n <= MAX_IMAGES,
            offsets@.len() == n,
            forall|j: int|
                0 <= j < n ==> #[trigger] offsets@[j] == payload_offset(lengths_of(recs), j),
            file@ == file_header(n as u16) + directory(recs, i as nat),
        decreases n - i,
    {
        put_entry(&mut file, &images[i], offsets[i]);
        i = i + 1;
    }
    i = 0;
    while i < n
        invariant
            n == images@.len(),
            recs == records(images@),
            i <= n,
            n <= MAX_IMAGES,
            file@ == file_header(n as u16) + directory(recs, n as nat) + payloads(recs, i as nat),
        decreases n - i,
    {
        put_payload(&mut file, images[i].data());
        i = i + 1;
    }
    *out = file;
    Ok(())
}

/// The directory of `n` images is `n` entries long.
proof fn lemma_directory_len(images: Seq<ImageRecord>, n: nat)
    ensures
        directory(images, n).len() == ENTRY_SIZE * n,
    decreases n,
{
    if n > 0 {
        lemma_directory_len(images, (n - 1) as nat);
    }
}

/// Entry `i` stands at its place in the directory, whatever follows it.
proof fn lemma_directory_entry_at(images: Seq<ImageRecord>, n: nat, i: int)
    requires
        0 <= i < n,
    ensures
        directory(images, n).subrange(ENTRY_SIZE * i, ENTRY_SIZE * i + ENTRY_SIZE)
            == directory_entry(images[i], payload_offset(lengths_of(images), i) as u32),
    decreases n,
{
    lemma_directory_len(images, (n - 1) as nat);
    if i < n - 1 {
        lemma_directory_entry_at(images, (n - 1) as nat, i);
    }
}

/// The lengths of the first `n` images, with the last of them set apart.
proof fn lemma_lengths_step(images: Seq<ImageRecord>, n: nat)
    requires
        0 < n <= images.len(),
    ensures
        total_length(lengths_of(images).take(n as int)) == total_length(
            lengths_of(images).take(n - 1),
        ) + images[n - 1].length,
{
    let lengths = lengths_of(images);
    assert(lengths.take(n as int).drop_last() =~= lengths.take(n - 1));
}

/// The lengths of more images do not add up to less.
proof fn lemma_total_ascends(images: Seq<ImageRecord>, i: int, j: int)
    requires
        0 <= i <= j <= images.len(),
    ensures
        total_length(lengths_of(images).take(i)) <= total_length(lengths_of(images).take(j)),
    decreases j - i,
{
    if i < j {
        lemma_total_ascends(images, i, j - 1);
        lemma_lengths_step(images, j as nat);
    }
}

/// The payloads of `n` well-formed images are as long as their length
/// fields say together.
proof fn lemma_payloads_len(images: Seq<ImageRecord>, n: nat)
    requires
        n <= images.len(),
        all_wf(images),
    ensures
        payloads(images, n).len() == total_length(lengths_of(images).take(n as int)),
    decreases n,
{
    if n > 0 {
        lemma_payloads_len(images, (n - 1) as nat);
        lemma_lengths_step(images, n);
    }
}

/// Payload `i` stands at its place among the payloads, whatever follows it.
proof fn lemma_payload_at(images: Seq<ImageRecord>, n: nat, i: int)
    requires
        0 <= i < n <= images.len(),
        all_wf(images),
    ensures
        ({
            let start = total_length(lengths_of(images).take(i)) as int;
            payloads(images, n).subrange(start, start + images[i].length) == images[i].data
        }),
    decreases n,
{
    lemma_payloads_len(images, (n - 1) as nat);
    if i < n - 1 {
        lemma_payload_at(images, (n - 1) as nat, i);
        lemma_payloads_len(images, (i + 1) as nat);
        lemma_lengths_step(images, (i + 1) as nat);
        lemma_total_ascends(images, i + 1, n - 1);
    }
}

/// The file is as long as its parts: the header, one entry for each image,
/// and every payload. Its header announces an icon and the number of
/// images.
pub proof fn lemma_container_size(images: Seq<ImageRecord>)
    requires
        all_wf(images),
        layout_fits(lengths_of(images)),
    ensures
        ico_file(images).len() == HEADER_SIZE + ENTRY_SIZE * images.len() + total_length(
            lengths_of(images),
        ),
        u16_at(ico_file(images), 0) == 0,
        u16_at(ico_file(images), 2) == ICO_TYPE,
        u16_at(ico_file(images), 4) == images.len(),
{
    let n = images.len();
    let file = ico_file(images);
    lemma_directory_len(images, n);
    lemma_payloads_len(images, n);
    assert(lengths_of(images).take(n as int) =~= lengths_of(images));
    assert(file.subrange(0, 2) =~= le_u16(ICO_RESERVED as u16));
    assert(file.subrange(2, 4) =~= le_u16(ICO_TYPE));
    assert(file.subrange(4, 6) =~= le_u16(n as u16));
    lemma_u16_reads_back(file, 0, ICO_RESERVED as u16);
    lemma_u16_reads_back(file, 2, ICO_TYPE);
    lemma_u16_reads_back(file, 4, n as u16);
}

/// In the file, entry `i` follows the header and the entries before it.
proof fn lemma_entry_in_file(images: Seq<ImageRecord>, i: int)
    requires
        0 <= i < images.len(),
    ensures
        ({
            let entry = HEADER_SIZE + ENTRY_SIZE * i;
            &&& entry + ENTRY_SIZE <= ico_file(images).len()
            &&& ico_file(images).subrange(entry, entry + ENTRY_SIZE) == directory_entry(
                images[i],
                payload_offset(lengths_of(images), i) as u32,
            )
        }),
{
    lemma_directory_len(images, images.len());
    lemma_directory_entry_at(images, images.len(), i);
}

/// In the file, payload `i` follows the header, the directory and the
/// payloads before it.
proof fn lemma_payload_in_file(images: Seq<ImageRecord>, i: int)
    requires
        all_wf(images),
        0 <= i < images.len(),
    ensures
        ({
            let start = payload_offset(lengths_of(images), i);
            &&& start + images[i].length <= ico_file(images).len()
            &&& ico_file(images).subrange(start, start + images[i].length) == images[i].data
        }),
{
    let n = images.len();
    lemma_directory_len(images, n);
    lemma_payloads_len(images, n);
    lemma_payload_at(images, n, i);
    lemma_lengths_step(images, (i + 1) as nat);
    lemma_total_ascends(images, i + 1, n as int);
}

/// Where the sixteen bytes at `at` are a directory entry, a reader finds
/// the entry's fields in them.
proof fn lemma_entry_reads_back(bytes: Seq<u8>, at: int, image: ImageRecord, offset: u32)
    requires
        0 <= at,
        at + ENTRY_SIZE <= bytes.len(),
        bytes.subrange(at, at + ENTRY_SIZE) == directory_entry(image, offset),
    ensures
        bytes[at] == image.width,
        bytes[at + 1] == image.height,
        bytes[at + 2] == ICO_COLOUR_PALETTE,
        bytes[at + 3] == ICO_RESERVED,
        u16_at(bytes, at + 4) == ICO_COLOUR_PLANES,
        u16_at(bytes, at + 6) == image.depth,
        u32_at(bytes, at + 8) == image.length,
        u32_at(bytes, at + 12) == offset,
{
    let fields = bytes.subrange(at, at + ENTRY_SIZE);
    assert(bytes[at] == fields[0]);
    assert(bytes[at + 1] == fields[1]);
    assert(bytes[at + 2] == fields[2]);
    assert(bytes[at + 3] == fields[3]);
    assert(bytes.subrange(at + 4, at + 6) =~= fields.subrange(4, 6));
    assert(bytes.subrange(at + 6, at + 8) =~= fields.subrange(6, 8));
    assert(bytes.subrange(at + 8, at + 12) =~= fields.subrange(8, 12));
    assert(bytes.subrange(at + 12, at + 16) =~= fields.subrange(12, 16));
    assert(fields.subrange(4, 6) =~= le_u16(ICO_COLOUR_PLANES));
    assert(fields.subrange(6, 8) =~= le_u16(image.depth));
    assert(fields.subrange(8, 12) =~= le_u32(image.length));
    assert(fields.subrange(12, 16) =~= le_u32(offset));
    lemma_u16_reads_back(bytes, at + 4, ICO_COLOUR_PLANES);
    lemma_u16_reads_back(bytes, at + 6, image.depth);
    lemma_u32_reads_back(bytes, at + 8, image.length);
    lemma_u32_reads_back(bytes, at + 12, offset);
}

/// Image `i` is found where the format says. Its directory entry is the
/// `i`-th, and holds the image's own fields and the fixed ones; the offset
/// in it is the size of header and directory plus the lengths of the
/// payloads before it; and at that offset the file holds the image's
/// payload, whole and unchanged.
pub proof fn lemma_container_entry(images: Seq<ImageRecord>, i: int)
    requires
        all_wf(images),
        layout_fits(lengths_of(images)),
        0 <= i < images.len(),
    ensures
        ({
            let file = ico_file(images);
            let entry = HEADER_SIZE + ENTRY_SIZE * i;
            let start = HEADER_SIZE + ENTRY_SIZE * images.len() + total_length(
                lengths_of(images).take(i),
            );
            &&& entry + ENTRY_SIZE <= file.len()
            &&& start + images[i].length <= file.len()
            &&& file[entry] == images[i].width
            &&& file[entry + 1] == images[i].height
            &&& file[entry + 2] == ICO_COLOUR_PALETTE
            &&& file[entry + 3] == ICO_RESERVED
            &&& u16_at(file, entry + 4) == ICO_COLOUR_PLANES
            &&& u16_at(file, entry + 6) == images[i].depth
            &&& u32_at(file, entry + 8) == images[i].length
            &&& u32_at(file, entry + 12) == start
            &&& file.subrange(start, start + images[i].length) == images[i].data
        }),
{
    let start = payload_offset(lengths_of(images), i);
    lemma_entry_in_file(images, i);
    lemma_payload_in_file(images, i);
    lemma_entry_reads_back(
        ico_file(images),
        HEADER_SIZE + ENTRY_SIZE * i,
        images[i],
        start as u32,
    );
}

/// A container of one image: the payload starts right after the header and
/// the one entry, at offset 22; the entry gives the payload's length; and
/// the bytes from there on are the image, byte for byte, to the end of the
/// file.
pub proof fn lemma_single_image(image: ImageRecord)
    requires
        image.wf(),
    ensures
        layout_fits(lengths_of(seq![image])),
        ({
            let file = ico_file(seq![image]);
            &&& file.len() == 22 + image.data.len()
            &&& u16_at(file, 4) == 1
            &&& u32_at(file, 14) == image.data.len()
            &&& u32_at(file, 18) == 22
            &&& file.subrange(22, 22 + image.length) == image.data
        }),
{
    let images = seq![image];
    let lengths = lengths_of(images);
    assert(total_length(lengths.take(0)) == 0);
    lemma_container_size(images);
    lemma_container_entry(images, 0);
}

/// One PNG, there and back: where a PNG with the given header and bytes can
/// be described, the container that holds it alone stores the PNG's exact
/// length in its one entry, and the PNG itself, byte for byte, from offset
/// 22 to the end of the file.
pub proof fn lemma_single_png_round_trip(header: PngHeader, data: Seq<u8>)
    requires
        metadata_of(header, data) is Ok,
    ensures
        ({
            let file = ico_file(seq![metadata_of(header, data)->Ok_0]);
            &&& file.len() == 22 + data.len()
            &&& u32_at(file, 14) == data.len()
            &&& u32_at(file, 18) == 22
            &&& file.subrange(22, file.len() as int) == data
        }),
{
    lemma_metadata_is_faithful(header, data);
    lemma_single_image(metadata_of(header, data)->Ok_0);
}

/// The size of a PNG survives the container. Where `images[i]` describes a
/// PNG with the given header, a reader who takes a width or height of 0 in
/// entry `i` to mean 256 reads the PNG's own width and height.
pub proof fn lemma_png_size_in_entry(
    header: PngHeader,
    data: Seq<u8>,
    images: Seq<ImageRecord>,
    i: int,
)
    requires
        all_wf(images),
        layout_fits(lengths_of(images)),
        0 <= i < images.len(),
        metadata_of(header, data) == Ok::<ImageRecord, IcoError>(images[i]),
    ensures
        native_dimension(ico_file(images)[HEADER_SIZE + ENTRY_SIZE * i]) == header.width,
        native_dimension(ico_file(images)[HEADER_SIZE + ENTRY_SIZE * i + 1]) == header.height,
{
    lemma_container_entry(images, i);
}

} // verus!
