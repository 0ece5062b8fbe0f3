//! What the directory needs to know of one PNG.
//!
//! The PNG itself is embedded byte for byte. Of its content only four
//! numbers of the header matter: width, height, bit depth and the number of
//! samples per pixel. Reading them is the decoder's work; turning them into
//! the fields of a directory entry is done here.

use vstd::prelude::*;
use crate::dimension::{dimension_fits, get_ico_dimension, ico_dimension, native_dimension};
use crate::error::IcoError;

verus! {

/// The header fields of a PNG that the directory depends on, as the decoder
/// reports them.
#[derive(Clone, Copy, Debug)]
pub struct PngHeader {
    /// Bits per sample.
    pub bit_depth: u8,
    /// Samples per pixel.
    pub samples: usize,
    /// Width in pixels.
    pub width: u32,
    /// Height in pixels.
    pub height: u32,
}

/// One image as the container sees it: the fields of its directory entry
/// and the bytes of its payload.
pub struct ImageRecord {
    /// Bits per pixel.
    pub depth: u16,
    /// Length of the payload in bytes.
    pub length: u32,
    /// Width as the directory encodes it, 0 standing for 256.
    pub width: u8,
    /// Height as the directory encodes it, 0 standing for 256.
    pub height: u8,
    /// The PNG, unchanged.
    pub data: Seq<u8>,
}

impl ImageRecord {
    /// The size field says how long the payload is.
    pub open spec fn wf(self) -> bool {
        self.data.len() == self.length
    }
}

/// The directory fields of a PNG together with the PNG's own bytes.
///
/// A value of this type always describes its payload truthfully: its length
/// field is the payload's length.
#[derive(Debug)]
pub struct PngMetadata {
    depth: u16,
    length: u32,
    width: u8,
    height: u8,
    data: Vec<u8>,
}

impl View for PngMetadata {
    type V = ImageRecord;

    closed spec fn view(&self) -> ImageRecord {
        ImageRecord {
            depth: self.depth,
            length: self.length,
            width: self.width,
            height: self.height,
            data: self.data@,
        }
    }
}

impl PngMetadata {
    #[verifier::type_invariant]
    spec fn length_is_true(self) -> bool {
        self.data@.len() == self.length
    }

    /// Bits per pixel.
    pub fn depth(&self) -> (depth: u16)
        ensures
            depth == self@.depth,
    {
        self.depth
    }

    /// Length of the payload in bytes.
    pub fn length(&self) -> (length: u32)
        ensures
            length == self@.length,
            self@.wf(),
    {
        proof {
            use_type_invariant(self);
        }
        self.length
    }

    /// Width as the directory encodes it.
    pub fn width(&self) -> (width: u8)
        ensures
            width == self@.width,
    {
        self.width
    }

    /// Height as the directory encodes it.
    pub fn height(&self) -> (height: u8)
        ensures
            height == self@.height,
    {
        self.height
    }

    /// The payload.
    pub fn data(&self) -> (data: &[u8])
        ensures
            data@ == self@.data,
            self@.wf(),
    {
        proof {
            use_type_invariant(self);
        }
        self.data.as_slice()
    }
}

/// The views of a run of records, in order.
pub open spec fn records(images: Seq<PngMetadata>) -> Seq<ImageRecord> {
    images.map_values(|image: PngMetadata| image@)
}

/// Every record of the run says truly how long its payload is.
pub open spec fn all_wf(images: Seq<ImageRecord>) -> bool {
    forall|j: int| 0 <= j < images.len() ==> (#[trigger] images[j]).wf()
}

/// The record that describes a PNG with the given header and bytes, or the
/// reason there is none. The checks come in a fixed order: depth, length,
/// width, height.
pub open spec fn metadata_of(header: PngHeader, data: Seq<u8>) -> Result<ImageRecord, IcoError> {
    if header.bit_depth * header.samples > u16::MAX {
        Err(IcoError::DepthOverflow { bit_depth: header.bit_depth, samples: header.samples })
    } else if data.len() > u32::MAX {
        Err(IcoError::LengthOverflow(data.len() as usize))
    } else if !dimension_fits(header.width) {
        Err(IcoError::Dimension(header.width))
    } else if !dimension_fits(header.height) {
        Err(IcoError::Dimension(header.height))
    } else {
        Ok(
            ImageRecord {
                depth: (header.bit_depth * header.samples) as u16,
                length: data.len() as u32,
                width: ico_dimension(header.width) as u8,
                height: ico_dimension(header.height) as u8,
                data,
            },
        )
    }
}

/// A result with the record, if there is one, replaced by its view.
pub open spec fn result_view(r: Result<PngMetadata, IcoError>) -> Result<ImageRecord, IcoError> {
    match r {
        Ok(image) => Ok(image@),
        Err(e) => Err(e),
    }
}

/// Bits per pixel: bit depth times samples per pixel, which must fit the
/// 16-bit depth field of a directory entry.
pub fn ico_bit_depth(bit_depth: u8, samples: usize) -> (r: Result<u16, IcoError>)
    ensures
        bit_depth * samples <= u16::MAX ==> r == Ok::<u16, IcoError>(
            (bit_depth * samples) as u16,
        ),
        bit_depth * samples > u16::MAX ==> r == Err::<u16, IcoError>(
            IcoError::DepthOverflow { bit_depth, samples },
        ),
{
    match (bit_depth as usize).checked_mul(samples) {
        Some(product) => match u16::try_from(product) {
            Ok(depth) => Ok(depth),
            Err(_) => Err(IcoError::DepthOverflow { bit_depth, samples }),
        },
        None => Err(IcoError::DepthOverflow { bit_depth, samples }),
    }
}

/// The length of a payload of `size` bytes, which must fit the 32-bit size
/// field of a directory entry.
pub fn payload_length(size: usize) -> (r: Result<u32, IcoError>)
    ensures
        size <= u32::MAX ==> r == Ok::<u32, IcoError>(size as u32),
        size > u32::MAX ==> r == Err::<u32, IcoError>(IcoError::LengthOverflow(size)),
{
    match u32::try_from(size) {
        Ok(length) => Ok(length),
        Err(_) => Err(IcoError::LengthOverflow(size)),
    }
}

/// Describes a PNG whose header has been read: `header` is what the decoder
/// found in `data`, and `data` is the whole PNG, which becomes the payload.
pub fn record_from_header(header: &PngHeader, data: Vec<u8>) -> (r: Result<PngMetadata, IcoError>)
    ensures
        result_view(r) == metadata_of(*header, data@),
{
    let depth: u16 = match ico_bit_depth(header.bit_depth, header.samples) {
        Ok(depth) => depth,
        Err(e) => {
            return Err(e);
        },
    };
    let length: u32 = match payload_length(data.len()) {
        Ok(length) => length,
        Err(e) => {
            return Err(e);
        },
    };
    let width: u32 = match get_ico_dimension(header.width) {
        Ok(width) => width,
        Err(e) => {
            return Err(e);
        },
    };
    let height: u32 = match get_ico_dimension(header.height) {
        Ok(height) => height,
        Err(e) => {
            return Err(e);
        },
    };
    Ok(PngMetadata { depth, length, width: width as u8, height: height as u8, data })
}

/// What the decoder finds in the header of the PNG `data`, or `None` where
/// it rejects the bytes. This is the decoder's answer, whatever it is; no
/// claim is made here about which bytes it accepts.
pub uninterp spec fn decoded_header(data: Seq<u8>) -> Option<PngHeader>;

/// `png::Decoder::read_info` on the bytes of a PNG held in memory, followed
/// by a look at the `png::Info` it yields: its `width`, `height` and
/// `bit_depth`, and `png::ColorType::samples` of its `color_type`.
/// Trusted: what comes back depends on the bytes alone, so it has a name,
/// `decoded_header`. Nothing is claimed about when the decoder succeeds.
#[verifier::external_body]
fn read_png_header(data: &[u8]) -> (r: Result<PngHeader, png::DecodingError>)
    ensures
        r matches Ok(header) ==> decoded_header(data@) == Some(header),
        r is Err ==> decoded_header(data@) is None,
{
    let reader = png::Decoder::new(data).read_info()?;
    let info = reader.info();
    Ok(
        PngHeader {
            bit_depth: info.bit_depth as u8,
            samples: info.color_type.samples(),
            width: info.width,
            height: info.height,
        },
    )
}

/// Describes the PNG whose bytes are `data`. The decoder reads the header;
/// where it cannot, its error is handed on. The pixels are not decoded.
pub fn get_png_metadata(data: Vec<u8>) -> (r: Result<PngMetadata, IcoError>)
    ensures
        match decoded_header(data@) {
            Some(header) => result_view(r) == metadata_of(header, data@),
            None => r matches Err(IcoError::Decode(_)),
        },
{
    match read_png_header(data.as_slice()) {
        Ok(header) => record_from_header(&header, data),
        Err(e) => Err(IcoError::Decode(e)),
    }
}

/// A PNG can be described exactly when its depth fits 16 bits, its length
/// 32 bits, and its width and height lie in `1..=256`. The record then
/// holds the PNG unchanged with its true length, and a reader who takes a
/// width or height field of 0 to mean 256 reads the PNG's own size from it.
pub proof fn lemma_metadata_is_faithful(header: PngHeader, data: Seq<u8>)
    ensures
        metadata_of(header, data) is Ok <==> {
            &&& header.bit_depth * header.samples <= u16::MAX
            &&& data.len() <= u32::MAX
            &&& dimension_fits(header.width)
            &&& dimension_fits(header.height)
        },
        metadata_of(header, data) matches Ok(image) ==> {
            &&& image.wf()
            &&& image.data == data
            &&& image.length == data.len()
            &&& image.depth == header.bit_depth * header.samples
            &&& image.width == (if header.width == 256 { 0u32 } else { header.width })
            &&& image.height == (if header.height == 256 { 0u32 } else { header.height })
            &&& native_dimension(image.width) == header.width
            &&& native_dimension(image.height) == header.height
        },
{
}

} // verus!
