//! Video frame type for camera streaming.

pub mod jpeg_header;

use crate::frame::jpeg_header::{has_decodable_header, header_decodable};
use vstd::prelude::*;

verus! {

/// Why a frame could not be converted.
#[derive(Debug, Clone, Copy, PartialEq, Eq, Structural)]
pub enum FrameError {
    /// The data does not cover all pixels.
    DataTooShort,
    /// The frame has no pixels, or a side that is longer than 65535.
    NotEncodable,
    /// The data is not an image that can be read.
    NotDecodable,
}

/// A captured video frame.
#[derive(Debug, Clone)]
pub struct Frame {
    /// Frame width in pixels.
    pub width: u32,
    /// Frame height in pixels.
    pub height: u32,
    /// Raw RGB data (3 bytes per pixel, row-major).
    pub data: Vec<u8>,
    /// Frame timestamp in microseconds since capture start.
    pub timestamp_us: u64,
}

/// Errors of the image crate.
#[verifier::external_type_specification]
#[verifier::external_body]
pub struct ExImageError(image::ImageError);

/// Whether `len` bytes hold `width` times `height` pixels of 3 bytes.
pub open spec fn pixels_fit(width: u32, height: u32, len: int) -> bool {
    3 * width <= usize::MAX && 3 * width * height <= len
}

/// The JPEG file that `image::codecs::jpeg::JpegEncoder` writes for an RGB image.
pub uninterp spec fn jpeg_file(width: u32, height: u32, rgb: Seq<u8>, quality: u8) -> Seq<u8>;

/// The size and the RGB pixels of the image that `image::io::Reader` reads, if it can.
pub uninterp spec fn read_image(data: Seq<u8>) -> Option<(u32, u32, Seq<u8>)>;

/// The size and the RGB pixels of the picture in a file, if it can be decoded.
pub open spec fn picture_in(data: Seq<u8>) -> Option<(u32, u32, Seq<u8>)> {
    if header_decodable(data) {
        read_image(data)
    } else {
        None
    }
}

/// Makes an image with `image::ImageBuffer::from_raw`, which refuses data that does not cover
/// all pixels, and writes it with `image::codecs::jpeg::JpegEncoder::encode_image`, which
/// refuses an image with a side longer than 65535.
#[verifier::external_body]
fn write_jpeg(width: u32, height: u32, rgb: Vec<u8>, quality: u8) -> (r: Option<
    Result<Vec<u8>, image::ImageError>,
>)
    ensures
        r is None <==> !pixels_fit(width, height, rgb@.len() as int),
        r matches Some(Ok(file)) ==> width <= 65535 && height <= 65535 && file@ == jpeg_file(
            width,
            height,
            rgb@,
            quality,
        ),
        r matches Some(Err(_)) ==> width > 65535 || height > 65535,
{
    let img: image::ImageBuffer<image::Rgb<u8>, Vec<u8>> = image::ImageBuffer::from_raw(
        width,
        height,
        rgb,
    )?;
    let mut file = Vec::new();
    let mut encoder = image::codecs::jpeg::JpegEncoder::new_with_quality(&mut file, quality);
    match encoder.encode_image(&img) {
        Ok(()) => Some(Ok(file)),
        Err(e) => Some(Err(e)),
    }
}

/// Reads an image of a guessed format with `image::io::Reader::decode` and converts it with
/// `image::DynamicImage::to_rgb8`. A buffer of the image crate covers all pixels of its image.
///
/// JPEG is the only format that is built in. Its decoder is built without vector code, so that
/// the machine has no part in the pixels. It counts blocks in 16 bits, which is not enough for
/// a side longer than 65528, and gives more bytes than were asked for where a lossless picture does
/// not have 8 bits a sample: pictures with such a side are left out, and so are lossless ones. A
/// machine that has no memory or no thread to spare is not taken into account.
#[verifier::external_body]
fn decode_image(data: &[u8]) -> (r: Result<(u32, u32, Vec<u8>), image::ImageError>)
    requires
        header_decodable(data@),
    ensures
        match r {
            Ok((width, height, rgb)) => read_image(data@) == Some((width, height, rgb@))
                && pixels_fit(width, height, rgb@.len() as int),
            Err(_) => read_image(data@) is None,
        },
{
    let reader = image::io::Reader::new(std::io::Cursor::new(data)).with_guessed_format()?;
    let img = reader.decode()?.to_rgb8();
    Ok((img.width(), img.height(), img.into_raw()))
}

impl Frame {
    /// Create a new frame with the given dimensions and data.
    pub fn new(width: u32, height: u32, data: Vec<u8>) -> (r: Self)
        ensures
            r.width == width,
            r.height == height,
            r.data == data,
            r.timestamp_us == 0,
    {
        Frame { width, height, data, timestamp_us: 0 }
    }

    /// Whether the frame can be compressed: its data covers all pixels, and no side is empty or
    /// longer than 65535.
    pub open spec fn encodable(&self) -> bool {
        &&& pixels_fit(self.width, self.height, self.data@.len() as int)
        &&& 1 <= self.width <= 65535
        &&& 1 <= self.height <= 65535
    }

    /// Whether the frame cannot be compressed for a given reason.
    pub open spec fn refused_with(&self, e: FrameError) -> bool {
        if pixels_fit(self.width, self.height, self.data@.len() as int) {
            !self.encodable() && e == FrameError::NotEncodable
        } else {
            e == FrameError::DataTooShort
        }
    }

    /// Convert frame to JPEG bytes.
    pub fn to_jpeg(&self, quality: u8) -> (r: Result<Vec<u8>, FrameError>)
        ensures
            match r {
                Ok(file) => self.encodable() && file@ == jpeg_file(
                    self.width,
                    self.height,
                    self.data@,
                    quality,
                ),
                Err(e) => self.refused_with(e),
            },
    {
        let rgb = vstd::slice::slice_to_vec(&self.data);
        assert(rgb@ =~= self.data@);
        match write_jpeg(self.width, self.height, rgb, quality) {
            Some(Ok(file)) => if self.width == 0 || self.height == 0 {
                Err(FrameError::NotEncodable)
            } else {
                Ok(file)
            },
            Some(Err(_)) => Err(FrameError::NotEncodable),
            None => Err(FrameError::DataTooShort),
        }
    }

    /// Create a frame from JPEG bytes.
    pub fn from_jpeg(jpeg_data: &[u8]) -> (r: Result<Self, FrameError>)
        ensures
            match r {
                Ok(frame) => {
                    &&& picture_in(jpeg_data@) == Some((frame.width, frame.height, frame.data@))
                    &&& pixels_fit(frame.width, frame.height, frame.data@.len() as int)
                    &&& frame.timestamp_us == 0
                },
                Err(e) => picture_in(jpeg_data@) is None && e == FrameError::NotDecodable,
            },
    {
        if !has_decodable_header(jpeg_data) {
            return Err(FrameError::NotDecodable);
        }
        match decode_image(jpeg_data) {
            Ok((width, height, rgb)) => Ok(Frame::new(width, height, rgb)),
            Err(_) => Err(FrameError::NotDecodable),
        }
    }
}

} // verus!
