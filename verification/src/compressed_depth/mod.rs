//! Decoder for ROS `compressedDepth` payloads.
//!
//! ROS `compressed_depth_image_transport` stores a 12-byte configuration header
//! followed by a codec-specific payload; the message's `format` field names the
//! transport, for example `16UC1; compressedDepth png` or `16UC1; compressedDepth rvl`.
//! `16UC1` PNG and RVL payloads are decoded; `32FC1` PNG is recognised but refused.

pub mod format;
pub mod png;
pub mod rvl;
pub mod rvl_encoding;

use vstd::prelude::*;
use crate::common::DepthFrame;
use crate::error::{StageError, is_invalid_message};
use crate::text::{decimal, decimal_string, push_str};
use self::format::{CompressedDepthFormat, format_parsing};
use self::png::{decode_png_depth, has_png_payload, png_depth_decoding, png_payload};
use self::rvl::{decode_rvl_depth, rvl_payload_decoding};

verus! {

/// A decoded depth frame in millimeters.
#[derive(Debug, Clone, PartialEq, Eq)]
pub struct DecodedDepthFrame {
    pub width: u32,
    pub height: u32,
    pub values_mm: Vec<u16>,
}

/// The message refusing dimensions whose pixel count does not fit in `usize`.
pub open spec fn dimensions_overflow_message() -> Seq<char> {
    "compressedDepth dimensions overflow"@
}

/// The message refusing a value buffer whose length is not `width * height`.
pub open spec fn value_count_message(count: nat, expected: nat, width: u32, height: u32) -> Seq<char> {
    "decoded depth frame has "@ + decimal(count) + " values, expected "@ + decimal(expected)
        + " for "@ + decimal(width as nat) + "x"@ + decimal(height as nat)
}

/// Returns the expected number of pixels for the given frame size.
pub fn expected_pixel_count(width: u32, height: u32) -> (r: Result<usize, StageError>)
    ensures
        width as int * height as int <= usize::MAX ==> r == Ok::<usize, StageError>(
            (width as int * height as int) as usize,
        ),
        width as int * height as int > usize::MAX ==> (r matches Err(e) && is_invalid_message(
            e,
            dimensions_overflow_message(),
        )),
{
    match (width as usize).checked_mul(height as usize) {
        Some(n) => Ok(n),
        None => Err(StageError::invalid("compressedDepth dimensions overflow")),
    }
}

impl DecodedDepthFrame {
    /// Builds a frame, checking that there are exactly `width * height` values.
    pub fn new(width: u32, height: u32, values_mm: Vec<u16>) -> (r: Result<Self, StageError>)
        ensures
            width as int * height as int > usize::MAX ==> (r matches Err(e) && is_invalid_message(
                e,
                dimensions_overflow_message(),
            )),
            width as int * height as int <= usize::MAX && values_mm@.len() == width as int
                * height as int ==> r == Ok::<DecodedDepthFrame, StageError>(
                DecodedDepthFrame { width, height, values_mm },
            ),
            width as int * height as int <= usize::MAX && values_mm@.len() != width as int
                * height as int ==> (r matches Err(e) && is_invalid_message(
                e,
                value_count_message(values_mm@.len(), (width * height) as nat, width, height),
            )),
    {
        let expected = expected_pixel_count(width, height)?;
        if values_mm.len() != expected {
            let mut m = "decoded depth frame has ".to_string();
            push_str(&mut m, decimal_string(values_mm.len() as u64).as_str());
            push_str(&mut m, " values, expected ");
            push_str(&mut m, decimal_string(expected as u64).as_str());
            push_str(&mut m, " for ");
            push_str(&mut m, decimal_string(width as u64).as_str());
            push_str(&mut m, "x");
            push_str(&mut m, decimal_string(height as u64).as_str());
            return Err(StageError::invalid_owned(m));
        }
        Ok(DecodedDepthFrame { width, height, values_mm })
    }

    /// Serializes the depth values to raw `gray16le` bytes.
    pub fn gray16le_bytes(&self) -> (b: Vec<u8>)
        ensures
            b@ == gray16le(self.values_mm@),
    {
        values_mm_to_gray16le_bytes(&self.values_mm)
    }

    /// Consumes the frame and serializes it to raw `gray16le` bytes.
    pub fn into_gray16le_bytes(self) -> (b: Vec<u8>)
        ensures
            b@ == gray16le(self.values_mm@),
    {
        values_mm_to_gray16le_bytes(&self.values_mm)
    }
}

/// The little-endian bytes of each value in turn.
pub open spec fn gray16le(values: Seq<u16>) -> Seq<u8>
    decreases values.len(),
{
    if values.len() == 0 {
        Seq::empty()
    } else {
        gray16le(values.drop_last()).push((values.last() % 256) as u8).push(
            (values.last() / 256) as u8,
        )
    }
}

/// Each value's low byte then high byte: the byte view of [`gray16le`].
pub proof fn lemma_gray16le_bytes(values: Seq<u16>)
    ensures
        gray16le(values).len() == 2 * values.len(),
        forall|i: int|
            0 <= i < values.len() ==> gray16le(values)[2 * i] == #[trigger] values[i] % 256
                && gray16le(values)[2 * i + 1] == values[i] / 256,
    decreases values.len(),
{
    if values.len() > 0 {
        lemma_gray16le_bytes(values.drop_last());
        assert forall|i: int| 0 <= i < values.len() implies gray16le(values)[2 * i]
            == #[trigger] values[i] % 256 && gray16le(values)[2 * i + 1] == values[i] / 256 by {
            if i < values.len() - 1 {
                assert(values.drop_last()[i] == values[i]);
            }
        }
    }
}

/// Converts depth values to little-endian `gray16le` bytes.
pub fn values_mm_to_gray16le_bytes(values_mm: &[u16]) -> (b: Vec<u8>)
    ensures
        b@ == gray16le(values_mm@),
{
    let mut raw: Vec<u8> = Vec::new();
    let mut k: usize = 0;
    while k < values_mm.len()
        invariant
            k <= values_mm@.len(),
            raw@ == gray16le(values_mm@.take(k as int)),
        decreases values_mm.len() - k,
    {
        let v = values_mm[k];
        raw.push((v % 256) as u8);
        raw.push((v / 256) as u8);
        k += 1;
        assert(values_mm@.take(k as int).drop_last() =~= values_mm@.take(k - 1));
    }
    assert(values_mm@.take(values_mm@.len() as int) =~= values_mm@);
    raw
}

/// The message refusing a non-PNG payload that comes without a format string.
pub open spec fn missing_format_message() -> Seq<char> {
    "compressedDepth format is missing; cannot decode non-PNG payload"@
}

/// The message refusing a recognised `32FC1` payload.
pub open spec fn float_depth_message() -> Seq<char> {
    "compressedDepth 32FC1 PNG is recognized but not supported yet"@
}

/// The transport a payload is decoded with: the parsed format string, or PNG
/// when there is none and the payload carries a PNG signature.
pub open spec fn resolved_format(ros_format: Option<Seq<char>>, data: Seq<u8>) -> Result<
    CompressedDepthFormat,
    Seq<char>,
> {
    match ros_format {
        Some(f) => format_parsing(f),
        None => if png_payload(data) {
            Ok(CompressedDepthFormat::Depth16Png)
        } else {
            Err(missing_format_message())
        },
    }
}

/// What a `compressedDepth` payload decodes to: `(width, height, depths)`.
pub open spec fn compressed_depth_decoding(data: Seq<u8>, ros_format: Option<Seq<char>>) -> Result<
    (u32, u32, Seq<u16>),
    Seq<char>,
> {
    match resolved_format(ros_format, data) {
        Err(m) => Err(m),
        Ok(CompressedDepthFormat::Depth16Png) => png_depth_decoding(data),
        Ok(CompressedDepthFormat::Depth16Rvl) => rvl_payload_decoding(data),
        Ok(CompressedDepthFormat::Depth32FPng) => Err(float_depth_message()),
    }
}

/// The view of an optional string slice.
pub open spec fn opt_view(s: Option<&str>) -> Option<Seq<char>> {
    match s {
        Some(f) => Some(f@),
        None => None,
    }
}

/// Resolves the declared ROS format, falling back to PNG signature sniffing when
/// no format string is passed.
fn resolve_format_or_sniff_png(ros_format: Option<&str>, data: &[u8]) -> (r: Result<
    CompressedDepthFormat,
    StageError,
>)
    ensures
        match resolved_format(opt_view(ros_format), data@) {
            Ok(f) => r == Ok::<CompressedDepthFormat, StageError>(f),
            Err(m) => r matches Err(e) && is_invalid_message(e, m),
        },
{
    if let Some(ros_format) = ros_format {
        return CompressedDepthFormat::parse(ros_format);
    }
    if has_png_payload(data) {
        return Ok(CompressedDepthFormat::Depth16Png);
    }
    Err(StageError::invalid("compressedDepth format is missing; cannot decode non-PNG payload"))
}

/// Decodes a ROS `compressedDepth` payload into a typed depth frame.
///
/// `ros_format` is the message's `format` field; without it only a PNG payload
/// (recognised by its signature) is decoded.
pub fn decode_compressed_depth_u16(data: &[u8], ros_format: Option<&str>) -> (r: Result<
    DecodedDepthFrame,
    StageError,
>)
    ensures
        match compressed_depth_decoding(data@, opt_view(ros_format)) {
            Ok((w, h, values)) => r matches Ok(f) && f.width == w && f.height == h && f.values_mm@
                == values,
            Err(m) => r matches Err(e) && is_invalid_message(e, m),
        },
{
    match resolve_format_or_sniff_png(ros_format, data)? {
        CompressedDepthFormat::Depth16Png => decode_png_depth(data),
        CompressedDepthFormat::Depth16Rvl => decode_rvl_depth(data),
        CompressedDepthFormat::Depth32FPng => Err(
            StageError::invalid("compressedDepth 32FC1 PNG is recognized but not supported yet"),
        ),
    }
}

/// The view of an optional string.
pub open spec fn opt_string_view(s: Option<String>) -> Option<Seq<char>> {
    match s {
        Some(f) => Some(f@),
        None => None,
    }
}

/// Decodes a [`DepthFrame`] carrying ROS `compressedDepth` bytes.
pub fn decode_depth_frame(frame: &DepthFrame) -> (r: Result<DecodedDepthFrame, StageError>)
    ensures
        match compressed_depth_decoding(frame.bytes@, opt_string_view(frame.ros_format)) {
            Ok((w, h, values)) => r matches Ok(f) && f.width == w && f.height == h && f.values_mm@
                == values,
            Err(m) => r matches Err(e) && is_invalid_message(e, m),
        },
{
    let fmt: Option<&str> = match &frame.ros_format {
        Some(f) => Some(f.as_str()),
        None => None,
    };
    decode_compressed_depth_u16(frame.bytes.as_slice(), fmt)
}

/// Decodes a ROS `compressedDepth` payload into little-endian `gray16le` bytes,
/// with the frame's width and height.
pub fn decode_compressed_depth(data: &[u8], ros_format: Option<&str>) -> (r: Result<
    (Vec<u8>, u32, u32),
    StageError,
>)
    ensures
        match compressed_depth_decoding(data@, opt_view(ros_format)) {
            Ok((w, h, values)) => r matches Ok((bytes, rw, rh)) && rw == w && rh == h && bytes@
                == gray16le(values),
            Err(m) => r matches Err(e) && is_invalid_message(e, m),
        },
{
    let decoded = decode_compressed_depth_u16(data, ros_format)?;
    let width = decoded.width;
    let height = decoded.height;
    let raw_bytes = decoded.into_gray16le_bytes();
    Ok((raw_bytes, width, height))
}

/// A payload that decodes gives exactly `width * height` depth values, and
/// that count fits in `usize`.
pub proof fn lemma_decoded_frame_size(data: Seq<u8>, ros_format: Option<Seq<char>>)
    ensures
        compressed_depth_decoding(data, ros_format) matches Ok((w, h, values)) ==> values.len()
            == w as int * h as int && w as int * h as int <= usize::MAX,
{
    if let Ok(CompressedDepthFormat::Depth16Rvl) = resolved_format(ros_format, data) {
        if data.len() >= 20 {
            let width = self::rvl::le_word(data, 12);
            let height = self::rvl::le_word(data, 16);
            if width != 0 && height != 0 && width as int * height as int <= usize::MAX {
                self::rvl::lemma_expand_length(
                    data.subrange(20, data.len() as int),
                    0,
                    Seq::empty(),
                    0,
                    width * height,
                );
            }
        }
    }
}

} // verus!
