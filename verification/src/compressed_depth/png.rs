//! PNG depth payloads: the 12-byte config header followed by a 16-bit grayscale PNG.

use vstd::prelude::*;
use crate::error::{StageError, is_invalid_message};
use crate::text::{decimal, decimal_string, push_str};
use super::{DecodedDepthFrame, dimensions_overflow_message, value_count_message};

verus! {

/// The eight-byte PNG file signature.
pub open spec fn png_signature() -> Seq<u8> {
    seq![0x89u8, 0x50u8, 0x4Eu8, 0x47u8, 0x0Du8, 0x0Au8, 0x1Au8, 0x0Au8]
}

/// Whether the payload carries a PNG signature at byte offset 12.
pub open spec fn png_payload(data: Seq<u8>) -> bool {
    data.len() >= 20 && data.subrange(12, 20) == png_signature()
}

/// What the `image` crate makes of a PNG stream: `Err` with its error text when
/// decoding fails; `Ok(Ok((width, height, samples)))` for a 16-bit grayscale
/// image, samples in row-major order; `Ok(Err(color))` with the `Debug` text of
/// the color type of any other image.
pub uninterp spec fn png_image_decoding(png: Seq<u8>) -> Result<
    Result<(u32, u32, Seq<u16>), Seq<char>>,
    Seq<char>,
>;

/// Decodes a PNG stream with `image::load_from_memory_with_format(.., ImageFormat::Png)`
/// and hands out the samples of a 16-bit grayscale result, or the color type of
/// any other. The result is named by [`png_image_decoding`]; nothing more is
/// stated of the codec.
#[verifier::external_body]
fn load_png(png: &[u8]) -> (r: Result<Result<(u32, u32, Vec<u16>), String>, String>)
    ensures
        match r {
            Err(e) => png_image_decoding(png@) == Err::<Result<(u32, u32, Seq<u16>), Seq<char>>, Seq<char>>(e@),
            Ok(Err(c)) => png_image_decoding(png@) == Ok::<Result<(u32, u32, Seq<u16>), Seq<char>>, Seq<char>>(Err(c@)),
            Ok(Ok((w, h, v))) => png_image_decoding(png@) == Ok::<Result<(u32, u32, Seq<u16>), Seq<char>>, Seq<char>>(Ok((w, h, v@))),
        },
{
    match image::load_from_memory_with_format(png, image::ImageFormat::Png) {
        Err(e) => Err(e.to_string()),
        Ok(image::DynamicImage::ImageLuma16(buf)) => Ok(Ok((buf.width(), buf.height(), buf.into_raw()))),
        Ok(other) => Ok(Err(format!("{:?}", other.color()))),
    }
}

/// The message for a payload shorter than the header and PNG signature.
pub open spec fn png_too_short_message(len: nat) -> Seq<char> {
    "compressedDepth payload too short: "@ + decimal(len) + " bytes (minimum 20)"@
}

/// The message for a payload without a PNG signature at offset 12.
pub open spec fn png_signature_message() -> Seq<char> {
    "compressedDepth: PNG signature not found at offset 12. Expected PNG header (89 50 4E 47) at byte 12 of the payload."@
}

/// What a frame of `width * height` values becomes: the frame, or the refusal message.
pub open spec fn frame_checking(width: u32, height: u32, values: Seq<u16>) -> Result<(u32, u32, Seq<u16>), Seq<char>> {
    if width as int * height as int > usize::MAX {
        Err(dimensions_overflow_message())
    } else if values.len() != width as int * height as int {
        Err(value_count_message(values.len(), (width * height) as nat, width, height))
    } else {
        Ok((width, height, values))
    }
}

/// What a `compressedDepth png` payload decodes to: `(width, height, depths)`.
pub open spec fn png_depth_decoding(data: Seq<u8>) -> Result<(u32, u32, Seq<u16>), Seq<char>> {
    if data.len() < 20 {
        Err(png_too_short_message(data.len()))
    } else if data.subrange(12, 20) != png_signature() {
        Err(png_signature_message())
    } else {
        match png_image_decoding(data.subrange(12, data.len() as int)) {
            Err(e) => Err("compressedDepth: PNG decode failed: "@ + e),
            Ok(Err(c)) => Err("compressedDepth: expected gray16 PNG, got "@ + c),
            Ok(Ok((w, h, v))) => frame_checking(w, h, v),
        }
    }
}

fn has_signature_at(data: &[u8], at: usize) -> (b: bool)
    requires
        at + 8 <= data@.len(),
    ensures
        b == (data@.subrange(at as int, at + 8) == png_signature()),
{
    let b = data[at] == 0x89u8 && data[at + 1] == 0x50u8 && data[at + 2] == 0x4Eu8 && data[at + 3]
        == 0x47u8 && data[at + 4] == 0x0Du8 && data[at + 5] == 0x0Au8 && data[at + 6] == 0x1Au8
        && data[at + 7] == 0x0Au8;
    proof {
        if b {
            assert(data@.subrange(at as int, at + 8) =~= png_signature());
        } else if data@.subrange(at as int, at + 8) == png_signature() {
            assert(data@.subrange(at as int, at + 8)[0] == data@[at as int]);
            assert(data@.subrange(at as int, at + 8)[1] == data@[at + 1]);
            assert(data@.subrange(at as int, at + 8)[2] == data@[at + 2]);
            assert(data@.subrange(at as int, at + 8)[3] == data@[at + 3]);
            assert(data@.subrange(at as int, at + 8)[4] == data@[at + 4]);
            assert(data@.subrange(at as int, at + 8)[5] == data@[at + 5]);
            assert(data@.subrange(at as int, at + 8)[6] == data@[at + 6]);
            assert(data@.subrange(at as int, at + 8)[7] == data@[at + 7]);
        }
    }
    b
}

/// Returns true when the payload contains a PNG stream at byte offset 12.
pub fn has_png_payload(data: &[u8]) -> (b: bool)
    ensures
        b == png_payload(data@),
{
    if data.len() < 20 {
        return false;
    }
    has_signature_at(data, 12)
}

/// Decodes a `compressedDepth png` payload into millimeter depth values.
pub fn decode_png_depth(data: &[u8]) -> (r: Result<DecodedDepthFrame, StageError>)
    ensures
        match png_depth_decoding(data@) {
            Ok((w, h, values)) => r matches Ok(f) && f.width == w && f.height == h && f.values_mm@
                == values,
            Err(msg) => r matches Err(e) && is_invalid_message(e, msg),
        },
{
    if data.len() < 20 {
        let mut m = "compressedDepth payload too short: ".to_string();
        push_str(&mut m, decimal_string(data.len() as u64).as_str());
        push_str(&mut m, " bytes (minimum 20)");
        return Err(StageError::invalid_owned(m));
    }
    if !has_signature_at(data, 12) {
        return Err(
            StageError::invalid(
                "compressedDepth: PNG signature not found at offset 12. Expected PNG header (89 50 4E 47) at byte 12 of the payload.",
            ),
        );
    }
    let png_data = &data[12..data.len()];
    match load_png(png_data) {
        Err(e) => {
            let mut m = "compressedDepth: PNG decode failed: ".to_string();
            push_str(&mut m, e.as_str());
            Err(StageError::invalid_owned(m))
        },
        Ok(Err(color)) => {
            let mut m = "compressedDepth: expected gray16 PNG, got ".to_string();
            push_str(&mut m, color.as_str());
            Err(StageError::invalid_owned(m))
        },
        Ok(Ok((width, height, values_mm))) => DecodedDepthFrame::new(width, height, values_mm),
    }
}

} // verus!
