//! Decoding of encoded videos back into frames: the errors, the depth output
//! modes and the reading of decoded sample planes.
//!
//! A decoded frame's first plane holds one 16-bit sample per pixel, two bytes
//! per sample, rows `stride` bytes apart. Depth videos store either Q10 codes
//! (lossy codecs) or the depths themselves as gray16 (FFV1).

use vstd::prelude::*;
use crate::compressed_depth::{gray16le, lemma_gray16le_bytes};
use crate::depth_quantizer::{
    Q10ClipParams, dequantized, lemma_roundtrip_error, p010le, q10, quantization_step, y_sample,
};
use crate::depth_video_encoder::{
    depth_config_validation, depth_frame_input, depth_pix_fmt, is_depth_metadata,
};
use crate::depth_video_encoder::DepthVideoConfig;
use crate::error::{StageError, is_invalid_message};
use crate::text::{
    ascii_lowercase, ascii_lowercase_chars, chars_eq_str, decimal, decimal_string, push_str,
    str_chars,
};
use crate::video_artifact::VideoArtifact;

verus! {

/// Errors of the video decoder. Failures of FFmpeg and of I/O carry the text
/// of the underlying error.
#[derive(Debug)]
pub enum VideoDecoderError {
    Ffmpeg(String),
    Io(String),
    StreamNotFound,
    DecoderNotFound,
    ScalerCreationError,
    FrameNotFound(usize),
    MissingPts,
    DepthConversion(String),
}

/// The message of a decoder error (what `Display` prints for it).
pub open spec fn decoder_error_message(e: VideoDecoderError) -> Seq<char> {
    match e {
        VideoDecoderError::Ffmpeg(m) => "ffmpeg error: "@ + m@,
        VideoDecoderError::Io(m) => "io error: "@ + m@,
        VideoDecoderError::StreamNotFound => "video stream not found"@,
        VideoDecoderError::DecoderNotFound => "decoder not found"@,
        VideoDecoderError::ScalerCreationError => "failed to create scaler"@,
        VideoDecoderError::FrameNotFound(i) => "frame not found at index "@ + decimal(i as nat),
        VideoDecoderError::MissingPts => "decoded frame is missing PTS (presentation timestamp)"@,
        VideoDecoderError::DepthConversion(m) => "depth frame conversion failed: "@ + m@,
    }
}

impl VideoDecoderError {
    /// Renders the error's message.
    pub fn to_string(&self) -> (s: String)
        ensures
            s@ == decoder_error_message(*self),
    {
        match self {
            VideoDecoderError::Ffmpeg(m) => {
                let mut s = "ffmpeg error: ".to_string();
                push_str(&mut s, m.as_str());
                s
            },
            VideoDecoderError::Io(m) => {
                let mut s = "io error: ".to_string();
                push_str(&mut s, m.as_str());
                s
            },
            VideoDecoderError::StreamNotFound => "video stream not found".to_string(),
            VideoDecoderError::DecoderNotFound => "decoder not found".to_string(),
            VideoDecoderError::ScalerCreationError => "failed to create scaler".to_string(),
            VideoDecoderError::FrameNotFound(i) => {
                let mut s = "frame not found at index ".to_string();
                push_str(&mut s, decimal_string(*i as u64).as_str());
                s
            },
            VideoDecoderError::MissingPts => {
                "decoded frame is missing PTS (presentation timestamp)".to_string()
            },
            VideoDecoderError::DepthConversion(m) => {
                let mut s = "depth frame conversion failed: ".to_string();
                push_str(&mut s, m.as_str());
                s
            },
        }
    }
}

/// Extracts a required presentation timestamp.
pub fn require_pts(pts: Option<i64>) -> (r: Result<i64, VideoDecoderError>)
    ensures
        match pts {
            Some(p) => r matches Ok(v) && v == p,
            None => r matches Err(VideoDecoderError::MissingPts),
        },
{
    match pts {
        Some(p) => Ok(p),
        None => Err(VideoDecoderError::MissingPts),
    }
}

/// How decoded depth frames become depths in millimetres.
#[derive(Clone, Debug)]
pub enum DepthOutputMode {
    /// Read Q10 codes from the luma plane and dequantize them.
    Q10(Q10ClipParams),
    /// Read the depths themselves from a gray16 plane.
    RawGray16,
}

/// The refusal of Q10 decoding without a maximum depth.
pub open spec fn zero_depth_max_message() -> Seq<char> {
    "depth_max_mm must be greater than 0 for Q10 depth video decoding"@
}

/// The Q10 output mode for videos quantized with maximum depth `depth_max_mm`.
pub fn q10_output_mode(depth_max_mm: u16) -> (r: Result<DepthOutputMode, VideoDecoderError>)
    ensures
        depth_max_mm == 0 ==> (r matches Err(VideoDecoderError::DepthConversion(m)) && m@
            == zero_depth_max_message()),
        depth_max_mm > 0 ==> (r matches Ok(DepthOutputMode::Q10(p)) && p.depth_max_mm
            == depth_max_mm),
{
    if depth_max_mm == 0 {
        return Err(
            VideoDecoderError::DepthConversion(
                "depth_max_mm must be greater than 0 for Q10 depth video decoding".to_string(),
            ),
        );
    }
    Ok(DepthOutputMode::Q10(Q10ClipParams::new(depth_max_mm)))
}

// ============================================================================
// Sample planes
// ============================================================================

/// The position of pixel `(row, col)` in a row-major sequence of `width` columns.
pub open spec fn pixel_index(row: int, col: int, width: int) -> int {
    row * width + col
}

/// The byte offset of pixel `(row, col)`'s sample in a plane of `stride`-byte rows.
pub open spec fn sample_offset(row: int, col: int, stride: int) -> int {
    row * stride + col * 2
}

/// The 16-bit sample at byte offset `off`, little- or big-endian.
pub open spec fn sample_at(data: Seq<u8>, off: int, big_endian: bool) -> u16 {
    if big_endian {
        (data[off] * 256 + data[off + 1]) as u16
    } else {
        (data[off] + data[off + 1] * 256) as u16
    }
}

/// Whether the sample of pixel `(row, col)` lies (partly) beyond `len` bytes.
pub open spec fn sample_missing(len: int, row: int, col: int, stride: int) -> bool {
    sample_offset(row, col, stride) + 1 >= len
}

/// Whether a plane of `len` bytes holds the samples of every pixel.
pub open spec fn plane_complete(len: int, width: int, height: int, stride: int) -> bool {
    forall|row: int, col: int|
        0 <= row < height && 0 <= col < width ==> !#[trigger] sample_missing(len, row, col, stride)
}

/// Whether `(row, col)` is the first pixel, in row-major order, whose sample is missing.
pub open spec fn first_missing(
    len: int,
    width: int,
    height: int,
    stride: int,
    row: int,
    col: int,
) -> bool {
    &&& 0 <= row < height
    &&& 0 <= col < width
    &&& sample_missing(len, row, col, stride)
    &&& forall|r: int, c: int|
        0 <= c < width && (0 <= r < row || (r == row && 0 <= c < col)) ==> !#[trigger] sample_missing(
            len,
            r,
            c,
            stride,
        )
}

/// The limits within which a plane's offsets and pixel count fit in `usize`.
pub open spec fn plane_limits(width: usize, height: usize, stride: usize) -> bool {
    &&& height as int * stride as int + width as int * 2 + 2 <= usize::MAX
    &&& width as int * height as int <= usize::MAX
}

proof fn lemma_offset_bound(row: int, col: int, width: int, height: int, stride: int)
    requires
        0 <= row < height,
        0 <= col < width,
        0 <= stride,
    ensures
        row * stride + col * 2 <= height * stride + width * 2,
{
    assert(row * stride <= height * stride) by (nonlinear_arith)
        requires
            0 <= row < height,
            0 <= stride,
    ;
}

/// Reads the samples of a `width` x `height` plane in row-major order, or
/// reports the byte count that the first missing sample needs.
pub fn read_plane_samples(
    width: usize,
    height: usize,
    data: &[u8],
    stride: usize,
    big_endian: bool,
) -> (r: Result<Vec<u16>, usize>)
    requires
        plane_limits(width, height, stride),
    ensures
        plane_complete(data@.len() as int, width as int, height as int, stride as int) ==> (r matches Ok(
            v,
        ) && v@.len() == width * height && forall|row: int, col: int|
            0 <= row < height && 0 <= col < width ==> pixel_index(row, col, width as int) < v@.len()
                && v@[#[trigger] pixel_index(row, col, width as int)] == sample_at(
                data@,
                sample_offset(row, col, stride as int),
                big_endian,
            )),
        !plane_complete(data@.len() as int, width as int, height as int, stride as int) ==> (r matches Err(
            need,
        ) && exists|row: int, col: int|
            first_missing(data@.len() as int, width as int, height as int, stride as int, row, col)
                && need == sample_offset(row, col, stride as int) + 1),
{
    let ghost len = data@.len() as int;
    let ghost w = width as int;
    let ghost s = stride as int;
    let mut out: Vec<u16> = Vec::new();
    let mut row: usize = 0;
    while row < height
        invariant
            row <= height,
            plane_limits(width, height, stride),
            len == data@.len(),
            w == width,
            s == stride,
            out@.len() == row * width,
            forall|r: int, c: int|
                0 <= r < row && 0 <= c < width ==> pixel_index(r, c, w) < out@.len() && out@[
                    #[trigger] pixel_index(r, c, w)] == sample_at(
                    data@,
                    sample_offset(r, c, s),
                    big_endian,
                ) && !sample_missing(len, r, c, s),
        decreases height - row,
    {
        let mut col: usize = 0;
        while col < width
            invariant
                row < height,
                col <= width,
                plane_limits(width, height, stride),
                len == data@.len(),
                w == width,
                s == stride,
                out@.len() == row * width + col,
                forall|r: int, c: int|
                    0 <= c < width && (0 <= r < row || (r == row && 0 <= c < col)) ==> pixel_index(
                        r,
                        c,
                        w,
                    ) < out@.len() && out@[#[trigger] pixel_index(r, c, w)] == sample_at(
                        data@,
                        sample_offset(r, c, s),
                        big_endian,
                    ) && !sample_missing(len, r, c, s),
            decreases width - col,
        {
            proof {
                lemma_offset_bound(row as int, col as int, width as int, height as int, s);
            }
            let offset = row * stride + col * 2;
            if offset + 1 >= data.len() {
                proof {
                    assert forall|r: int, c: int|
                        0 <= c < width && (0 <= r < row || (r == row && 0 <= c < col)) implies !#[trigger] sample_missing(
                            len,
                            r,
                            c,
                            s,
                        ) by {
                        assert(pixel_index(r, c, w) < out@.len());
                    }
                    assert(first_missing(len, w, height as int, s, row as int, col as int));
                    assert(!plane_complete(len, w, height as int, s)) by {
                        assert(sample_missing(len, row as int, col as int, s));
                    }
                }
                return Err(offset + 1);
            }
            let sample: u16 = if big_endian {
                (data[offset] as u16) * 256 + data[offset + 1] as u16
            } else {
                data[offset] as u16 + (data[offset + 1] as u16) * 256
            };
            let ghost before = out@;
            out.push(sample);
            proof {
                assert(pixel_index(row as int, col as int, w) == before.len());
                assert forall|r: int, c: int|
                    0 <= c < width && (0 <= r < row || (r == row && 0 <= c < col + 1)) implies pixel_index(
                        r,
                        c,
                        w,
                    ) < out@.len() && out@[#[trigger] pixel_index(r, c, w)] == sample_at(
                        data@,
                        sample_offset(r, c, s),
                        big_endian,
                    ) && !sample_missing(len, r, c, s) by {
                    if r == row && c == col {
                    } else {
                        assert(pixel_index(r, c, w) < before.len());
                    }
                }
            }
            col += 1;
        }
        proof {
            assert(out@.len() == (row + 1) * width) by (nonlinear_arith)
                requires
                    out@.len() == row * width + width,
            ;
        }
        row += 1;
    }
    proof {
        assert forall|r: int, c: int|
            0 <= r < height && 0 <= c < width implies !#[trigger] sample_missing(len, r, c, s) by {
            assert(pixel_index(r, c, w) < out@.len());
        }
        assert(out@.len() == width * height) by (nonlinear_arith)
            requires
                out@.len() == height * width,
        ;
    }
    Ok(out)
}

/// The refusal of a plane too short for its frame; `what` names the plane.
pub open spec fn plane_short_message(what: Seq<char>, need: int, len: int) -> Seq<char> {
    what + " data too short: need offset "@ + decimal(need as nat) + " but length is "@ + decimal(
        len as nat,
    )
}

fn plane_short_text(what: &str, need: usize, len: usize) -> (s: String)
    ensures
        s@ == plane_short_message(what@, need as int, len as int),
{
    let mut m = what.to_string();
    push_str(&mut m, " data too short: need offset ");
    push_str(&mut m, decimal_string(need as u64).as_str());
    push_str(&mut m, " but length is ");
    push_str(&mut m, decimal_string(len as u64).as_str());
    m
}

/// The Q10 code in a luma sample: the upper ten bits of a P010 sample, the
/// lower ten bits of a planar 10-bit sample.
pub open spec fn q10_code(sample: u16, is_p010: bool) -> u16 {
    if is_p010 {
        sample >> 6u16
    } else {
        sample & 0x3FFu16
    }
}

/// Reads the depths of a decoded Q10 depth frame from its luma plane: each
/// sample's Q10 code, dequantized with `params`.
pub fn extract_q10_depths(
    width: usize,
    height: usize,
    data: &[u8],
    stride: usize,
    is_p010: bool,
    params: &Q10ClipParams,
) -> (r: Result<Vec<u16>, VideoDecoderError>)
    requires
        plane_limits(width, height, stride),
    ensures
        plane_complete(data@.len() as int, width as int, height as int, stride as int) ==> (r matches Ok(
            v,
        ) && v@.len() == width * height && forall|row: int, col: int|
            0 <= row < height && 0 <= col < width ==> pixel_index(row, col, width as int) < v@.len()
                && v@[#[trigger] pixel_index(row, col, width as int)] == dequantized(
                params.depth_max_mm,
                q10_code(sample_at(data@, sample_offset(row, col, stride as int), false), is_p010),
            )),
        !plane_complete(data@.len() as int, width as int, height as int, stride as int) ==> (r matches Err(
            VideoDecoderError::DepthConversion(m),
        ) && exists|row: int, col: int|
            first_missing(data@.len() as int, width as int, height as int, stride as int, row, col)
                && m@ == plane_short_message(
                "Y-plane"@,
                sample_offset(row, col, stride as int) + 1,
                data@.len() as int,
            )),
{
    let samples = match read_plane_samples(width, height, data, stride, false) {
        Ok(v) => v,
        Err(need) => {
            return Err(
                VideoDecoderError::DepthConversion(plane_short_text("Y-plane", need, data.len())),
            );
        },
    };
    let mut out: Vec<u16> = Vec::new();
    let mut k: usize = 0;
    while k < samples.len()
        invariant
            k <= samples@.len(),
            out@.len() == k,
            forall|j: int|
                0 <= j < k ==> #[trigger] out@[j] == dequantized(
                    params.depth_max_mm,
                    q10_code(samples@[j], is_p010),
                ),
        decreases samples.len() - k,
    {
        let sample = samples[k];
        let code = if is_p010 {
            sample >> 6u16
        } else {
            sample & 0x3FFu16
        };
        out.push(params.dequantize(code));
        k += 1;
    }
    proof {
        assert forall|row: int, col: int|
            0 <= row < height && 0 <= col < width implies pixel_index(row, col, width as int)
            < out@.len() && out@[#[trigger] pixel_index(row, col, width as int)] == dequantized(
            params.depth_max_mm,
            q10_code(sample_at(data@, sample_offset(row, col, stride as int), false), is_p010),
        ) by {
            let j = pixel_index(row, col, width as int);
            assert(samples@[j] == sample_at(data@, sample_offset(row, col, stride as int), false));
            assert(out@[j] == dequantized(params.depth_max_mm, q10_code(samples@[j], is_p010)));
        }
    }
    Ok(out)
}

/// Reads the depths of a decoded lossless depth frame from its gray16 plane.
pub fn extract_gray16_depths(
    width: usize,
    height: usize,
    data: &[u8],
    stride: usize,
    big_endian: bool,
) -> (r: Result<Vec<u16>, VideoDecoderError>)
    requires
        plane_limits(width, height, stride),
    ensures
        plane_complete(data@.len() as int, width as int, height as int, stride as int) ==> (r matches Ok(
            v,
        ) && v@.len() == width * height && forall|row: int, col: int|
            0 <= row < height && 0 <= col < width ==> pixel_index(row, col, width as int) < v@.len()
                && v@[#[trigger] pixel_index(row, col, width as int)] == sample_at(
                data@,
                sample_offset(row, col, stride as int),
                big_endian,
            )),
        !plane_complete(data@.len() as int, width as int, height as int, stride as int) ==> (r matches Err(
            VideoDecoderError::DepthConversion(m),
        ) && exists|row: int, col: int|
            first_missing(data@.len() as int, width as int, height as int, stride as int, row, col)
                && m@ == plane_short_message(
                "gray16"@,
                sample_offset(row, col, stride as int) + 1,
                data@.len() as int,
            )),
{
    match read_plane_samples(width, height, data, stride, big_endian) {
        Ok(v) => Ok(v),
        Err(need) => Err(
            VideoDecoderError::DepthConversion(plane_short_text("gray16", need, data.len())),
        ),
    }
}

// ============================================================================
// Decoder selection
// ============================================================================

/// How a depth video is decoded.
#[derive(Debug, Clone, Copy, PartialEq, Eq, Structural)]
pub enum DepthDecodeKind {
    /// Dequantize Q10 codes.
    Q10,
    /// Read raw 16-bit depths.
    RawGray16,
}

/// The decode kind of a depth video: raw gray16 for FFV1 or a gray16 pixel
/// format (compared ignoring ASCII case), Q10 otherwise, which needs a
/// positive maximum depth.
pub open spec fn depth_decode_plan(pix_fmt: Seq<char>, c: DepthVideoConfig) -> Result<
    DepthDecodeKind,
    Seq<char>,
> {
    if c.codec_config is Ffv1 || ascii_lowercase(pix_fmt) == "gray16le"@ || ascii_lowercase(pix_fmt)
        == "gray16be"@ {
        Ok(DepthDecodeKind::RawGray16)
    } else if c.depth_max_mm == 0 {
        Err(zero_depth_max_message())
    } else {
        Ok(DepthDecodeKind::Q10)
    }
}

/// Decides how a depth artifact encoded with `config` is decoded.
pub fn depth_decode_kind(artifact: &VideoArtifact, config: &DepthVideoConfig) -> (r: Result<
    DepthDecodeKind,
    StageError,
>)
    ensures
        match depth_decode_plan(artifact.metadata.pix_fmt@, *config) {
            Ok(k) => r == Ok::<DepthDecodeKind, StageError>(k),
            Err(m) => r matches Err(e) && is_invalid_message(e, m),
        },
{
    let pix = ascii_lowercase_chars(&str_chars(artifact.metadata.pix_fmt.as_str()));
    if config.codec_config.is_lossless() || chars_eq_str(&pix, "gray16le") || chars_eq_str(
        &pix,
        "gray16be",
    ) {
        return Ok(DepthDecodeKind::RawGray16);
    }
    if config.depth_max_mm == 0 {
        return Err(
            StageError::invalid("depth_max_mm must be greater than 0 for Q10 depth video decoding"),
        );
    }
    Ok(DepthDecodeKind::Q10)
}

/// The channel count of a decoded artifact's frames, by media type.
pub open spec fn artifact_channel_count(media_type: Seq<char>) -> Result<usize, Seq<char>> {
    if media_type == "rgb"@ {
        Ok(3)
    } else if media_type == "depth"@ {
        Ok(1)
    } else {
        Err("unsupported media_type for video decoding: "@ + media_type)
    }
}

/// The number of channels of an artifact's decoded frames.
pub fn artifact_channels(artifact: &VideoArtifact) -> (r: Result<usize, StageError>)
    ensures
        match artifact_channel_count(artifact.metadata.media_type@) {
            Ok(c) => r == Ok::<usize, StageError>(c),
            Err(m) => r matches Err(e) && is_invalid_message(e, m),
        },
{
    let media = str_chars(artifact.metadata.media_type.as_str());
    if chars_eq_str(&media, "rgb") {
        Ok(3)
    } else if chars_eq_str(&media, "depth") {
        Ok(1)
    } else {
        let mut m = "unsupported media_type for video decoding: ".to_string();
        push_str(&mut m, artifact.metadata.media_type.as_str());
        Err(StageError::invalid_owned(m))
    }
}

/// Configuration of the video decoder stage; it decodes every video of the registry.
#[derive(Debug, Clone)]
pub struct VideoDecoderConfig {}

impl Default for VideoDecoderConfig {
    fn default() -> (c: Self)
        ensures
            c == (VideoDecoderConfig {}),
    {
        VideoDecoderConfig {  }
    }
}

impl VideoDecoderConfig {
    /// Creates the configuration.
    pub fn new() -> (c: Self)
        ensures
            c == (VideoDecoderConfig {}),
    {
        VideoDecoderConfig {  }
    }
}

/// The stage that decodes every video of the registry into frames.
pub struct VideoDecoder {}

// ============================================================================
// What decoding gives back of what encoding wrote
// ============================================================================

proof fn lemma_pixel_in_range(row: int, col: int, width: int, height: int)
    requires
        0 <= row < height,
        0 <= col < width,
    ensures
        0 <= pixel_index(row, col, width) < width * height,
        sample_offset(row, col, 2 * width) == 2 * pixel_index(row, col, width),
{
    assert(0 <= row * width) by (nonlinear_arith)
        requires
            0 <= row,
            0 <= width,
    ;
    assert(row * width + col < width * height) by (nonlinear_arith)
        requires
            0 <= row < height,
            0 <= col < width,
    ;
    assert(row * (2 * width) == 2 * (row * width)) by (nonlinear_arith);
}

/// A gray16le plane of `width` x `height` values, with rows `2 * width` bytes
/// apart, holds every sample, and each sample reads back as its value.
pub proof fn lemma_gray16_plane_roundtrip(values: Seq<u16>, width: int, height: int)
    requires
        0 <= width,
        0 <= height,
        values.len() == width * height,
    ensures
        plane_complete(gray16le(values).len() as int, width, height, 2 * width),
        forall|row: int, col: int|
            0 <= row < height && 0 <= col < width ==> #[trigger] sample_at(
                gray16le(values),
                sample_offset(row, col, 2 * width),
                false,
            ) == values[pixel_index(row, col, width)],
{
    lemma_gray16le_bytes(values);
    let data = gray16le(values);
    assert forall|row: int, col: int|
        0 <= row < height && 0 <= col < width implies !#[trigger] sample_missing(
        data.len() as int,
        row,
        col,
        2 * width,
    ) by {
        lemma_pixel_in_range(row, col, width, height);
    }
    assert forall|row: int, col: int| 0 <= row < height && 0 <= col < width implies #[trigger] sample_at(
        data,
        sample_offset(row, col, 2 * width),
        false,
    ) == values[pixel_index(row, col, width)] by {
        lemma_pixel_in_range(row, col, width, height);
        let k = pixel_index(row, col, width);
        let v = values[k];
        assert(data[2 * k] == v % 256 && data[2 * k + 1] == v / 256);
        assert((v % 256 + (v / 256) * 256) as u16 == v) by (nonlinear_arith);
    }
}

/// A P010LE frame of `width` x `height` 10-bit codes, read as a luma plane with
/// rows `2 * width` bytes apart, holds every sample, and each sample's Q10
/// code is the code that was written.
pub proof fn lemma_p010_plane_roundtrip(codes: Seq<u16>, width: u32, height: u32)
    requires
        codes.len() == width * height,
        forall|i: int| 0 <= i < codes.len() ==> codes[i] <= 1023,
    ensures
        plane_complete(p010le(codes, width, height).len() as int, width as int, height as int, 2 * width),
        forall|row: int, col: int|
            0 <= row < height && 0 <= col < width ==> #[trigger] q10_code(
                sample_at(p010le(codes, width, height), sample_offset(row, col, 2 * width), false),
                true,
            ) == codes[pixel_index(row, col, width as int)],
{
    let ys = codes.map_values(|v: u16| y_sample(v));
    let luma = gray16le(ys);
    let data = p010le(codes, width, height);
    lemma_gray16le_bytes(ys);
    lemma_gray16_plane_roundtrip(ys, width as int, height as int);
    assert forall|row: int, col: int|
        0 <= row < height && 0 <= col < width implies !#[trigger] sample_missing(
        data.len() as int,
        row,
        col,
        2 * width,
    ) by {
        assert(!sample_missing(luma.len() as int, row, col, 2 * width));
    }
    assert forall|row: int, col: int| 0 <= row < height && 0 <= col < width implies #[trigger] q10_code(
        sample_at(data, sample_offset(row, col, 2 * width), false),
        true,
    ) == codes[pixel_index(row, col, width as int)] by {
        lemma_pixel_in_range(row, col, width as int, height as int);
        let off = sample_offset(row, col, 2 * width);
        assert(!sample_missing(luma.len() as int, row, col, 2 * width));
        assert(data[off] == luma[off] && data[off + 1] == luma[off + 1]);
        assert(sample_at(data, off, false) == sample_at(luma, off, false));
        let c = codes[pixel_index(row, col, width as int)];
        assert(sample_at(luma, off, false) == y_sample(c));
        assert(c <= 1023 ==> ((c << 6u16) >> 6u16) == c) by (bit_vector);
    }
}

/// What decoding gives back of a depth frame that was encoded: the frame's
/// bytes, read as a plane with rows `2 * width` bytes apart, hold every
/// sample. A lossless (FFV1) frame gives back every depth exactly. A lossy
/// frame gives back the dequantized Q10 code of every depth: 0 for an invalid
/// or clipped depth, and within one quantization step of any depth in
/// `[1, depth_max_mm]`.
pub proof fn lemma_depth_frame_roundtrip(
    c: DepthVideoConfig,
    width: u32,
    height: u32,
    depths: Seq<u16>,
)
    requires
        depths.len() == width * height,
        !(c.codec_config is Ffv1) ==> c.depth_max_mm > 0,
    ensures
        plane_complete(
            depth_frame_input(c, width, height, depths).len() as int,
            width as int,
            height as int,
            2 * width,
        ),
        forall|row: int, col: int|
            0 <= row < height && 0 <= col < width ==> {
                let d = depths[pixel_index(row, col, width as int)];
                let sample = #[trigger] sample_at(
                    depth_frame_input(c, width, height, depths),
                    sample_offset(row, col, 2 * width),
                    false,
                );
                let restored = dequantized(c.depth_max_mm, q10_code(sample, true));
                &&& c.codec_config is Ffv1 ==> sample == d
                &&& !(c.codec_config is Ffv1) ==> restored == dequantized(
                    c.depth_max_mm,
                    q10(c.depth_max_mm, d),
                )
                &&& !(c.codec_config is Ffv1) && (d == 0 || d > c.depth_max_mm) ==> restored == 0
                &&& !(c.codec_config is Ffv1) && 1 <= d <= c.depth_max_mm ==> -quantization_step(
                    c.depth_max_mm,
                ) <= restored - d <= quantization_step(c.depth_max_mm)
            },
{
    let data = depth_frame_input(c, width, height, depths);
    if c.codec_config is Ffv1 {
        lemma_gray16_plane_roundtrip(depths, width as int, height as int);
    } else {
        let m = c.depth_max_mm;
        let codes = depths.map_values(|v: u16| q10(m, v));
        assert forall|i: int| 0 <= i < codes.len() implies codes[i] <= 1023 by {
            assert(codes[i] == q10(m, depths[i]));
        }
        lemma_p010_plane_roundtrip(codes, width, height);
        assert forall|row: int, col: int| 0 <= row < height && 0 <= col < width implies {
            let d = depths[pixel_index(row, col, width as int)];
            let sample = #[trigger] sample_at(data, sample_offset(row, col, 2 * width), false);
            let restored = dequantized(m, q10_code(sample, true));
            &&& restored == dequantized(m, q10(m, d))
            &&& (d == 0 || d > m) ==> restored == 0
            &&& 1 <= d <= m ==> -quantization_step(m) <= restored - d <= quantization_step(m)
        } by {
            lemma_pixel_in_range(row, col, width as int, height as int);
            let k = pixel_index(row, col, width as int);
            let d = depths[k];
            assert(codes[k] == q10(m, d));
            assert(q10_code(sample_at(data, sample_offset(row, col, 2 * width), false), true)
                == codes[k]);
            if 1 <= d <= m {
                lemma_roundtrip_error(m, d);
            }
        }
    }
}

/// The decoder reads a depth video the way it was encoded: the metadata of a
/// valid configuration's video selects raw gray16 decoding for FFV1 and Q10
/// decoding for every lossy codec.
pub proof fn lemma_decode_kind_matches_encoding(
    m: crate::video_artifact::VideoMetadata,
    c: DepthVideoConfig,
    width: u32,
    height: u32,
    json: Seq<char>,
)
    requires
        is_depth_metadata(m, c, width, height, json),
        depth_config_validation(c) is Ok,
    ensures
        depth_decode_plan(m.pix_fmt@, c) == Ok::<DepthDecodeKind, Seq<char>>(
            if c.codec_config is Ffv1 {
                DepthDecodeKind::RawGray16
            } else {
                DepthDecodeKind::Q10
            },
        ),
{
    if !(c.codec_config is Ffv1) {
        reveal_strlit("p010le");
        reveal_strlit("gray16le");
        reveal_strlit("gray16be");
        let l = ascii_lowercase("p010le"@);
        assert(l[0] == 'p');
        assert("gray16le"@[0] == 'g');
        assert("gray16be"@[0] == 'g');
    }
}

/// A planar 10-bit luma sample holds its Q10 code in its low ten bits: the
/// code read from any sample is below 1024, and every code up to 1023 stored
/// as a sample reads back as itself.
pub proof fn lemma_planar_code_roundtrip(sample: u16, code: u16)
    ensures
        q10_code(sample, false) <= 1023,
        q10_code(sample, false) == sample % 1024,
        code <= 1023 ==> q10_code(code, false) == code,
{
    assert((sample & 0x3FFu16) <= 1023 && (sample & 0x3FFu16) == sample % 1024) by (bit_vector);
    assert(code <= 1023 ==> (code & 0x3FFu16) == code) by (bit_vector);
}

/// A planar 10-bit frame of `width` x `height` Q10 codes, one little-endian
/// sample per pixel with rows `2 * width` bytes apart, holds every sample, and
/// each sample's Q10 code is the code that was written, so the restored depth
/// of each pixel is the dequantized code.
pub proof fn lemma_planar_plane_roundtrip(codes: Seq<u16>, width: int, height: int, depth_max: u16)
    requires
        0 <= width,
        0 <= height,
        codes.len() == width * height,
        forall|i: int| 0 <= i < codes.len() ==> codes[i] <= 1023,
    ensures
        plane_complete(gray16le(codes).len() as int, width, height, 2 * width),
        forall|row: int, col: int|
            0 <= row < height && 0 <= col < width ==> #[trigger] dequantized(
                depth_max,
                q10_code(sample_at(gray16le(codes), sample_offset(row, col, 2 * width), false), false),
            ) == dequantized(depth_max, codes[pixel_index(row, col, width)]),
{
    lemma_gray16_plane_roundtrip(codes, width, height);
    assert forall|row: int, col: int| 0 <= row < height && 0 <= col < width implies #[trigger] dequantized(
        depth_max,
        q10_code(sample_at(gray16le(codes), sample_offset(row, col, 2 * width), false), false),
    ) == dequantized(depth_max, codes[pixel_index(row, col, width)]) by {
        lemma_pixel_in_range(row, col, width, height);
        let c = codes[pixel_index(row, col, width)];
        assert(sample_at(gray16le(codes), sample_offset(row, col, 2 * width), false) == c);
        lemma_planar_code_roundtrip(c, c);
    }
}

} // verus!
