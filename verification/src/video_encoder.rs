//! RGB video encoding configuration: codecs, presets, tunings, scaling and the
//! rules that decide whether a configuration can be encoded.

use vstd::prelude::*;
use crate::common::ImageShape;
use crate::error::{StageError, is_invalid_message};
use crate::nvenc::{
    ensure_nvenc_device_visible, nvenc_device_message, path_exists,
    DEFAULT_NVENC_AV1_PRESET, DEFAULT_NVENC_AV1_QP, DEFAULT_NVENC_B_FRAMES,
    DEFAULT_NVENC_H264_B_FRAMES, DEFAULT_NVENC_H264_PRESET, DEFAULT_NVENC_H264_QP,
    DEFAULT_NVENC_H264_RC_LOOKAHEAD, DEFAULT_NVENC_H264_TUNE, NvencPreset, NvencTune,
    b_frames_check, rc_lookahead_check, validate_nvenc_b_frames, validate_nvenc_rc_lookahead,
};
use crate::text::{
    decimal, decimal_string, push_str, str_chars, string_from_chars, strip_leading,
    strip_leading_chars,
};
use crate::video_artifact::{VideoArtifact, VideoMetadata, metadata_shape, zero_dimension_message};

verus! {

pub const DEFAULT_FPS: u32 = 100;
pub const DEFAULT_GOP: u32 = 20;
pub const DEFAULT_CRF: &'static str = "34";
/// Default VA-API device path.
pub const DEFAULT_VAAPI_DEVICE: &'static str = "/dev/dri/renderD128";

/// Whether the default VA-API render node exists on this machine.
pub fn is_vaapi_available() -> bool {
    crate::nvenc::path_exists(DEFAULT_VAAPI_DEVICE)
}

// ============================================================================
// Image format detection
// ============================================================================

/// Input mode for a piped hardware encoder, decided on the first frame.
#[derive(Clone, Debug, PartialEq)]
pub enum InputMode {
    /// Not yet determined.
    Unknown,
    /// JPEG/PNG bytes are piped to FFmpeg as they are (image2pipe).
    DirectPipe { format: ImageFormat },
    /// Frames are decoded and piped as raw RGB24.
    RgbPipe,
}

/// Image formats that can be piped to FFmpeg without decoding.
#[derive(Clone, Copy, Debug, PartialEq, Eq, Structural)]
pub enum ImageFormat {
    Jpeg,
    Png,
}

/// The format that an image's magic bytes announce: JPEG for `FF D8 FF`, PNG
/// for the eight-byte PNG signature; nothing for data shorter than four bytes.
pub open spec fn detected_format(data: Seq<u8>) -> Option<ImageFormat> {
    if data.len() < 4 {
        None
    } else if data[0] == 0xFF && data[1] == 0xD8 && data[2] == 0xFF {
        Some(ImageFormat::Jpeg)
    } else if data.len() >= 8 && data.subrange(0, 8) == crate::compressed_depth::png::png_signature() {
        Some(ImageFormat::Png)
    } else {
        None
    }
}

/// The Unicode lowercase of a string, as `str::to_lowercase` gives it.
pub uninterp spec fn unicode_lowercase(s: Seq<char>) -> Seq<char>;

/// Lowercases a string with `str::to_lowercase`; the result is named by [`unicode_lowercase`].
#[verifier::external_body]
fn lowercase(s: &str) -> (r: String)
    ensures
        r@ == unicode_lowercase(s@),
{
    s.to_lowercase()
}

/// The format a file extension names, compared case-insensitively.
pub open spec fn extension_format(ext: Seq<char>) -> Option<ImageFormat> {
    let l = unicode_lowercase(ext);
    if l == "jpg"@ || l == "jpeg"@ {
        Some(ImageFormat::Jpeg)
    } else if l == "png"@ {
        Some(ImageFormat::Png)
    } else {
        None
    }
}

impl ImageFormat {
    /// Detects the image format from its magic bytes.
    pub fn detect(data: &[u8]) -> (r: Option<Self>)
        ensures
            r == detected_format(data@),
    {
        if data.len() < 4 {
            return None;
        }
        if data[0] == 0xFFu8 && data[1] == 0xD8u8 && data[2] == 0xFFu8 {
            return Some(ImageFormat::Jpeg);
        }
        if data.len() >= 8 {
            let b = data[0] == 0x89u8 && data[1] == 0x50u8 && data[2] == 0x4Eu8 && data[3]
                == 0x47u8 && data[4] == 0x0Du8 && data[5] == 0x0Au8 && data[6] == 0x1Au8 && data[7]
                == 0x0Au8;
            proof {
                let sig = crate::compressed_depth::png::png_signature();
                if b {
                    assert(data@.subrange(0, 8) =~= sig);
                } else if data@.subrange(0, 8) == sig {
                    assert forall|i: int| 0 <= i < 8 implies data@[i] == sig[i] by {
                        assert(data@.subrange(0, 8)[i] == data@[i]);
                    }
                }
            }
            if b {
                return Some(ImageFormat::Png);
            }
        }
        None
    }

    /// Detects the image format from a file extension.
    pub fn from_extension(ext: &str) -> (r: Option<Self>)
        ensures
            r == extension_format(ext@),
    {
        let l = crate::text::str_chars(lowercase(ext).as_str());
        if crate::text::chars_eq_str(&l, "jpg") || crate::text::chars_eq_str(&l, "jpeg") {
            Some(ImageFormat::Jpeg)
        } else if crate::text::chars_eq_str(&l, "png") {
            Some(ImageFormat::Png)
        } else {
            None
        }
    }

    /// Returns the FFmpeg decoder name for image2pipe input.
    pub fn ffmpeg_decoder(&self) -> (s: &'static str)
        ensures
            s@ == match *self {
                ImageFormat::Jpeg => "mjpeg"@,
                ImageFormat::Png => "png"@,
            },
    {
        match self {
            ImageFormat::Jpeg => "mjpeg",
            ImageFormat::Png => "png",
        }
    }
}

// ============================================================================
// Presets and tunings
// ============================================================================

/// Encoder preset for x264/x265 codecs.
#[derive(Clone, Debug, PartialEq, Eq, Hash)]
pub enum X264Preset {
    Ultrafast,
    Superfast,
    Veryfast,
    Faster,
    Fast,
    Medium,
    Slow,
    Slower,
    Veryslow,
}

impl Default for X264Preset {
    fn default() -> (p: Self)
        ensures
            p == X264Preset::Medium,
    {
        X264Preset::Medium
    }
}

/// The FFmpeg spelling of an x264/x265 preset.
pub open spec fn x264_preset_name(p: X264Preset) -> Seq<char> {
    match p {
        X264Preset::Ultrafast => "ultrafast"@,
        X264Preset::Superfast => "superfast"@,
        X264Preset::Veryfast => "veryfast"@,
        X264Preset::Faster => "faster"@,
        X264Preset::Fast => "fast"@,
        X264Preset::Medium => "medium"@,
        X264Preset::Slow => "slow"@,
        X264Preset::Slower => "slower"@,
        X264Preset::Veryslow => "veryslow"@,
    }
}

impl X264Preset {
    /// Returns the FFmpeg preset string.
    pub fn as_str(&self) -> (s: &'static str)
        ensures
            s@ == x264_preset_name(*self),
    {
        match self {
            X264Preset::Ultrafast => "ultrafast",
            X264Preset::Superfast => "superfast",
            X264Preset::Veryfast => "veryfast",
            X264Preset::Faster => "faster",
            X264Preset::Fast => "fast",
            X264Preset::Medium => "medium",
            X264Preset::Slow => "slow",
            X264Preset::Slower => "slower",
            X264Preset::Veryslow => "veryslow",
        }
    }
}

/// Tuning options for x264; at most one psychovisual tuning may be used.
#[derive(Clone, Copy, Debug, PartialEq, Eq, Hash)]
pub enum X264Tune {
    Film,
    Animation,
    Grain,
    StillImage,
    Psnr,
    Ssim,
    FastDecode,
    ZeroLatency,
}

/// The FFmpeg spelling of an x264 tune.
pub open spec fn x264_tune_name(t: X264Tune) -> Seq<char> {
    match t {
        X264Tune::Film => "film"@,
        X264Tune::Animation => "animation"@,
        X264Tune::Grain => "grain"@,
        X264Tune::StillImage => "stillimage"@,
        X264Tune::Psnr => "psnr"@,
        X264Tune::Ssim => "ssim"@,
        X264Tune::FastDecode => "fastdecode"@,
        X264Tune::ZeroLatency => "zerolatency"@,
    }
}

/// Whether an x264 tune is psychovisual.
pub open spec fn x264_tune_psy(t: X264Tune) -> bool {
    !(t is FastDecode || t is ZeroLatency)
}

impl X264Tune {
    /// Returns the FFmpeg tune string.
    pub fn as_str(&self) -> (s: &'static str)
        ensures
            s@ == x264_tune_name(*self),
    {
        match self {
            X264Tune::Film => "film",
            X264Tune::Animation => "animation",
            X264Tune::Grain => "grain",
            X264Tune::StillImage => "stillimage",
            X264Tune::Psnr => "psnr",
            X264Tune::Ssim => "ssim",
            X264Tune::FastDecode => "fastdecode",
            X264Tune::ZeroLatency => "zerolatency",
        }
    }

    /// Returns true if this is a psychovisual tuning.
    pub fn is_psy(&self) -> (b: bool)
        ensures
            b == x264_tune_psy(*self),
    {
        match self {
            X264Tune::Film | X264Tune::Animation | X264Tune::Grain | X264Tune::StillImage
            | X264Tune::Psnr | X264Tune::Ssim => true,
            _ => false,
        }
    }
}

/// Tuning options for x265; at most one psychovisual tuning may be used.
#[derive(Clone, Copy, Debug, PartialEq, Eq, Hash)]
pub enum X265Tune {
    Psnr,
    Ssim,
    Grain,
    FastDecode,
    ZeroLatency,
    Animation,
}

/// The FFmpeg spelling of an x265 tune.
pub open spec fn x265_tune_name(t: X265Tune) -> Seq<char> {
    match t {
        X265Tune::Psnr => "psnr"@,
        X265Tune::Ssim => "ssim"@,
        X265Tune::Grain => "grain"@,
        X265Tune::FastDecode => "fastdecode"@,
        X265Tune::ZeroLatency => "zerolatency"@,
        X265Tune::Animation => "animation"@,
    }
}

/// Whether an x265 tune is psychovisual.
pub open spec fn x265_tune_psy(t: X265Tune) -> bool {
    !(t is FastDecode || t is ZeroLatency)
}

impl X265Tune {
    /// Returns the FFmpeg tune string.
    pub fn as_str(&self) -> (s: &'static str)
        ensures
            s@ == x265_tune_name(*self),
    {
        match self {
            X265Tune::Psnr => "psnr",
            X265Tune::Ssim => "ssim",
            X265Tune::Grain => "grain",
            X265Tune::FastDecode => "fastdecode",
            X265Tune::ZeroLatency => "zerolatency",
            X265Tune::Animation => "animation",
        }
    }

    /// Returns true if this is a psychovisual tuning.
    pub fn is_psy(&self) -> (b: bool)
        ensures
            b == x265_tune_psy(*self),
    {
        match self {
            X265Tune::Psnr | X265Tune::Ssim | X265Tune::Grain | X265Tune::Animation => true,
            _ => false,
        }
    }
}

/// Names joined with `", "`.
pub open spec fn joined(names: Seq<Seq<char>>) -> Seq<char>
    decreases names.len(),
{
    if names.len() == 0 {
        Seq::empty()
    } else if names.len() == 1 {
        names[0]
    } else {
        joined(names.drop_last()) + ", "@ + names.last()
    }
}

/// The names of the psychovisual x264 tunes, in order.
pub open spec fn x264_psy_names(tunes: Seq<X264Tune>) -> Seq<Seq<char>>
    decreases tunes.len(),
{
    if tunes.len() == 0 {
        Seq::empty()
    } else if x264_tune_psy(tunes.last()) {
        x264_psy_names(tunes.drop_last()).push(x264_tune_name(tunes.last()))
    } else {
        x264_psy_names(tunes.drop_last())
    }
}

/// The names of the psychovisual x265 tunes, in order.
pub open spec fn x265_psy_names(tunes: Seq<X265Tune>) -> Seq<Seq<char>>
    decreases tunes.len(),
{
    if tunes.len() == 0 {
        Seq::empty()
    } else if x265_tune_psy(tunes.last()) {
        x265_psy_names(tunes.drop_last()).push(x265_tune_name(tunes.last()))
    } else {
        x265_psy_names(tunes.drop_last())
    }
}

/// The check of an x264 tune list: at most one psychovisual tune.
pub open spec fn x264_tune_check(tunes: Seq<X264Tune>) -> Result<(), Seq<char>> {
    let names = x264_psy_names(tunes);
    if names.len() > 1 {
        Err(
            "x264 allows only one PSY tuning, but "@ + decimal(names.len()) + " were specified: ["@
                + joined(names)
                + "]. PSY tunings are: film, animation, grain, stillimage, psnr, ssim. Non-PSY tunings (fastdecode, zerolatency) can be combined with one PSY tuning."@,
        )
    } else {
        Ok(())
    }
}

/// The check of an x265 tune list: at most one psychovisual tune.
pub open spec fn x265_tune_check(tunes: Seq<X265Tune>) -> Result<(), Seq<char>> {
    let names = x265_psy_names(tunes);
    if names.len() > 1 {
        Err(
            "x265 allows only one PSY tuning, but "@ + decimal(names.len()) + " were specified: ["@
                + joined(names)
                + "]. PSY tunings are: psnr, ssim, grain, animation. Non-PSY tunings (fastdecode, zerolatency) can be combined with one PSY tuning."@,
        )
    } else {
        Ok(())
    }
}

/// Appends `, name` (or `name` first) to a joined list.
fn push_joined(list: &mut String, count: usize, name: &str)
    ensures
        count == 0 ==> final(list)@ == old(list)@ + name@,
        count > 0 ==> final(list)@ == old(list)@ + ", "@ + name@,
{
    if count > 0 {
        push_str(list, ", ");
    }
    push_str(list, name);
}

/// Validates x264 tune combinations.
fn validate_x264_tune(tunes: &Vec<X264Tune>) -> (r: Result<(), StageError>)
    ensures
        match x264_tune_check(tunes@) {
            Ok(()) => r is Ok,
            Err(m) => r matches Err(e) && is_invalid_message(e, m),
        },
{
    let mut count: usize = 0;
    let mut list = String::new();
    let mut i: usize = 0;
    while i < tunes.len()
        invariant
            i <= tunes@.len(),
            count == x264_psy_names(tunes@.take(i as int)).len(),
            count <= i,
            list@ == joined(x264_psy_names(tunes@.take(i as int))),
        decreases tunes.len() - i,
    {
        let t = tunes[i];
        assert(tunes@.take(i + 1).drop_last() =~= tunes@.take(i as int));
        if t.is_psy() {
            let ghost names = x264_psy_names(tunes@.take(i as int));
            push_joined(&mut list, count, t.as_str());
            proof {
                let pushed = names.push(x264_tune_name(t));
                assert(pushed.drop_last() =~= names);
                if count == 0 {
                    assert(list@ =~= x264_tune_name(t));
                    assert(pushed[0] == x264_tune_name(t));
                }
            }
            count += 1;
        }
        i += 1;
    }
    assert(tunes@.take(tunes@.len() as int) =~= tunes@);
    if count > 1 {
        let mut m = "x264 allows only one PSY tuning, but ".to_string();
        push_str(&mut m, decimal_string(count as u64).as_str());
        push_str(&mut m, " were specified: [");
        push_str(&mut m, list.as_str());
        push_str(
            &mut m,
            "]. PSY tunings are: film, animation, grain, stillimage, psnr, ssim. Non-PSY tunings (fastdecode, zerolatency) can be combined with one PSY tuning.",
        );
        return Err(StageError::invalid_owned(m));
    }
    Ok(())
}

/// Validates x265 tune combinations.
fn validate_x265_tune(tunes: &Vec<X265Tune>) -> (r: Result<(), StageError>)
    ensures
        match x265_tune_check(tunes@) {
            Ok(()) => r is Ok,
            Err(m) => r matches Err(e) && is_invalid_message(e, m),
        },
{
    let mut count: usize = 0;
    let mut list = String::new();
    let mut i: usize = 0;
    while i < tunes.len()
        invariant
            i <= tunes@.len(),
            count == x265_psy_names(tunes@.take(i as int)).len(),
            count <= i,
            list@ == joined(x265_psy_names(tunes@.take(i as int))),
        decreases tunes.len() - i,
    {
        let t = tunes[i];
        assert(tunes@.take(i + 1).drop_last() =~= tunes@.take(i as int));
        if t.is_psy() {
            let ghost names = x265_psy_names(tunes@.take(i as int));
            push_joined(&mut list, count, t.as_str());
            proof {
                let pushed = names.push(x265_tune_name(t));
                assert(pushed.drop_last() =~= names);
                if count == 0 {
                    assert(list@ =~= x265_tune_name(t));
                    assert(pushed[0] == x265_tune_name(t));
                }
            }
            count += 1;
        }
        i += 1;
    }
    assert(tunes@.take(tunes@.len() as int) =~= tunes@);
    if count > 1 {
        let mut m = "x265 allows only one PSY tuning, but ".to_string();
        push_str(&mut m, decimal_string(count as u64).as_str());
        push_str(&mut m, " were specified: [");
        push_str(&mut m, list.as_str());
        push_str(
            &mut m,
            "]. PSY tunings are: psnr, ssim, grain, animation. Non-PSY tunings (fastdecode, zerolatency) can be combined with one PSY tuning.",
        );
        return Err(StageError::invalid_owned(m));
    }
    Ok(())
}

// ============================================================================
// Codec configuration
// ============================================================================

/// Codec-specific configuration.
#[derive(Clone, Debug, PartialEq)]
pub enum CodecConfig {
    /// AV1 via SVT-AV1.
    AV1 {
        lp: Option<u32>,
        pin: Option<u32>,
        preset: u32,
        film_grain: Option<u32>,
        film_grain_denoise: Option<bool>,
        lookahead: Option<i32>,
        fast_decode: Option<u32>,
    },
    /// H.264 via libx264.
    H264 { threads: Option<u32>, preset: X264Preset, tune: Vec<X264Tune> },
    /// H.265 via libx265.
    H265 {
        threads: Option<u32>,
        preset: X264Preset,
        tune: Vec<X265Tune>,
        frame_threads: Option<u32>,
    },
    /// H.264 via VA-API.
    H264Vaapi {
        qp: u32,
        device: Option<String>,
        profile: Option<String>,
        b_depth: Option<u32>,
        async_depth: Option<u32>,
    },
    /// H.265 via VA-API.
    H265Vaapi { qp: u32, device: Option<String>, profile: Option<String>, async_depth: Option<u32> },
    /// AV1 via VA-API.
    Av1Vaapi {
        qp: u32,
        device: Option<String>,
        profile: Option<String>,
        b_depth: Option<u32>,
        async_depth: Option<u32>,
    },
    /// H.264 via NVIDIA NVENC.
    H264Nvenc {
        qp: u32,
        gpu: Option<u32>,
        preset: NvencPreset,
        tune: Option<NvencTune>,
        profile: Option<String>,
        b_frames: u32,
        rc_lookahead: Option<u32>,
    },
    /// H.265 via NVIDIA NVENC.
    H265Nvenc {
        qp: u32,
        gpu: Option<u32>,
        preset: NvencPreset,
        tune: Option<NvencTune>,
        profile: Option<String>,
        b_frames: u32,
        rc_lookahead: Option<u32>,
    },
    /// AV1 via NVIDIA NVENC.
    Av1Nvenc {
        qp: u32,
        gpu: Option<u32>,
        preset: NvencPreset,
        tune: Option<NvencTune>,
        profile: Option<String>,
        b_frames: u32,
        rc_lookahead: Option<u32>,
    },
}

/// Default SVT-AV1 preset.
pub fn default_av1_preset() -> (v: u32)
    ensures
        v == 10,
{
    10
}

/// Default H.264 VA-API quantizer.
pub fn default_vaapi_qp() -> (v: u32)
    ensures
        v == 21,
{
    21
}

/// Default H.264 VA-API profile.
pub fn default_h264_vaapi_profile() -> (v: Option<String>)
    ensures
        v matches Some(p) && p@ == "high"@,
{
    Some("high".to_string())
}

/// Default H.264 VA-API async depth.
pub fn default_h264_vaapi_async_depth() -> (v: Option<u32>)
    ensures
        v == Some(16u32),
{
    Some(16)
}

/// Default H.265 VA-API quantizer.
pub fn default_vaapi_hevc_qp() -> (v: u32)
    ensures
        v == 29,
{
    29
}

/// Default AV1 VA-API quantizer.
pub fn default_vaapi_av1_qp() -> (v: u32)
    ensures
        v == 110,
{
    110
}

/// Default H.264 NVENC quantizer.
pub fn default_nvenc_h264_qp() -> (v: u32)
    ensures
        v == DEFAULT_NVENC_H264_QP,
{
    DEFAULT_NVENC_H264_QP
}

/// Default H.264 NVENC preset.
pub fn default_nvenc_h264_preset() -> (v: NvencPreset)
    ensures
        v == DEFAULT_NVENC_H264_PRESET,
{
    DEFAULT_NVENC_H264_PRESET
}

/// Default H.264 NVENC tune.
pub fn default_nvenc_h264_tune() -> (v: Option<NvencTune>)
    ensures
        v == Some(DEFAULT_NVENC_H264_TUNE),
{
    Some(DEFAULT_NVENC_H264_TUNE)
}

/// Default H.264 NVENC profile.
pub fn default_nvenc_h264_profile() -> (v: Option<String>)
    ensures
        v matches Some(p) && p@ == "high"@,
{
    Some("high".to_string())
}

/// Default H.264 NVENC B-frame count.
pub fn default_nvenc_h264_b_frames() -> (v: u32)
    ensures
        v == DEFAULT_NVENC_H264_B_FRAMES,
{
    DEFAULT_NVENC_H264_B_FRAMES
}

/// Default H.264 NVENC rate-control look-ahead.
pub fn default_nvenc_h264_rc_lookahead() -> (v: Option<u32>)
    ensures
        v == Some(DEFAULT_NVENC_H264_RC_LOOKAHEAD),
{
    Some(DEFAULT_NVENC_H264_RC_LOOKAHEAD)
}

/// Default H.265 NVENC quantizer.
pub fn default_nvenc_hevc_qp() -> (v: u32)
    ensures
        v == 25,
{
    25
}

/// Default AV1 NVENC quantizer.
pub fn default_nvenc_av1_qp() -> (v: u32)
    ensures
        v == DEFAULT_NVENC_AV1_QP,
{
    DEFAULT_NVENC_AV1_QP
}

/// Default AV1 NVENC preset.
pub fn default_nvenc_av1_preset() -> (v: NvencPreset)
    ensures
        v == DEFAULT_NVENC_AV1_PRESET,
{
    DEFAULT_NVENC_AV1_PRESET
}

/// Default NVENC B-frame count for H.265 and AV1.
pub fn default_nvenc_b_frames() -> (v: u32)
    ensures
        v == DEFAULT_NVENC_B_FRAMES,
{
    DEFAULT_NVENC_B_FRAMES
}

/// The default codec: software AV1 with preset 10 and every option automatic.
pub open spec fn default_codec() -> CodecConfig {
    CodecConfig::AV1 {
        lp: None,
        pin: None,
        preset: 10,
        film_grain: None,
        film_grain_denoise: None,
        lookahead: None,
        fast_decode: None,
    }
}

impl Default for CodecConfig {
    fn default() -> (c: Self)
        ensures
            c == default_codec(),
    {
        CodecConfig::AV1 {
            lp: None,
            pin: None,
            preset: 10,
            film_grain: None,
            film_grain_denoise: None,
            lookahead: None,
            fast_decode: None,
        }
    }
}

/// The FFmpeg encoder library of a codec.
pub open spec fn encoder_name(c: CodecConfig) -> Seq<char> {
    match c {
        CodecConfig::AV1 { .. } => "libsvtav1"@,
        CodecConfig::H264 { .. } => "libx264"@,
        CodecConfig::H265 { .. } => "libx265"@,
        CodecConfig::H264Vaapi { .. } => "h264_vaapi"@,
        CodecConfig::H265Vaapi { .. } => "hevc_vaapi"@,
        CodecConfig::Av1Vaapi { .. } => "av1_vaapi"@,
        CodecConfig::H264Nvenc { .. } => "h264_nvenc"@,
        CodecConfig::H265Nvenc { .. } => "hevc_nvenc"@,
        CodecConfig::Av1Nvenc { .. } => "av1_nvenc"@,
    }
}

/// Whether a codec encodes through VA-API.
pub open spec fn uses_vaapi(c: CodecConfig) -> bool {
    c is H264Vaapi || c is H265Vaapi || c is Av1Vaapi
}

/// Whether a codec encodes through NVENC.
pub open spec fn uses_nvenc(c: CodecConfig) -> bool {
    c is H264Nvenc || c is H265Nvenc || c is Av1Nvenc
}

/// The codec family recorded in video metadata.
pub open spec fn family_name(c: CodecConfig) -> Seq<char> {
    match c {
        CodecConfig::AV1 { .. } | CodecConfig::Av1Vaapi { .. } | CodecConfig::Av1Nvenc {
            ..
        } => "av1"@,
        CodecConfig::H264 { .. } | CodecConfig::H264Vaapi { .. } | CodecConfig::H264Nvenc {
            ..
        } => "h264"@,
        CodecConfig::H265 { .. } | CodecConfig::H265Vaapi { .. } | CodecConfig::H265Nvenc {
            ..
        } => "h265"@,
    }
}

/// The VA-API device of a VA-API codec: its own, or the default render node.
pub open spec fn vaapi_device(c: CodecConfig) -> Option<Seq<char>> {
    match c {
        CodecConfig::H264Vaapi { device, .. } | CodecConfig::H265Vaapi { device, .. }
        | CodecConfig::Av1Vaapi { device, .. } => match device {
            Some(d) => Some(d@),
            None => Some(DEFAULT_VAAPI_DEVICE@),
        },
        _ => None,
    }
}

/// The B-frame count of an NVENC codec.
pub open spec fn nvenc_b_frame_count(c: CodecConfig) -> Option<u32> {
    match c {
        CodecConfig::H264Nvenc { b_frames, .. } | CodecConfig::H265Nvenc { b_frames, .. }
        | CodecConfig::Av1Nvenc { b_frames, .. } => Some(b_frames),
        _ => None,
    }
}

/// The check of a quantizer against its upper bound.
pub open spec fn qp_check(qp: u32, max: u32, message: Seq<char>) -> Result<(), Seq<char>> {
    if qp > max {
        Err(message)
    } else {
        Ok(())
    }
}

/// Sequences two checks: the first failure wins.
pub open spec fn then_check(first: Result<(), Seq<char>>, second: Result<(), Seq<char>>) -> Result<
    (),
    Seq<char>,
> {
    match first {
        Err(m) => Err(m),
        Ok(()) => second,
    }
}

/// The checks of an NVENC codec: quantizer, B-frames, look-ahead.
pub open spec fn nvenc_check(
    name: Seq<char>,
    qp: u32,
    qp_max: u32,
    qp_message: Seq<char>,
    b_frames: u32,
    rc_lookahead: Option<u32>,
) -> Result<(), Seq<char>> {
    then_check(
        qp_check(qp, qp_max, qp_message),
        then_check(b_frames_check(name, b_frames), rc_lookahead_check(name, rc_lookahead)),
    )
}

/// The validity of a codec configuration; `Err` holds the refusal.
pub open spec fn codec_validation(c: CodecConfig) -> Result<(), Seq<char>> {
    match c {
        CodecConfig::AV1 { film_grain, lookahead, fast_decode, .. } => {
            if film_grain matches Some(fg) && fg > 50 {
                Err("AV1 film-grain must be between 0 and 50"@)
            } else if lookahead matches Some(la) && (la < -1 || la > 120) {
                Err("AV1 lookahead must be -1 (auto) or between 0 and 120"@)
            } else if fast_decode matches Some(fd) && fd > 2 {
                Err("AV1 fast-decode must be between 0 and 2"@)
            } else {
                Ok(())
            }
        },
        CodecConfig::H264 { tune, .. } => x264_tune_check(tune@),
        CodecConfig::H265 { tune, .. } => x265_tune_check(tune@),
        CodecConfig::H264Vaapi { qp, .. } => qp_check(
            qp,
            51,
            "H264_VAAPI qp must be between 0 and 51"@,
        ),
        CodecConfig::H265Vaapi { qp, .. } => qp_check(
            qp,
            51,
            "H265_VAAPI qp must be between 0 and 51"@,
        ),
        CodecConfig::Av1Vaapi { qp, .. } => qp_check(
            qp,
            255,
            "AV1_VAAPI qp must be between 0 and 255"@,
        ),
        CodecConfig::H264Nvenc { qp, b_frames, rc_lookahead, .. } => nvenc_check(
            "H264_NVENC"@,
            qp,
            51,
            "H264_NVENC qp must be between 0 and 51"@,
            b_frames,
            rc_lookahead,
        ),
        CodecConfig::H265Nvenc { qp, b_frames, rc_lookahead, .. } => nvenc_check(
            "H265_NVENC"@,
            qp,
            51,
            "H265_NVENC qp must be between 0 and 51"@,
            b_frames,
            rc_lookahead,
        ),
        CodecConfig::Av1Nvenc { qp, b_frames, rc_lookahead, .. } => nvenc_check(
            "AV1_NVENC"@,
            qp,
            255,
            "AV1_NVENC qp must be between 0 and 255"@,
            b_frames,
            rc_lookahead,
        ),
    }
}

/// Checks an NVENC codec's options.
pub(crate) fn validate_nvenc_codec(
    name: &str,
    qp: u32,
    qp_max: u32,
    qp_message: &str,
    b_frames: u32,
    rc_lookahead: Option<u32>,
) -> (r: Result<(), StageError>)
    ensures
        match nvenc_check(name@, qp, qp_max, qp_message@, b_frames, rc_lookahead) {
            Ok(()) => r is Ok,
            Err(m) => r matches Err(e) && is_invalid_message(e, m),
        },
{
    if qp > qp_max {
        return Err(StageError::invalid(qp_message));
    }
    validate_nvenc_b_frames(name, b_frames)?;
    validate_nvenc_rc_lookahead(name, rc_lookahead)?;
    Ok(())
}

impl CodecConfig {
    /// Returns the FFmpeg encoder library name.
    pub fn ffmpeg_encoder_name(&self) -> (s: &'static str)
        ensures
            s@ == encoder_name(*self),
    {
        match self {
            CodecConfig::AV1 { .. } => "libsvtav1",
            CodecConfig::H264 { .. } => "libx264",
            CodecConfig::H265 { .. } => "libx265",
            CodecConfig::H264Vaapi { .. } => "h264_vaapi",
            CodecConfig::H265Vaapi { .. } => "hevc_vaapi",
            CodecConfig::Av1Vaapi { .. } => "av1_vaapi",
            CodecConfig::H264Nvenc { .. } => "h264_nvenc",
            CodecConfig::H265Nvenc { .. } => "hevc_nvenc",
            CodecConfig::Av1Nvenc { .. } => "av1_nvenc",
        }
    }

    /// Returns true if this codec uses VA-API hardware acceleration.
    pub fn is_vaapi(&self) -> (b: bool)
        ensures
            b == uses_vaapi(*self),
    {
        matches!(
            self,
            CodecConfig::H264Vaapi { .. } | CodecConfig::H265Vaapi { .. } | CodecConfig::Av1Vaapi {
                ..
            }
        )
    }

    /// Returns true if this codec uses NVIDIA NVENC hardware acceleration.
    pub fn is_nvenc(&self) -> (b: bool)
        ensures
            b == uses_nvenc(*self),
    {
        matches!(
            self,
            CodecConfig::H264Nvenc { .. } | CodecConfig::H265Nvenc { .. } | CodecConfig::Av1Nvenc {
                ..
            }
        )
    }

    /// Returns true if this codec is encoded through an FFmpeg CLI subprocess.
    pub fn uses_ffmpeg_cli_encoder(&self) -> (b: bool)
        ensures
            b == (uses_vaapi(*self) || uses_nvenc(*self)),
    {
        self.is_vaapi() || self.is_nvenc()
    }

    /// Returns the codec family name recorded in video metadata.
    pub fn codec_family_name(&self) -> (s: &'static str)
        ensures
            s@ == family_name(*self),
    {
        match self {
            CodecConfig::AV1 { .. } | CodecConfig::Av1Vaapi { .. } | CodecConfig::Av1Nvenc {
                ..
            } => "av1",
            CodecConfig::H264 { .. } | CodecConfig::H264Vaapi { .. } | CodecConfig::H264Nvenc {
                ..
            } => "h264",
            CodecConfig::H265 { .. } | CodecConfig::H265Vaapi { .. } | CodecConfig::H265Nvenc {
                ..
            } => "h265",
        }
    }

    /// The VA-API device a VA-API codec opens.
    pub fn vaapi_device_path(&self) -> (r: Option<&str>)
        ensures
            match vaapi_device(*self) {
                Some(d) => r matches Some(p) && p@ == d,
                None => r is None,
            },
    {
        match self {
            CodecConfig::H264Vaapi { device, .. } | CodecConfig::H265Vaapi { device, .. }
            | CodecConfig::Av1Vaapi { device, .. } => match device {
                Some(d) => Some(d.as_str()),
                None => Some(DEFAULT_VAAPI_DEVICE),
            },
            _ => None,
        }
    }

    /// The B-frame count of an NVENC codec.
    pub fn nvenc_b_frames(&self) -> (r: Option<u32>)
        ensures
            r == nvenc_b_frame_count(*self),
    {
        match self {
            CodecConfig::H264Nvenc { b_frames, .. } | CodecConfig::H265Nvenc { b_frames, .. }
            | CodecConfig::Av1Nvenc { b_frames, .. } => Some(*b_frames),
            _ => None,
        }
    }

    /// Validates the codec configuration.
    pub fn validate(&self) -> (r: Result<(), StageError>)
        ensures
            match codec_validation(*self) {
                Ok(()) => r is Ok,
                Err(m) => r matches Err(e) && is_invalid_message(e, m),
            },
    {
        match self {
            CodecConfig::AV1 { film_grain, lookahead, fast_decode, .. } => {
                if let Some(fg) = film_grain {
                    if *fg > 50 {
                        return Err(StageError::invalid("AV1 film-grain must be between 0 and 50"));
                    }
                }
                if let Some(la) = lookahead {
                    if *la < -1 || *la > 120 {
                        return Err(
                            StageError::invalid(
                                "AV1 lookahead must be -1 (auto) or between 0 and 120",
                            ),
                        );
                    }
                }
                if let Some(fd) = fast_decode {
                    if *fd > 2 {
                        return Err(StageError::invalid("AV1 fast-decode must be between 0 and 2"));
                    }
                }
                Ok(())
            },
            CodecConfig::H264 { tune, .. } => validate_x264_tune(tune),
            CodecConfig::H265 { tune, .. } => validate_x265_tune(tune),
            CodecConfig::H264Vaapi { qp, .. } => {
                if *qp > 51 {
                    return Err(StageError::invalid("H264_VAAPI qp must be between 0 and 51"));
                }
                Ok(())
            },
            CodecConfig::H265Vaapi { qp, .. } => {
                if *qp > 51 {
                    return Err(StageError::invalid("H265_VAAPI qp must be between 0 and 51"));
                }
                Ok(())
            },
            CodecConfig::Av1Vaapi { qp, .. } => {
                if *qp > 255 {
                    return Err(StageError::invalid("AV1_VAAPI qp must be between 0 and 255"));
                }
                Ok(())
            },
            CodecConfig::H264Nvenc { qp, b_frames, rc_lookahead, .. } => validate_nvenc_codec(
                "H264_NVENC",
                *qp,
                51,
                "H264_NVENC qp must be between 0 and 51",
                *b_frames,
                *rc_lookahead,
            ),
            CodecConfig::H265Nvenc { qp, b_frames, rc_lookahead, .. } => validate_nvenc_codec(
                "H265_NVENC",
                *qp,
                51,
                "H265_NVENC qp must be between 0 and 51",
                *b_frames,
                *rc_lookahead,
            ),
            CodecConfig::Av1Nvenc { qp, b_frames, rc_lookahead, .. } => validate_nvenc_codec(
                "AV1_NVENC",
                *qp,
                255,
                "AV1_NVENC qp must be between 0 and 255",
                *b_frames,
                *rc_lookahead,
            ),
        }
    }
}

// ============================================================================
// Scaling and resizing
// ============================================================================

/// Scaling algorithm used when frames are resized.
#[derive(Clone, Copy, Debug, PartialEq, Eq, Structural)]
pub enum ScalingFlag {
    /// Fast bilinear (lowest quality, fastest)
    FastBilinear,
    /// Bilinear interpolation
    Bilinear,
    /// Bicubic interpolation (recommended default)
    Bicubic,
    /// Bicubic for luma, bilinear for chroma
    Bicublin,
    /// Gaussian blur
    Gauss,
    /// Sinc interpolation
    Sinc,
    /// Lanczos resampling (high quality)
    Lanczos,
    /// Spline interpolation
    Spline,
    /// Vertical chroma drop mask
    SrcVChrDropMask,
    /// Vertical chroma drop shift
    SrcVChrDropShift,
    /// Default parameter
    ParamDefault,
    /// Print scaling info
    PrintInfo,
    /// Full chroma H interpolation
    FullChrHInt,
    /// Full chroma H input
    FullChrHInp,
    /// Direct BGR output
    DirectBgr,
    /// Accurate rounding
    AccurateRnd,
    /// Bit-exact output
    BitExact,
    /// Error diffusion dithering
    ErrorDiffusion,
}

/// The name of a scaling flag as `Debug` prints it (the variant's name).
pub open spec fn scaling_flag_name(f: ScalingFlag) -> Seq<char> {
    match f {
        ScalingFlag::FastBilinear => "FastBilinear"@,
        ScalingFlag::Bilinear => "Bilinear"@,
        ScalingFlag::Bicubic => "Bicubic"@,
        ScalingFlag::Bicublin => "Bicublin"@,
        ScalingFlag::Gauss => "Gauss"@,
        ScalingFlag::Sinc => "Sinc"@,
        ScalingFlag::Lanczos => "Lanczos"@,
        ScalingFlag::Spline => "Spline"@,
        ScalingFlag::SrcVChrDropMask => "SrcVChrDropMask"@,
        ScalingFlag::SrcVChrDropShift => "SrcVChrDropShift"@,
        ScalingFlag::ParamDefault => "ParamDefault"@,
        ScalingFlag::PrintInfo => "PrintInfo"@,
        ScalingFlag::FullChrHInt => "FullChrHInt"@,
        ScalingFlag::FullChrHInp => "FullChrHInp"@,
        ScalingFlag::DirectBgr => "DirectBgr"@,
        ScalingFlag::AccurateRnd => "AccurateRnd"@,
        ScalingFlag::BitExact => "BitExact"@,
        ScalingFlag::ErrorDiffusion => "ErrorDiffusion"@,
    }
}

/// The refusal of a scaling flag that the FFmpeg `scale` filter has no name for.
pub open spec fn unsupported_scaling_message(f: ScalingFlag) -> Seq<char> {
    "scaling flag '"@ + scaling_flag_name(f) + "' is not supported by FFmpeg CLI resize filters"@
}

/// The `flags=` value of the FFmpeg `scale` filter for a scaling flag: `None` for the
/// default parameter (no `flags=` at all), `Err` for the flags the filter cannot take.
pub open spec fn cli_scale_flag(f: ScalingFlag) -> Result<Option<Seq<char>>, Seq<char>> {
    match f {
        ScalingFlag::FastBilinear => Ok(Some("fast_bilinear"@)),
        ScalingFlag::Bilinear => Ok(Some("bilinear"@)),
        ScalingFlag::Bicubic => Ok(Some("bicubic"@)),
        ScalingFlag::Bicublin => Ok(Some("bicublin"@)),
        ScalingFlag::Gauss => Ok(Some("gauss"@)),
        ScalingFlag::Sinc => Ok(Some("sinc"@)),
        ScalingFlag::Lanczos => Ok(Some("lanczos"@)),
        ScalingFlag::Spline => Ok(Some("spline"@)),
        ScalingFlag::ParamDefault => Ok(None),
        ScalingFlag::PrintInfo => Ok(Some("print_info"@)),
        ScalingFlag::FullChrHInt => Ok(Some("full_chroma_int"@)),
        ScalingFlag::FullChrHInp => Ok(Some("full_chroma_inp"@)),
        ScalingFlag::AccurateRnd => Ok(Some("accurate_rnd"@)),
        ScalingFlag::BitExact => Ok(Some("bitexact"@)),
        ScalingFlag::ErrorDiffusion => Ok(Some("error_diffusion"@)),
        _ => Err(unsupported_scaling_message(f)),
    }
}

/// Whether the FFmpeg CLI resize filters can take a scaling flag.
pub open spec fn scaling_support(f: ScalingFlag) -> Result<(), Seq<char>> {
    match cli_scale_flag(f) {
        Ok(_) => Ok(()),
        Err(m) => Err(m),
    }
}

impl ScalingFlag {
    /// The `flags=` value of the FFmpeg `scale` filter for this flag.
    pub fn ffmpeg_cli_scale_flag(&self) -> (r: Result<Option<&'static str>, StageError>)
        ensures
            match cli_scale_flag(*self) {
                Ok(Some(n)) => r matches Ok(Some(s)) && s@ == n,
                Ok(None) => r matches Ok(None),
                Err(m) => r matches Err(e) && is_invalid_message(e, m),
            },
    {
        let name: &'static str = match self {
            ScalingFlag::FastBilinear => return Ok(Some("fast_bilinear")),
            ScalingFlag::Bilinear => return Ok(Some("bilinear")),
            ScalingFlag::Bicubic => return Ok(Some("bicubic")),
            ScalingFlag::Bicublin => return Ok(Some("bicublin")),
            ScalingFlag::Gauss => return Ok(Some("gauss")),
            ScalingFlag::Sinc => return Ok(Some("sinc")),
            ScalingFlag::Lanczos => return Ok(Some("lanczos")),
            ScalingFlag::Spline => return Ok(Some("spline")),
            ScalingFlag::ParamDefault => return Ok(None),
            ScalingFlag::PrintInfo => return Ok(Some("print_info")),
            ScalingFlag::FullChrHInt => return Ok(Some("full_chroma_int")),
            ScalingFlag::FullChrHInp => return Ok(Some("full_chroma_inp")),
            ScalingFlag::AccurateRnd => return Ok(Some("accurate_rnd")),
            ScalingFlag::BitExact => return Ok(Some("bitexact")),
            ScalingFlag::ErrorDiffusion => return Ok(Some("error_diffusion")),
            ScalingFlag::SrcVChrDropMask => "SrcVChrDropMask",
            ScalingFlag::SrcVChrDropShift => "SrcVChrDropShift",
            ScalingFlag::DirectBgr => "DirectBgr",
        };
        let mut m = "scaling flag '".to_string();
        push_str(&mut m, name);
        push_str(&mut m, "' is not supported by FFmpeg CLI resize filters");
        Err(StageError::invalid_owned(m))
    }

    /// Checks that the FFmpeg CLI resize filters can take this flag.
    pub fn validate_ffmpeg_cli_resize_support(&self) -> (r: Result<(), StageError>)
        ensures
            match scaling_support(*self) {
                Ok(()) => r is Ok,
                Err(m) => r matches Err(e) && is_invalid_message(e, m),
            },
    {
        match self.ffmpeg_cli_scale_flag() {
            Ok(_) => Ok(()),
            Err(e) => Err(e),
        }
    }
}

/// Exact output dimensions for encoded videos; frames are stretched to this
/// size without preserving the aspect ratio.
#[derive(Clone, Copy, Debug, PartialEq, Eq, Structural)]
pub struct ResizeConfig {
    /// Output width in pixels.
    pub width: u32,
    /// Output height in pixels.
    pub height: u32,
}

/// The check of resize dimensions: both positive and both even (yuv420p).
pub open spec fn resize_check(r: ResizeConfig) -> Result<(), Seq<char>> {
    if r.width == 0 || r.height == 0 {
        Err("resize width and height must be greater than 0"@)
    } else if r.width % 2 != 0 || r.height % 2 != 0 {
        Err("resize width and height must be even for yuv420p output"@)
    } else {
        Ok(())
    }
}

impl ResizeConfig {
    /// Checks that both dimensions are positive and even.
    pub fn validate(&self) -> (r: Result<(), StageError>)
        ensures
            match resize_check(*self) {
                Ok(()) => r is Ok,
                Err(m) => r matches Err(e) && is_invalid_message(e, m),
            },
    {
        if self.width == 0 || self.height == 0 {
            return Err(StageError::invalid("resize width and height must be greater than 0"));
        }
        if self.width % 2 != 0 || self.height % 2 != 0 {
            return Err(
                StageError::invalid("resize width and height must be even for yuv420p output"),
            );
        }
        Ok(())
    }

    /// The image shape of a resized frame with `channels` channels.
    pub fn image_shape(&self, channels: usize) -> (s: ImageShape)
        ensures
            s == (ImageShape {
                height: self.height as usize,
                width: self.width as usize,
                channels,
            }),
    {
        ImageShape::new(self.height as usize, self.width as usize, channels)
    }
}

// ============================================================================
// Encoder configuration
// ============================================================================

/// Configuration of the RGB video encoder stage.
#[derive(Clone, Debug, PartialEq)]
pub struct VideoEncoderConfig {
    /// The frame rate of the output video.
    pub fps: u32,
    /// The Group of Pictures (GOP) size, which determines the keyframe interval.
    pub gop: u32,
    /// The Constant Rate Factor (CRF), controlling video quality (lower is better).
    pub crf: String,
    /// The scaling algorithm to use for resizing frames.
    pub scaling: ScalingFlag,
    /// Optional exact output dimensions; `None` keeps the source frame size.
    pub resize: Option<ResizeConfig>,
    /// Codec-specific configuration.
    pub codec_config: CodecConfig,
}

/// Whether a configuration holds the defaults in every field but the frame rate.
pub open spec fn has_default_settings(c: VideoEncoderConfig) -> bool {
    &&& c.gop == DEFAULT_GOP
    &&& c.crf@ == DEFAULT_CRF@
    &&& c.scaling == ScalingFlag::Bicubic
    &&& c.resize is None
    &&& c.codec_config == default_codec()
}

/// The refusal of an NVENC configuration whose GOP cannot hold its B-frames.
pub open spec fn nvenc_gop_message(gop: u32, b_frames: u32) -> Seq<char> {
    "NVENC gop must be greater than b_frames + 1 when B-frames are enabled (gop="@ + decimal(
        gop as nat,
    ) + ", b_frames="@ + decimal(b_frames as nat) + ")"@
}

/// The check of resize settings: the dimensions, then (for the FFmpeg CLI
/// encoders) whether the scaling flag can be given to the `scale` filter.
pub open spec fn resize_settings_check(c: VideoEncoderConfig) -> Result<(), Seq<char>> {
    match c.resize {
        Some(r) => then_check(
            resize_check(r),
            if uses_vaapi(c.codec_config) || uses_nvenc(c.codec_config) {
                scaling_support(c.scaling)
            } else {
                Ok(())
            },
        ),
        None => Ok(()),
    }
}

/// The check that an NVENC GOP is longer than its B-frame count plus one.
pub open spec fn nvenc_gop_check(c: VideoEncoderConfig) -> Result<(), Seq<char>> {
    match nvenc_b_frame_count(c.codec_config) {
        Some(b) => if b > 0 && c.gop <= b + 1 {
            Err(nvenc_gop_message(c.gop, b))
        } else {
            Ok(())
        },
        None => Ok(()),
    }
}

/// The validity of an encoder configuration, independent of the machine.
pub open spec fn config_validation(c: VideoEncoderConfig) -> Result<(), Seq<char>> {
    if c.fps == 0 {
        Err("fps must be greater than 0"@)
    } else if c.gop == 0 {
        Err("gop must be greater than 0"@)
    } else {
        then_check(
            resize_settings_check(c),
            then_check(codec_validation(c.codec_config), nvenc_gop_check(c)),
        )
    }
}

/// The encoded dimensions of a `width` x `height` frame: the resize target
/// when one is configured, the frame's own size otherwise.
pub open spec fn output_dimensions_of(c: VideoEncoderConfig, width: u32, height: u32) -> Result<
    (u32, u32),
    Seq<char>,
> {
    if width == 0 || height == 0 {
        Err("output dimensions require positive width and height"@)
    } else {
        match c.resize {
            Some(r) => match resize_check(r) {
                Ok(()) => Ok((r.width, r.height)),
                Err(m) => Err(m),
            },
            None => Ok((width, height)),
        }
    }
}

/// Whether `m` is the metadata of an RGB video encoded with `c` at
/// `width` x `height`, with `json` as its encoding record.
pub open spec fn is_rgb_metadata(
    m: VideoMetadata,
    c: VideoEncoderConfig,
    width: u32,
    height: u32,
    json: Seq<char>,
) -> bool {
    &&& m.media_type@ == "rgb"@
    &&& m.codec_family@ == family_name(c.codec_config)
    &&& m.encoder_name@ == encoder_name(c.codec_config)
    &&& m.pix_fmt@ == "yuv420p"@
    &&& m.width == width
    &&& m.height == height
    &&& m.fps == c.fps
    &&& m.encoding_config_json@ == json
}

/// The check of metadata for a `width` x `height` video: the configuration
/// first, then the dimensions.
pub open spec fn metadata_check(c: VideoEncoderConfig, width: u32, height: u32) -> Result<
    (),
    Seq<char>,
> {
    match config_validation(c) {
        Err(m) => Err(m),
        Ok(()) => if width == 0 || height == 0 {
            Err(zero_dimension_message())
        } else {
            Ok(())
        },
    }
}

impl Default for VideoEncoderConfig {
    fn default() -> (c: Self)
        ensures
            c.fps == DEFAULT_FPS,
            has_default_settings(c),
    {
        VideoEncoderConfig {
            fps: DEFAULT_FPS,
            gop: DEFAULT_GOP,
            crf: DEFAULT_CRF.to_string(),
            scaling: ScalingFlag::Bicubic,
            resize: None,
            codec_config: CodecConfig::default(),
        }
    }
}

impl VideoEncoderConfig {
    /// Creates a configuration with the given frame rate and the defaults elsewhere.
    pub fn new(fps: u32) -> (c: Self)
        ensures
            c.fps == fps,
            has_default_settings(c),
    {
        let mut c = Self::default();
        c.fps = fps;
        c
    }

    /// Sets the Group of Pictures (GOP) size.
    pub fn set_gop(self, gop: u32) -> (c: Self)
        ensures
            c == (VideoEncoderConfig { gop, ..self }),
    {
        let mut c = self;
        c.gop = gop;
        c
    }

    /// Sets the Constant Rate Factor (CRF).
    pub fn set_crf(self, crf: String) -> (c: Self)
        ensures
            c == (VideoEncoderConfig { crf, ..self }),
    {
        let mut c = self;
        c.crf = crf;
        c
    }

    /// Sets the scaling algorithm.
    pub fn set_scaling(self, scaling: ScalingFlag) -> (c: Self)
        ensures
            c == (VideoEncoderConfig { scaling, ..self }),
    {
        let mut c = self;
        c.scaling = scaling;
        c
    }

    /// Sets exact output dimensions.
    pub fn set_resize(self, resize: Option<ResizeConfig>) -> (c: Self)
        ensures
            c == (VideoEncoderConfig { resize, ..self }),
    {
        let mut c = self;
        c.resize = resize;
        c
    }

    /// Sets the codec configuration.
    pub fn set_codec_config(self, codec_config: CodecConfig) -> (c: Self)
        ensures
            c == (VideoEncoderConfig { codec_config, ..self }),
    {
        let mut c = self;
        c.codec_config = codec_config;
        c
    }

    /// Validates the configuration independent of machine capabilities.
    pub fn validate(&self) -> (r: Result<(), StageError>)
        ensures
            match config_validation(*self) {
                Ok(()) => r is Ok,
                Err(m) => r matches Err(e) && is_invalid_message(e, m),
            },
    {
        if self.fps == 0 {
            return Err(StageError::invalid("fps must be greater than 0"));
        }
        if self.gop == 0 {
            return Err(StageError::invalid("gop must be greater than 0"));
        }
        if let Some(resize) = self.resize {
            resize.validate()?;
            if self.codec_config.uses_ffmpeg_cli_encoder() {
                self.scaling.validate_ffmpeg_cli_resize_support()?;
            }
        }
        self.codec_config.validate()?;
        if let Some(b_frames) = self.codec_config.nvenc_b_frames() {
            if b_frames > 0 && self.gop - 1 <= b_frames {
                let mut m = "NVENC gop must be greater than b_frames + 1 when B-frames are enabled (gop=".to_string();
                push_str(&mut m, decimal_string(self.gop as u64).as_str());
                push_str(&mut m, ", b_frames=");
                push_str(&mut m, decimal_string(b_frames as u64).as_str());
                push_str(&mut m, ")");
                return Err(StageError::invalid_owned(m));
            }
        }
        Ok(())
    }

    /// Builds the canonical metadata of an RGB video encoded with this
    /// configuration; `encoding_config_json` is the configuration's JSON record.
    pub fn video_metadata(&self, width: u32, height: u32, encoding_config_json: String) -> (r:
        Result<VideoMetadata, StageError>)
        ensures
            match metadata_check(*self, width, height) {
                Ok(()) => r matches Ok(m) && is_rgb_metadata(
                    m,
                    *self,
                    width,
                    height,
                    encoding_config_json@,
                ),
                Err(m) => r matches Err(e) && is_invalid_message(e, m),
            },
    {
        self.validate()?;
        if width == 0 || height == 0 {
            return Err(StageError::invalid("video metadata requires positive width and height"));
        }
        Ok(VideoMetadata {
            media_type: "rgb".to_string(),
            codec_family: self.codec_config.codec_family_name().to_string(),
            encoder_name: self.codec_config.ffmpeg_encoder_name().to_string(),
            pix_fmt: "yuv420p".to_string(),
            width,
            height,
            fps: self.fps,
            encoding_config_json,
        })
    }

    /// Resolves the encoded output dimensions of a frame.
    pub fn output_dimensions(&self, width: u32, height: u32) -> (r: Result<(u32, u32), StageError>)
        ensures
            match output_dimensions_of(*self, width, height) {
                Ok(d) => r == Ok::<(u32, u32), StageError>(d),
                Err(m) => r matches Err(e) && is_invalid_message(e, m),
            },
    {
        if width == 0 || height == 0 {
            return Err(StageError::invalid("output dimensions require positive width and height"));
        }
        if let Some(resize) = self.resize {
            resize.validate()?;
            Ok((resize.width, resize.height))
        } else {
            Ok((width, height))
        }
    }

    /// Resolves the encoded output shape of an RGB image topic.
    pub fn output_shape(&self, shape: ImageShape) -> (r: Result<ImageShape, StageError>)
        ensures
            match output_dimensions_of(*self, shape.width as u32, shape.height as u32) {
                Ok((w, h)) => r == Ok::<ImageShape, StageError>(
                    ImageShape { height: h as usize, width: w as usize, channels: shape.channels },
                ),
                Err(m) => r matches Err(e) && is_invalid_message(e, m),
            },
    {
        let (width, height) = self.output_dimensions(shape.width as u32, shape.height as u32)?;
        Ok(ImageShape::new(height as usize, width as usize, shape.channels))
    }

    /// The output shape when a resize is configured.
    pub fn configured_output_shape(&self, channels: usize) -> (r: Option<ImageShape>)
        ensures
            match self.resize {
                Some(z) => r == Some(
                    ImageShape { height: z.height as usize, width: z.width as usize, channels },
                ),
                None => r is None,
            },
    {
        match self.resize {
            Some(resize) => Some(resize.image_shape(channels)),
            None => None,
        }
    }

    /// Builds the artifact of an RGB video at `video_path`.
    pub fn video_artifact(
        &self,
        video_path: &str,
        width: u32,
        height: u32,
        encoding_config_json: String,
    ) -> (r: Result<VideoArtifact, StageError>)
        ensures
            match metadata_check(*self, width, height) {
                Ok(()) => r matches Ok(a) && a.video_path@ == video_path@ && is_rgb_metadata(
                    a.metadata,
                    *self,
                    width,
                    height,
                    encoding_config_json@,
                ),
                Err(m) => r matches Err(e) && is_invalid_message(e, m),
            },
    {
        let metadata = self.video_metadata(width, height, encoding_config_json)?;
        Ok(VideoArtifact { video_path: video_path.to_string(), metadata })
    }
}

/// The pipeline stage that encodes the images of every image topic into videos.
pub struct VideoEncoder {
    pub config: VideoEncoderConfig,
}

impl VideoEncoder {
    /// Creates the stage.
    pub fn new(config: VideoEncoderConfig) -> (e: Self)
        ensures
            e.config == config,
    {
        VideoEncoder { config }
    }
}

/// The availability check of an encoder that is left once a configuration has
/// passed the checks that can be made here: which encoder must be present, and
/// where.
#[derive(Clone, Copy, Debug, PartialEq, Eq)]
pub enum EncoderCheck {
    /// The `ffmpeg` program must report this encoder.
    Cli(&'static str),
    /// The linked FFmpeg libraries must provide this encoder.
    Library(&'static str),
}

/// The refusal of a VA-API codec whose device file is missing.
pub open spec fn vaapi_missing_message(device: Seq<char>) -> Seq<char> {
    "VA-API codec selected but "@ + device
        + " was not found. Mount /dev/dri or choose a software codec explicitly."@
}

/// Whether `r` is a refusal for invisible NVIDIA device files.
pub open spec fn is_nvenc_device_refusal(r: Result<EncoderCheck, StageError>) -> bool {
    r matches Err(StageError::External { context, source }) && context@ == nvenc_device_message()
        && source@ == "NVIDIA device files not found"@
}

/// Whether `r` names `encoder` as an encoder the `ffmpeg` program must report.
pub open spec fn is_cli_check(r: Result<EncoderCheck, StageError>, encoder: Seq<char>) -> bool {
    r matches Ok(EncoderCheck::Cli(n)) && n@ == encoder
}

impl VideoEncoderConfig {
    /// Validates the configuration and checks the devices a hardware codec
    /// needs; returns the encoder whose presence remains to be checked.
    ///
    /// The outcome of the device checks depends on the machine; the contract
    /// states what holds either way.
    pub fn preflight(&self) -> (r: Result<EncoderCheck, StageError>)
        ensures
            match config_validation(*self) {
                Err(m) => r matches Err(e) && is_invalid_message(e, m),
                Ok(()) => match vaapi_device(self.codec_config) {
                    Some(d) => is_cli_check(r, encoder_name(self.codec_config)) || (r matches Err(e)
                        && is_invalid_message(e, vaapi_missing_message(d))),
                    None => if uses_nvenc(self.codec_config) {
                        is_cli_check(r, encoder_name(self.codec_config)) || is_nvenc_device_refusal(
                            r,
                        )
                    } else {
                        r matches Ok(EncoderCheck::Library(n)) && n@ == encoder_name(
                            self.codec_config,
                        )
                    },
                },
            },
    {
        self.validate()?;
        if let Some(device) = self.codec_config.vaapi_device_path() {
            if !path_exists(device) {
                let mut m = "VA-API codec selected but ".to_string();
                push_str(&mut m, device);
                push_str(
                    &mut m,
                    " was not found. Mount /dev/dri or choose a software codec explicitly.",
                );
                return Err(StageError::invalid_owned(m));
            }
            return Ok(EncoderCheck::Cli(self.codec_config.ffmpeg_encoder_name()));
        }
        if self.codec_config.is_nvenc() {
            match ensure_nvenc_device_visible() {
                Ok(()) => {},
                Err(e) => return Err(e),
            }
            return Ok(EncoderCheck::Cli(self.codec_config.ffmpeg_encoder_name()));
        }
        Ok(EncoderCheck::Library(self.codec_config.ffmpeg_encoder_name()))
    }
}

/// Which encoder implementation a codec runs on.
#[derive(Clone, Copy, Debug, PartialEq, Eq, Structural)]
pub enum EncoderBackend {
    /// In-process libavcodec encoder.
    Software,
    /// FFmpeg subprocess with VA-API.
    Vaapi,
    /// FFmpeg subprocess with NVENC.
    Nvenc,
}

/// Chooses the encoder implementation of a codec.
pub fn encoder_backend(codec: &CodecConfig) -> (b: EncoderBackend)
    ensures
        b == (if uses_vaapi(*codec) {
            EncoderBackend::Vaapi
        } else if uses_nvenc(*codec) {
            EncoderBackend::Nvenc
        } else {
            EncoderBackend::Software
        }),
{
    if codec.is_vaapi() {
        EncoderBackend::Vaapi
    } else if codec.is_nvenc() {
        EncoderBackend::Nvenc
    } else {
        EncoderBackend::Software
    }
}

/// The path of a topic's RGB video relative to the video directory: the topic
/// without its leading slashes, with the `.mp4` extension.
pub fn rgb_video_relative_path(topic: &str) -> (r: String)
    ensures
        r@ == strip_leading(topic@, '/') + ".mp4"@,
{
    let mut r = string_from_chars(strip_leading_chars(&str_chars(topic), '/'));
    push_str(&mut r, ".mp4");
    r
}

/// The refusal of a topic whose frames have no known shape.
pub open spec fn missing_shape_message(topic: Seq<char>) -> Seq<char> {
    "missing image shape for encoded video topic: "@ + topic
}

/// The artifact of a topic's encoded RGB video: the video's relative path and
/// metadata at the encoded size of frames of `shape`.
pub fn rgb_topic_artifact(
    config: &VideoEncoderConfig,
    topic: &str,
    shape: Option<ImageShape>,
    encoding_config_json: String,
) -> (r: Result<VideoArtifact, StageError>)
    ensures
        match shape {
            None => r matches Err(e) && is_invalid_message(e, missing_shape_message(topic@)),
            Some(s) => match output_dimensions_of(*config, s.width as u32, s.height as u32) {
                Err(m) => r matches Err(e) && is_invalid_message(e, m),
                Ok((w, h)) => match metadata_check(*config, w, h) {
                    Err(m) => r matches Err(e) && is_invalid_message(e, m),
                    Ok(()) => r matches Ok(a) && a.video_path@ == strip_leading(topic@, '/')
                        + ".mp4"@ && is_rgb_metadata(
                        a.metadata,
                        *config,
                        w,
                        h,
                        encoding_config_json@,
                    ),
                },
            },
        },
{
    let shape = match shape {
        Some(s) => s,
        None => {
            let mut m = "missing image shape for encoded video topic: ".to_string();
            push_str(&mut m, topic);
            return Err(StageError::invalid_owned(m));
        },
    };
    let (width, height) = config.output_dimensions(shape.width as u32, shape.height as u32)?;
    let path = rgb_video_relative_path(topic);
    config.video_artifact(path.as_str(), width, height, encoding_config_json)
}

/// The metadata of an RGB video describes frames of the encoded size with
/// three channels: reading the shape back from metadata that
/// [`VideoEncoderConfig::video_metadata`] built gives `height x width x 3`.
pub proof fn lemma_rgb_metadata_shape(
    m: VideoMetadata,
    c: VideoEncoderConfig,
    width: u32,
    height: u32,
    json: Seq<char>,
)
    requires
        is_rgb_metadata(m, c, width, height, json),
        metadata_check(c, width, height) is Ok,
    ensures
        metadata_shape(m) == Ok::<ImageShape, Seq<char>>(
            ImageShape { height: height as usize, width: width as usize, channels: 3 },
        ),
{
}

/// Every configuration that passes validation keeps the rules the encoders
/// rely on: positive frame rate and GOP, an even and positive resize target,
/// a scaling flag the `scale` filter can take when a CLI encoder resizes, and
/// an NVENC GOP longer than its B-frame count plus one.
pub proof fn lemma_valid_config(c: VideoEncoderConfig)
    requires
        config_validation(c) is Ok,
    ensures
        c.fps > 0,
        c.gop > 0,
        codec_validation(c.codec_config) is Ok,
        c.resize is Some ==> ({
            let r = c.resize->0;
            r.width > 0 && r.height > 0 && r.width % 2 == 0 && r.height % 2 == 0
        }),
        c.resize is Some && (uses_vaapi(c.codec_config) || uses_nvenc(c.codec_config))
            ==> cli_scale_flag(c.scaling) is Ok,
        (nvenc_b_frame_count(c.codec_config) matches Some(b) && b > 0) ==> c.gop
            > nvenc_b_frame_count(c.codec_config)->0 + 1,
{
}

/// A codec runs on exactly one encoder implementation: VA-API and NVENC
/// codecs are disjoint, and the FFmpeg CLI is used exactly for those two.
pub proof fn lemma_backend_partition(c: CodecConfig)
    ensures
        !(uses_vaapi(c) && uses_nvenc(c)),
        vaapi_device(c) is Some <==> uses_vaapi(c),
        nvenc_b_frame_count(c) is Some <==> uses_nvenc(c),
{
}

/// An SVT-AV1 configuration is refused exactly when one of its bounded
/// options is out of range: film grain above 50, a look-ahead other than -1
/// or 0 to 120, or fast-decode above 2. Every film grain from 0 to 50 is
/// accepted.
pub proof fn lemma_av1_validation_bounds(
    lp: Option<u32>,
    pin: Option<u32>,
    preset: u32,
    film_grain: Option<u32>,
    film_grain_denoise: Option<bool>,
    lookahead: Option<i32>,
    fast_decode: Option<u32>,
)
    ensures
        codec_validation(
            CodecConfig::AV1 { lp, pin, preset, film_grain, film_grain_denoise, lookahead, fast_decode },
        ) is Ok <==> {
            &&& (film_grain matches Some(fg) ==> fg <= 50)
            &&& (lookahead matches Some(la) ==> -1 <= la <= 120)
            &&& (fast_decode matches Some(fd) ==> fd <= 2)
        },
        film_grain matches Some(fg) && fg > 50 ==> codec_validation(
            CodecConfig::AV1 { lp, pin, preset, film_grain, film_grain_denoise, lookahead, fast_decode },
        ) == Err::<(), Seq<char>>("AV1 film-grain must be between 0 and 50"@),
{
}

/// The codec family recorded in video metadata agrees with the encoder that
/// writes the stream: H.265 for libx265, hevc_vaapi and hevc_nvenc, H.264
/// for libx264, h264_vaapi and h264_nvenc, AV1 for the AV1 encoders.
pub proof fn lemma_family_matches_encoder(c: CodecConfig)
    ensures
        encoder_name(c) == "libx265"@ || encoder_name(c) == "hevc_vaapi"@ || encoder_name(c)
            == "hevc_nvenc"@ <==> family_name(c) == "h265"@,
        encoder_name(c) == "libx264"@ || encoder_name(c) == "h264_vaapi"@ || encoder_name(c)
            == "h264_nvenc"@ <==> family_name(c) == "h264"@,
        encoder_name(c) == "libsvtav1"@ || encoder_name(c) == "av1_vaapi"@ || encoder_name(c)
            == "av1_nvenc"@ <==> family_name(c) == "av1"@,
{
    reveal_strlit("libx265");
    reveal_strlit("hevc_vaapi");
    reveal_strlit("hevc_nvenc");
    reveal_strlit("libx264");
    reveal_strlit("h264_vaapi");
    reveal_strlit("h264_nvenc");
    reveal_strlit("libsvtav1");
    reveal_strlit("av1_vaapi");
    reveal_strlit("av1_nvenc");
    reveal_strlit("h265");
    reveal_strlit("h264");
    reveal_strlit("av1");
    assert("libx265"@.len() != "hevc_vaapi"@.len());
    assert("libx265"@.len() != "hevc_nvenc"@.len());
    assert("libx265"@[6] != "libx264"@[6]);
    assert("libx265"@.len() != "h264_vaapi"@.len());
    assert("libx265"@.len() != "h264_nvenc"@.len());
    assert("libx265"@.len() != "libsvtav1"@.len());
    assert("libx265"@.len() != "av1_vaapi"@.len());
    assert("libx265"@.len() != "av1_nvenc"@.len());
    assert("hevc_vaapi"@[5] != "hevc_nvenc"@[5]);
    assert("hevc_vaapi"@.len() != "libx264"@.len());
    assert("hevc_vaapi"@[1] != "h264_vaapi"@[1]);
    assert("hevc_vaapi"@[1] != "h264_nvenc"@[1]);
    assert("hevc_vaapi"@.len() != "libsvtav1"@.len());
    assert("hevc_vaapi"@.len() != "av1_vaapi"@.len());
    assert("hevc_vaapi"@.len() != "av1_nvenc"@.len());
    assert("hevc_nvenc"@.len() != "libx264"@.len());
    assert("hevc_nvenc"@[1] != "h264_vaapi"@[1]);
    assert("hevc_nvenc"@[1] != "h264_nvenc"@[1]);
    assert("hevc_nvenc"@.len() != "libsvtav1"@.len());
    assert("hevc_nvenc"@.len() != "av1_vaapi"@.len());
    assert("hevc_nvenc"@.len() != "av1_nvenc"@.len());
    assert("libx264"@.len() != "h264_vaapi"@.len());
    assert("libx264"@.len() != "h264_nvenc"@.len());
    assert("libx264"@.len() != "libsvtav1"@.len());
    assert("libx264"@.len() != "av1_vaapi"@.len());
    assert("libx264"@.len() != "av1_nvenc"@.len());
    assert("h264_vaapi"@[5] != "h264_nvenc"@[5]);
    assert("h264_vaapi"@.len() != "libsvtav1"@.len());
    assert("h264_vaapi"@.len() != "av1_vaapi"@.len());
    assert("h264_vaapi"@.len() != "av1_nvenc"@.len());
    assert("h264_nvenc"@.len() != "libsvtav1"@.len());
    assert("h264_nvenc"@.len() != "av1_vaapi"@.len());
    assert("h264_nvenc"@.len() != "av1_nvenc"@.len());
    assert("libsvtav1"@[0] != "av1_vaapi"@[0]);
    assert("libsvtav1"@[0] != "av1_nvenc"@[0]);
    assert("av1_vaapi"@[4] != "av1_nvenc"@[4]);
    assert("h265"@[3] != "h264"@[3]);
    assert("h265"@.len() != "av1"@.len());
    assert("h264"@.len() != "av1"@.len());
}

} // verus!
