//! Depth video encoding configuration.
//!
//! Lossy depth codecs take Q10 (10-bit) quantized depth packed as P010LE;
//! FFV1 takes the raw 16-bit values as gray16le and stores them losslessly.

use vstd::prelude::*;
use crate::common::{DepthFrame, flat_file_stem, topic_name_to_flat_file_stem};
use crate::compressed_depth::{
    compressed_depth_decoding, decode_depth_frame, gray16le, lemma_decoded_frame_size,
    opt_string_view,
};
use crate::depth_quantizer::{Q10ClipParams, p010le, q10, q10_to_p010le, quantize_frame};
use crate::error::{StageError, is_invalid_message};
use crate::text::{decimal, decimal_string, push_str};
use crate::nvenc::{DEFAULT_NVENC_B_FRAMES, NvencPreset, NvencTune};
use crate::common::ImageShape;
use crate::video_artifact::{VideoArtifact, VideoMetadata, metadata_shape, zero_dimension_message};
use crate::nvenc::{ensure_nvenc_device_visible, path_exists};
use crate::video_encoder::{
    EncoderCheck, is_cli_check, is_nvenc_device_refusal,
    DEFAULT_VAAPI_DEVICE, nvenc_check, qp_check, then_check, validate_nvenc_codec,
};

verus! {

pub const DEFAULT_DEPTH_NVENC_H265_QP: u32 = 10;
pub const DEFAULT_DEPTH_NVENC_AV1_QP: u32 = 20;
/// Keyframe interval of lossy depth videos.
pub const DEFAULT_DEPTH_GOP_FRAMES: u32 = 30;

/// Codec configuration for depth video encoding.
#[derive(Clone, Debug, PartialEq)]
pub enum DepthCodecConfig {
    /// HEVC via VA-API; input Q10 quantized P010LE.
    H265Vaapi { qp: u32, device: Option<String> },
    /// AV1 via VA-API; input Q10 quantized P010LE. The quality is given to
    /// FFmpeg as `-global_quality`.
    Av1Vaapi { global_quality: u32, device: Option<String> },
    /// AV1 via SVT-AV1 in software; input Q10 quantized P010LE.
    AV1 { crf: u32, preset: u32 },
    /// HEVC via NVIDIA NVENC; input Q10 quantized P010LE.
    H265Nvenc {
        qp: u32,
        gpu: Option<u32>,
        preset: NvencPreset,
        tune: Option<NvencTune>,
        b_frames: u32,
        rc_lookahead: Option<u32>,
    },
    /// AV1 via NVIDIA NVENC; input Q10 quantized P010LE.
    Av1Nvenc {
        qp: u32,
        gpu: Option<u32>,
        preset: NvencPreset,
        tune: Option<NvencTune>,
        b_frames: u32,
        rc_lookahead: Option<u32>,
    },
    /// FFV1 lossless in an MKV container; input raw gray16le.
    Ffv1,
}

/// Default maximum depth of the Q10 quantization, in millimetres.
pub fn default_depth_max_mm() -> (v: u16)
    ensures
        v == 4092,
{
    4092
}

/// Default depth video frame rate.
pub fn default_depth_fps() -> (v: u32)
    ensures
        v == 30,
{
    30
}

/// Default HEVC VA-API depth quantizer.
pub fn default_depth_hevc_qp() -> (v: u32)
    ensures
        v == 18,
{
    18
}

/// Default HEVC NVENC depth quantizer.
pub fn default_depth_nvenc_h265_qp() -> (v: u32)
    ensures
        v == DEFAULT_DEPTH_NVENC_H265_QP,
{
    DEFAULT_DEPTH_NVENC_H265_QP
}

/// Default AV1 NVENC depth quantizer.
pub fn default_depth_nvenc_av1_qp() -> (v: u32)
    ensures
        v == DEFAULT_DEPTH_NVENC_AV1_QP,
{
    DEFAULT_DEPTH_NVENC_AV1_QP
}

/// Default AV1 VA-API depth global quality.
pub fn default_depth_av1_gq() -> (v: u32)
    ensures
        v == 35,
{
    35
}

/// Default SVT-AV1 depth CRF.
pub fn default_depth_av1_crf() -> (v: u32)
    ensures
        v == 4,
{
    4
}

/// Default SVT-AV1 depth preset.
pub fn default_depth_av1_preset() -> (v: u32)
    ensures
        v == 4,
{
    4
}

/// Default NVENC depth B-frame count (none, so that frames stay in index order).
pub fn default_depth_nvenc_b_frames() -> (v: u32)
    ensures
        v == DEFAULT_NVENC_B_FRAMES,
{
    DEFAULT_NVENC_B_FRAMES
}

/// The default depth codec: SVT-AV1 with CRF 4 and preset 4.
pub open spec fn default_depth_codec() -> DepthCodecConfig {
    DepthCodecConfig::AV1 { crf: 4, preset: 4 }
}

impl Default for DepthCodecConfig {
    fn default() -> (c: Self)
        ensures
            c == default_depth_codec(),
    {
        DepthCodecConfig::AV1 { crf: default_depth_av1_crf(), preset: default_depth_av1_preset() }
    }
}

/// The FFmpeg encoder of a depth codec.
pub open spec fn depth_encoder_name(c: DepthCodecConfig) -> Seq<char> {
    match c {
        DepthCodecConfig::H265Vaapi { .. } => "hevc_vaapi"@,
        DepthCodecConfig::Av1Vaapi { .. } => "av1_vaapi"@,
        DepthCodecConfig::H265Nvenc { .. } => "hevc_nvenc"@,
        DepthCodecConfig::Av1Nvenc { .. } => "av1_nvenc"@,
        DepthCodecConfig::AV1 { .. } => "libsvtav1"@,
        DepthCodecConfig::Ffv1 => "ffv1"@,
    }
}

/// The codec family recorded in depth video metadata.
pub open spec fn depth_codec_family(c: DepthCodecConfig) -> Seq<char> {
    match c {
        DepthCodecConfig::H265Vaapi { .. } | DepthCodecConfig::H265Nvenc { .. } => "h265"@,
        DepthCodecConfig::Av1Vaapi { .. } | DepthCodecConfig::Av1Nvenc { .. }
        | DepthCodecConfig::AV1 { .. } => "av1"@,
        DepthCodecConfig::Ffv1 => "ffv1"@,
    }
}

/// The pixel format fed to the encoder: gray16le for FFV1, P010LE otherwise.
pub open spec fn depth_pix_fmt(c: DepthCodecConfig) -> Seq<char> {
    if c is Ffv1 {
        "gray16le"@
    } else {
        "p010le"@
    }
}

/// Whether a depth codec encodes through VA-API.
pub open spec fn depth_uses_vaapi(c: DepthCodecConfig) -> bool {
    c is H265Vaapi || c is Av1Vaapi
}

/// Whether a depth codec encodes through NVENC.
pub open spec fn depth_uses_nvenc(c: DepthCodecConfig) -> bool {
    c is H265Nvenc || c is Av1Nvenc
}

/// The VA-API device a depth codec opens.
pub open spec fn depth_vaapi_device(c: DepthCodecConfig) -> Option<Seq<char>> {
    match c {
        DepthCodecConfig::H265Vaapi { device, .. } | DepthCodecConfig::Av1Vaapi { device, .. } =>
            match device {
            Some(d) => Some(d@),
            None => Some(DEFAULT_VAAPI_DEVICE@),
        },
        _ => None,
    }
}

/// The container extension of a depth codec: MKV for FFV1, MP4 otherwise.
pub open spec fn depth_extension(c: DepthCodecConfig) -> Seq<char> {
    if c is Ffv1 {
        "mkv"@
    } else {
        "mp4"@
    }
}

/// The validity of a depth codec's options; `Err` holds the refusal.
pub open spec fn depth_codec_validation(c: DepthCodecConfig) -> Result<(), Seq<char>> {
    match c {
        DepthCodecConfig::H265Vaapi { qp, .. } => qp_check(
            qp,
            51,
            "H265_VAAPI depth qp must be between 0 and 51"@,
        ),
        DepthCodecConfig::Av1Vaapi { global_quality, .. } => qp_check(
            global_quality,
            255,
            "AV1_VAAPI depth global_quality must be between 0 and 255"@,
        ),
        DepthCodecConfig::AV1 { crf, preset } => then_check(
            qp_check(crf, 63, "AV1 depth crf must be between 0 and 63"@),
            qp_check(preset, 13, "AV1 depth preset must be between 0 and 13"@),
        ),
        DepthCodecConfig::H265Nvenc { qp, b_frames, rc_lookahead, .. } => nvenc_check(
            "H265_NVENC depth"@,
            qp,
            51,
            "H265_NVENC depth qp must be between 0 and 51"@,
            b_frames,
            rc_lookahead,
        ),
        DepthCodecConfig::Av1Nvenc { qp, b_frames, rc_lookahead, .. } => nvenc_check(
            "AV1_NVENC depth"@,
            qp,
            255,
            "AV1_NVENC depth qp must be between 0 and 255"@,
            b_frames,
            rc_lookahead,
        ),
        DepthCodecConfig::Ffv1 => Ok(()),
    }
}

impl DepthCodecConfig {
    /// Returns the FFmpeg encoder library name.
    pub fn ffmpeg_encoder_name(&self) -> (s: &'static str)
        ensures
            s@ == depth_encoder_name(*self),
    {
        match self {
            DepthCodecConfig::H265Vaapi { .. } => "hevc_vaapi",
            DepthCodecConfig::Av1Vaapi { .. } => "av1_vaapi",
            DepthCodecConfig::H265Nvenc { .. } => "hevc_nvenc",
            DepthCodecConfig::Av1Nvenc { .. } => "av1_nvenc",
            DepthCodecConfig::AV1 { .. } => "libsvtav1",
            DepthCodecConfig::Ffv1 => "ffv1",
        }
    }

    /// Returns true if this codec is lossless (FFV1).
    pub fn is_lossless(&self) -> (b: bool)
        ensures
            b == (*self is Ffv1),
    {
        matches!(self, DepthCodecConfig::Ffv1)
    }

    /// Returns true if this codec uses VA-API hardware acceleration.
    pub fn is_vaapi(&self) -> (b: bool)
        ensures
            b == depth_uses_vaapi(*self),
    {
        matches!(self, DepthCodecConfig::H265Vaapi { .. } | DepthCodecConfig::Av1Vaapi { .. })
    }

    /// Returns true if this codec uses NVIDIA NVENC hardware acceleration.
    pub fn is_nvenc(&self) -> (b: bool)
        ensures
            b == depth_uses_nvenc(*self),
    {
        matches!(self, DepthCodecConfig::H265Nvenc { .. } | DepthCodecConfig::Av1Nvenc { .. })
    }

    /// The VA-API device a VA-API codec opens.
    pub fn vaapi_device_path(&self) -> (r: Option<&str>)
        ensures
            match depth_vaapi_device(*self) {
                Some(d) => r matches Some(p) && p@ == d,
                None => r is None,
            },
    {
        match self {
            DepthCodecConfig::H265Vaapi { device, .. } | DepthCodecConfig::Av1Vaapi {
                device,
                ..
            } => match device {
                Some(d) => Some(d.as_str()),
                None => Some(DEFAULT_VAAPI_DEVICE),
            },
            _ => None,
        }
    }

    /// Returns the video file extension for this codec.
    pub fn video_extension(&self) -> (s: &'static str)
        ensures
            s@ == depth_extension(*self),
    {
        match self {
            DepthCodecConfig::Ffv1 => "mkv",
            _ => "mp4",
        }
    }

    /// The codec family, encoder and input pixel format recorded in metadata.
    pub fn metadata_names(&self) -> (r: (&'static str, &'static str, &'static str))
        ensures
            r.0@ == depth_codec_family(*self),
            r.1@ == depth_encoder_name(*self),
            r.2@ == depth_pix_fmt(*self),
    {
        match self {
            DepthCodecConfig::H265Vaapi { .. } => ("h265", "hevc_vaapi", "p010le"),
            DepthCodecConfig::Av1Vaapi { .. } => ("av1", "av1_vaapi", "p010le"),
            DepthCodecConfig::H265Nvenc { .. } => ("h265", "hevc_nvenc", "p010le"),
            DepthCodecConfig::Av1Nvenc { .. } => ("av1", "av1_nvenc", "p010le"),
            DepthCodecConfig::AV1 { .. } => ("av1", "libsvtav1", "p010le"),
            DepthCodecConfig::Ffv1 => ("ffv1", "ffv1", "gray16le"),
        }
    }

    /// Validates codec-specific options.
    pub fn validate(&self) -> (r: Result<(), StageError>)
        ensures
            match depth_codec_validation(*self) {
                Ok(()) => r is Ok,
                Err(m) => r matches Err(e) && is_invalid_message(e, m),
            },
    {
        match self {
            DepthCodecConfig::H265Vaapi { qp, .. } => {
                if *qp > 51 {
                    return Err(StageError::invalid("H265_VAAPI depth qp must be between 0 and 51"));
                }
                Ok(())
            },
            DepthCodecConfig::Av1Vaapi { global_quality, .. } => {
                if *global_quality > 255 {
                    return Err(
                        StageError::invalid(
                            "AV1_VAAPI depth global_quality must be between 0 and 255",
                        ),
                    );
                }
                Ok(())
            },
            DepthCodecConfig::AV1 { crf, preset } => {
                if *crf > 63 {
                    return Err(StageError::invalid("AV1 depth crf must be between 0 and 63"));
                }
                if *preset > 13 {
                    return Err(StageError::invalid("AV1 depth preset must be between 0 and 13"));
                }
                Ok(())
            },
            DepthCodecConfig::H265Nvenc { qp, b_frames, rc_lookahead, .. } => validate_nvenc_codec(
                "H265_NVENC depth",
                *qp,
                51,
                "H265_NVENC depth qp must be between 0 and 51",
                *b_frames,
                *rc_lookahead,
            ),
            DepthCodecConfig::Av1Nvenc { qp, b_frames, rc_lookahead, .. } => validate_nvenc_codec(
                "AV1_NVENC depth",
                *qp,
                255,
                "AV1_NVENC depth qp must be between 0 and 255",
                *b_frames,
                *rc_lookahead,
            ),
            DepthCodecConfig::Ffv1 => Ok(()),
        }
    }
}

/// Depth video encoding configuration.
#[derive(Clone, Debug, PartialEq)]
pub struct DepthVideoConfig {
    /// Maximum depth in millimetres of the Q10 quantization; deeper pixels
    /// become 0 (invalid). Ignored by FFV1.
    pub depth_max_mm: u16,
    /// Codec-specific configuration.
    pub codec_config: DepthCodecConfig,
    /// Frames per second.
    pub fps: u32,
}

impl Default for DepthVideoConfig {
    fn default() -> (c: Self)
        ensures
            c == (DepthVideoConfig {
                depth_max_mm: 4092,
                codec_config: default_depth_codec(),
                fps: 30,
            }),
    {
        DepthVideoConfig {
            depth_max_mm: default_depth_max_mm(),
            codec_config: DepthCodecConfig::default(),
            fps: default_depth_fps(),
        }
    }
}

/// The validity of a depth video configuration, independent of the machine.
pub open spec fn depth_config_validation(c: DepthVideoConfig) -> Result<(), Seq<char>> {
    if c.fps == 0 {
        Err("depth video fps must be greater than 0"@)
    } else if !(c.codec_config is Ffv1) && c.depth_max_mm == 0 {
        Err("depth_max_mm must be greater than 0 for lossy depth codecs"@)
    } else {
        depth_codec_validation(c.codec_config)
    }
}

/// The check of depth metadata for a `width` x `height` video.
pub open spec fn depth_metadata_check(c: DepthVideoConfig, width: u32, height: u32) -> Result<
    (),
    Seq<char>,
> {
    match depth_config_validation(c) {
        Err(m) => Err(m),
        Ok(()) => if width == 0 || height == 0 {
            Err(zero_dimension_message())
        } else {
            Ok(())
        },
    }
}

/// Whether `m` is the metadata of a depth video encoded with `c` at
/// `width` x `height`, with `json` as its encoding record.
pub open spec fn is_depth_metadata(
    m: VideoMetadata,
    c: DepthVideoConfig,
    width: u32,
    height: u32,
    json: Seq<char>,
) -> bool {
    &&& m.media_type@ == "depth"@
    &&& m.codec_family@ == depth_codec_family(c.codec_config)
    &&& m.encoder_name@ == depth_encoder_name(c.codec_config)
    &&& m.pix_fmt@ == depth_pix_fmt(c.codec_config)
    &&& m.width == width
    &&& m.height == height
    &&& m.fps == c.fps
    &&& m.encoding_config_json@ == json
}

impl DepthVideoConfig {
    /// Validates the configuration independent of machine capabilities.
    pub fn validate(&self) -> (r: Result<(), StageError>)
        ensures
            match depth_config_validation(*self) {
                Ok(()) => r is Ok,
                Err(m) => r matches Err(e) && is_invalid_message(e, m),
            },
    {
        if self.fps == 0 {
            return Err(StageError::invalid("depth video fps must be greater than 0"));
        }
        if !self.codec_config.is_lossless() && self.depth_max_mm == 0 {
            return Err(
                StageError::invalid("depth_max_mm must be greater than 0 for lossy depth codecs"),
            );
        }
        self.codec_config.validate()
    }

    /// Builds the canonical metadata of a depth video encoded with this
    /// configuration; `encoding_config_json` is the configuration's JSON record.
    pub fn video_metadata(&self, width: u32, height: u32, encoding_config_json: String) -> (r:
        Result<VideoMetadata, StageError>)
        ensures
            match depth_metadata_check(*self, width, height) {
                Ok(()) => r matches Ok(m) && is_depth_metadata(
                    m,
                    *self,
                    width,
                    height,
                    encoding_config_json@,
                ),
                Err(m) => r matches Err(e) && is_invalid_message(e, m),
            },
    {
        self.validate()?;
        if width == 0 || height == 0 {
            return Err(StageError::invalid("video metadata requires positive width and height"));
        }
        let (codec_family, encoder_name, pix_fmt) = self.codec_config.metadata_names();
        Ok(VideoMetadata {
            media_type: "depth".to_string(),
            codec_family: codec_family.to_string(),
            encoder_name: encoder_name.to_string(),
            pix_fmt: pix_fmt.to_string(),
            width,
            height,
            fps: self.fps,
            encoding_config_json,
        })
    }

    /// Builds the artifact of a depth video at `video_path`.
    pub fn video_artifact(
        &self,
        video_path: &str,
        width: u32,
        height: u32,
        encoding_config_json: String,
    ) -> (r: Result<VideoArtifact, StageError>)
        ensures
            match depth_metadata_check(*self, width, height) {
                Ok(()) => r matches Ok(a) && a.video_path@ == video_path@ && is_depth_metadata(
                    a.metadata,
                    *self,
                    width,
                    height,
                    encoding_config_json@,
                ),
                Err(m) => r matches Err(e) && is_invalid_message(e, m),
            },
    {
        let metadata = self.video_metadata(width, height, encoding_config_json)?;
        Ok(VideoArtifact { video_path: video_path.to_string(), metadata })
    }
}

/// The pipeline stage that encodes depth frames into video files.
pub struct DepthVideoEncoder {
    pub config: DepthVideoConfig,
}

impl DepthVideoEncoder {
    /// Creates the stage.
    pub fn new(config: DepthVideoConfig) -> (e: Self)
        ensures
            e.config == config,
    {
        DepthVideoEncoder { config }
    }
}

/// The refusal of a frame whose size differs from the first frame of its video.
pub open spec fn dimension_mismatch_message(width: u32, height: u32, got_width: u32, got_height: u32) -> Seq<
    char,
> {
    "Depth frame dimension mismatch: expected "@ + decimal(width as nat) + "x"@ + decimal(
        height as nat,
    ) + ", got "@ + decimal(got_width as nat) + "x"@ + decimal(got_height as nat)
}

/// The encoder input for a frame of depths: the raw values as gray16le for a
/// lossless codec, their Q10 codes packed as P010LE otherwise.
pub open spec fn depth_frame_input(c: DepthVideoConfig, width: u32, height: u32, values: Seq<u16>) -> Seq<
    u8,
> {
    if c.codec_config is Ffv1 {
        gray16le(values)
    } else {
        p010le(values.map_values(|v: u16| q10(c.depth_max_mm, v)), width, height)
    }
}

/// What one `compressedDepth` frame of a video becomes: its size and the bytes
/// for the encoder, or the refusal. `expected` is the size of the video's
/// first frame, when this is not the first.
pub open spec fn depth_frame_encoding(
    frame: DepthFrame,
    expected: Option<(u32, u32)>,
    c: DepthVideoConfig,
) -> Result<(u32, u32, Seq<u8>), Seq<char>> {
    match compressed_depth_decoding(frame.bytes@, opt_string_view(frame.ros_format)) {
        Err(m) => Err(m),
        Ok((w, h, values)) => match expected {
            Some((ew, eh)) => if w != ew || h != eh {
                Err(dimension_mismatch_message(ew, eh, w, h))
            } else {
                Ok((w, h, depth_frame_input(c, w, h, values)))
            },
            None => Ok((w, h, depth_frame_input(c, w, h, values))),
        },
    }
}

/// Decodes one depth frame of a video and produces the bytes to write to the
/// encoder process, with the frame's size.
pub fn encode_depth_frame(
    frame: &DepthFrame,
    expected_size: Option<(u32, u32)>,
    config: &DepthVideoConfig,
) -> (r: Result<(u32, u32, Vec<u8>), StageError>)
    requires
        !(config.codec_config is Ffv1) ==> config.depth_max_mm > 0,
    ensures
        match depth_frame_encoding(*frame, expected_size, *config) {
            Ok((w, h, bytes)) => r matches Ok((rw, rh, rb)) && rw == w && rh == h && rb@ == bytes,
            Err(m) => r matches Err(e) && is_invalid_message(e, m),
        },
{
    let decoded = decode_depth_frame(frame)?;
    proof {
        lemma_decoded_frame_size(frame.bytes@, opt_string_view(frame.ros_format));
    }
    if let Some((width, height)) = expected_size {
        if decoded.width != width || decoded.height != height {
            let mut m = "Depth frame dimension mismatch: expected ".to_string();
            push_str(&mut m, decimal_string(width as u64).as_str());
            push_str(&mut m, "x");
            push_str(&mut m, decimal_string(height as u64).as_str());
            push_str(&mut m, ", got ");
            push_str(&mut m, decimal_string(decoded.width as u64).as_str());
            push_str(&mut m, "x");
            push_str(&mut m, decimal_string(decoded.height as u64).as_str());
            return Err(StageError::invalid_owned(m));
        }
    }
    let bytes = if config.codec_config.is_lossless() {
        decoded.gray16le_bytes()
    } else {
        let params = Q10ClipParams::new(config.depth_max_mm);
        let mut quantized: Vec<u16> = vec![0u16; decoded.values_mm.len()];
        let _clipped = quantize_frame(
            decoded.values_mm.as_slice(),
            &params,
            quantized.as_mut_slice(),
        );
        proof {
            assert(quantized@ =~= decoded.values_mm@.map_values(
                |v: u16| q10(config.depth_max_mm, v),
            ));
        }
        q10_to_p010le(quantized.as_slice(), decoded.width, decoded.height)
    };
    Ok((decoded.width, decoded.height, bytes))
}

/// The file name of a topic's depth video: the flattened topic name with the
/// codec's container extension.
pub fn depth_video_file_name(topic_name: &str, codec: &DepthCodecConfig) -> (r: String)
    ensures
        r@ == flat_file_stem(topic_name@) + "."@ + depth_extension(*codec),
{
    let mut name = topic_name_to_flat_file_stem(topic_name);
    push_str(&mut name, ".");
    push_str(&mut name, codec.video_extension());
    name
}

/// The path of a depth video relative to the bundle root: `videos/<file name>`.
pub fn depth_video_relative_path(file_name: &str) -> (r: String)
    ensures
        r@ == "videos/"@ + file_name@,
{
    let mut path = "videos/".to_string();
    push_str(&mut path, file_name);
    path
}

/// The refusal of a VA-API depth codec whose device file is missing.
pub open spec fn depth_vaapi_missing_message(device: Seq<char>) -> Seq<char> {
    "VA-API depth codec selected but "@ + device
        + " was not found. Mount /dev/dri or choose a software codec explicitly."@
}

impl DepthVideoConfig {
    /// Validates the configuration and checks the devices a hardware codec
    /// needs; returns the encoder the `ffmpeg` program must report.
    ///
    /// The outcome of the device checks depends on the machine; the contract
    /// states what holds either way.
    pub fn preflight(&self) -> (r: Result<EncoderCheck, StageError>)
        ensures
            match depth_config_validation(*self) {
                Err(m) => r matches Err(e) && is_invalid_message(e, m),
                Ok(()) => match depth_vaapi_device(self.codec_config) {
                    Some(d) => is_cli_check(r, depth_encoder_name(self.codec_config)) || (r matches Err(
                        e,
                    ) && is_invalid_message(e, depth_vaapi_missing_message(d))),
                    None => if depth_uses_nvenc(self.codec_config) {
                        is_cli_check(r, depth_encoder_name(self.codec_config))
                            || is_nvenc_device_refusal(r)
                    } else {
                        is_cli_check(r, depth_encoder_name(self.codec_config))
                    },
                },
            },
    {
        self.validate()?;
        if let Some(device) = self.codec_config.vaapi_device_path() {
            if !path_exists(device) {
                let mut m = "VA-API depth codec selected but ".to_string();
                push_str(&mut m, device);
                push_str(
                    &mut m,
                    " was not found. Mount /dev/dri or choose a software codec explicitly.",
                );
                return Err(StageError::invalid_owned(m));
            }
            return Ok(EncoderCheck::Cli(self.codec_config.ffmpeg_encoder_name()));
        }
        if self.codec_config.is_nvenc() {
            match ensure_nvenc_device_visible() {
                Ok(()) => {},
                Err(e) => return Err(e),
            }
        }
        Ok(EncoderCheck::Cli(self.codec_config.ffmpeg_encoder_name()))
    }
}

/// The metadata of a depth video describes single-channel frames of the
/// encoded size.
pub proof fn lemma_depth_metadata_shape(
    m: VideoMetadata,
    c: DepthVideoConfig,
    width: u32,
    height: u32,
    json: Seq<char>,
)
    requires
        is_depth_metadata(m, c, width, height, json),
        depth_metadata_check(c, width, height) is Ok,
    ensures
        metadata_shape(m) == Ok::<ImageShape, Seq<char>>(
            ImageShape { height: height as usize, width: width as usize, channels: 1 },
        ),
{
    assert("depth"@ != "rgb"@) by {
        reveal_strlit("depth");
        reveal_strlit("rgb");
        assert("depth"@.len() != "rgb"@.len());
    }
}

} // verus!
