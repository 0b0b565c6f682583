//! Command lines of the FFmpeg encoder processes.
//!
//! The hardware RGB encoders (VA-API, NVENC) and every depth encoder run the
//! `ffmpeg` program and pipe frames to its standard input. This module builds
//! their argument lists; starting the process is left to the caller.

use vstd::prelude::*;
use crate::error::{StageError, is_invalid_message};
use crate::nvenc::{NvencPreset, NvencTune, preset_name, tune_name};
use crate::text::{decimal, decimal_string, push_str};
use crate::depth_video_encoder::{DEFAULT_DEPTH_GOP_FRAMES, DepthCodecConfig, DepthVideoConfig};
use crate::video_encoder::{
    CodecConfig, DEFAULT_VAAPI_DEVICE, ImageFormat, ScalingFlag, VideoEncoderConfig,
    cli_scale_flag, encoder_name,
};

verus! {

/// The text of each argument.
pub open spec fn arg_views(args: Seq<String>) -> Seq<Seq<char>> {
    args.map_values(|a: String| a@)
}

/// Appends one argument.
fn push_arg(args: &mut Vec<String>, a: &str)
    ensures
        arg_views(final(args)@) == arg_views(old(args)@).push(a@),
{
    args.push(a.to_string());
    proof {
        assert(arg_views(args@) =~= arg_views(old(args)@).push(a@));
    }
}

/// Appends an option and its value.
fn push_pair(args: &mut Vec<String>, option: &str, value: &str)
    ensures
        arg_views(final(args)@) == arg_views(old(args)@) + seq![option@, value@],
{
    push_arg(args, option);
    push_arg(args, value);
    proof {
        assert(arg_views(args@) =~= arg_views(old(args)@) + seq![option@, value@]);
    }
}

/// The `WIDTHxHEIGHT` frame size argument.
pub open spec fn frame_size(width: u32, height: u32) -> Seq<char> {
    decimal(width as nat) + "x"@ + decimal(height as nat)
}

fn frame_size_string(width: u32, height: u32) -> (s: String)
    ensures
        s@ == frame_size(width, height),
{
    let mut s = decimal_string(width as u64);
    push_str(&mut s, "x");
    push_str(&mut s, decimal_string(height as u64).as_str());
    s
}

/// The FFmpeg decoder of an image format piped with image2pipe.
pub open spec fn decoder_name(f: ImageFormat) -> Seq<char> {
    match f {
        ImageFormat::Jpeg => "mjpeg"@,
        ImageFormat::Png => "png"@,
    }
}

/// How frames reach an RGB encoder process.
#[derive(Clone, Copy, Debug, PartialEq, Eq, Structural)]
pub enum FfmpegInput {
    /// Raw RGB24 frames of the given size.
    RawVideo { width: u32, height: u32 },
    /// Encoded JPEG or PNG images, decoded by FFmpeg (image2pipe).
    ImagePipe { format: ImageFormat },
}

/// The arguments every encoder process starts with.
pub open spec fn common_head() -> Seq<Seq<char>> {
    seq!["-hide_banner"@, "-nostats"@, "-loglevel"@, "warning"@, "-y"@]
}

/// The input arguments of an RGB encoder process, reading standard input.
pub open spec fn input_args(input: FfmpegInput, fps: u32) -> Seq<Seq<char>> {
    match input {
        FfmpegInput::RawVideo { width, height } => seq![
            "-f"@,
            "rawvideo"@,
            "-pix_fmt"@,
            "rgb24"@,
            "-s"@,
            frame_size(width, height),
            "-framerate"@,
            decimal(fps as nat),
            "-i"@,
            "pipe:0"@,
        ],
        FfmpegInput::ImagePipe { format } => seq![
            "-f"@,
            "image2pipe"@,
            "-c:v"@,
            decoder_name(format),
            "-framerate"@,
            decimal(fps as nat),
            "-i"@,
            "pipe:0"@,
        ],
    }
}

fn push_head(args: &mut Vec<String>)
    ensures
        arg_views(final(args)@) == arg_views(old(args)@) + common_head(),
{
    push_arg(args, "-hide_banner");
    push_arg(args, "-nostats");
    push_pair(args, "-loglevel", "warning");
    push_arg(args, "-y");
    proof {
        assert(arg_views(args@) =~= arg_views(old(args)@) + common_head());
    }
}

fn push_input(args: &mut Vec<String>, input: FfmpegInput, fps: u32)
    ensures
        arg_views(final(args)@) == arg_views(old(args)@) + input_args(input, fps),
{
    let fps_text = decimal_string(fps as u64);
    match input {
        FfmpegInput::RawVideo { width, height } => {
            push_pair(args, "-f", "rawvideo");
            push_pair(args, "-pix_fmt", "rgb24");
            push_pair(args, "-s", frame_size_string(width, height).as_str());
            push_pair(args, "-framerate", fps_text.as_str());
            push_pair(args, "-i", "pipe:0");
        },
        FfmpegInput::ImagePipe { format } => {
            push_pair(args, "-f", "image2pipe");
            push_pair(args, "-c:v", format.ffmpeg_decoder());
            push_pair(args, "-framerate", fps_text.as_str());
            push_pair(args, "-i", "pipe:0");
        },
    }
    proof {
        assert(arg_views(args@) =~= arg_views(old(args)@) + input_args(input, fps));
    }
}

/// The `-vf` filter chain of a hardware encoder: a `scale` filter when a
/// resize is configured (with `:flags=` unless the scaling flag is the
/// default), followed by `tail`.
pub open spec fn scaled_filter(c: VideoEncoderConfig, tail: Seq<char>) -> Result<
    Seq<char>,
    Seq<char>,
> {
    match c.resize {
        Some(r) => match cli_scale_flag(c.scaling) {
            Err(m) => Err(m),
            Ok(flag) => Ok(
                "scale="@ + decimal(r.width as nat) + ":"@ + decimal(r.height as nat) + match flag {
                    Some(f) => ":flags="@ + f,
                    None => Seq::<char>::empty(),
                } + ","@ + tail,
            ),
        },
        None => Ok(tail),
    }
}

/// Builds the `-vf` filter chain that ends with `tail`.
pub fn scaled_video_filter(config: &VideoEncoderConfig, tail: &str) -> (r: Result<
    String,
    StageError,
>)
    ensures
        match scaled_filter(*config, tail@) {
            Ok(f) => r matches Ok(s) && s@ == f,
            Err(m) => r matches Err(e) && is_invalid_message(e, m),
        },
{
    match config.resize {
        Some(resize) => {
            let flag = config.scaling.ffmpeg_cli_scale_flag()?;
            let mut filter = "scale=".to_string();
            push_str(&mut filter, decimal_string(resize.width as u64).as_str());
            push_str(&mut filter, ":");
            push_str(&mut filter, decimal_string(resize.height as u64).as_str());
            if let Some(f) = flag {
                push_str(&mut filter, ":flags=");
                push_str(&mut filter, f);
            }
            push_str(&mut filter, ",");
            push_str(&mut filter, tail);
            Ok(filter)
        },
        None => Ok(tail.to_string()),
    }
}

/// The filter chain of the VA-API encoder: convert to NV12 and upload to the GPU.
pub fn vaapi_video_filter(config: &VideoEncoderConfig) -> (r: Result<String, StageError>)
    ensures
        match scaled_filter(*config, "format=nv12,hwupload"@) {
            Ok(f) => r matches Ok(s) && s@ == f,
            Err(m) => r matches Err(e) && is_invalid_message(e, m),
        },
{
    scaled_video_filter(config, "format=nv12,hwupload")
}

/// The filter chain of the NVENC encoder: convert to yuv420p.
pub fn nvenc_video_filter(config: &VideoEncoderConfig) -> (r: Result<String, StageError>)
    ensures
        match scaled_filter(*config, "format=yuv420p"@) {
            Ok(f) => r matches Ok(s) && s@ == f,
            Err(m) => r matches Err(e) && is_invalid_message(e, m),
        },
{
    scaled_video_filter(config, "format=yuv420p")
}

/// An option followed by a number, when the number is given.
pub open spec fn opt_number(option: Seq<char>, value: Option<u32>) -> Seq<Seq<char>> {
    match value {
        Some(v) => seq![option, decimal(v as nat)],
        None => Seq::empty(),
    }
}

/// An option followed by a text, when the text is given.
pub open spec fn opt_text(option: Seq<char>, value: Option<String>) -> Seq<Seq<char>> {
    match value {
        Some(v) => seq![option, v@],
        None => Seq::empty(),
    }
}

fn push_opt_number(args: &mut Vec<String>, option: &str, value: Option<u32>)
    ensures
        arg_views(final(args)@) == arg_views(old(args)@) + opt_number(option@, value),
{
    match value {
        Some(v) => push_pair(args, option, decimal_string(v as u64).as_str()),
        None => {
            assert(arg_views(args@) =~= arg_views(args@) + opt_number(option@, value));
        },
    }
}

fn push_opt_text(args: &mut Vec<String>, option: &str, value: &Option<String>)
    ensures
        arg_views(final(args)@) == arg_views(old(args)@) + opt_text(option@, *value),
{
    match value {
        Some(v) => push_pair(args, option, v.as_str()),
        None => {
            assert(arg_views(args@) =~= arg_views(args@) + opt_text(option@, *value));
        },
    }
}

// ============================================================================
// VA-API
// ============================================================================

/// The VA-API device given, or the default render node.
pub open spec fn device_or_default(device: Option<String>) -> Seq<char> {
    match device {
        Some(d) => d@,
        None => DEFAULT_VAAPI_DEVICE@,
    }
}

/// The quality and rate-control arguments of a VA-API encoder, the profile
/// and the optional depths: AV1 takes its quality as `-global_quality` and
/// defaults to the `main` profile; H.264 and HEVC take `-qp`.
pub open spec fn vaapi_codec_args(
    gop: u32,
    is_av1: bool,
    qp: u32,
    profile: Option<String>,
    b_depth: Option<u32>,
    async_depth: Option<u32>,
) -> Seq<Seq<char>> {
    (if is_av1 {
        seq!["-global_quality"@, decimal(qp as nat)]
    } else {
        seq!["-qp"@, decimal(qp as nat)]
    }) + seq!["-g"@, decimal(gop as nat), "-rc_mode"@, "CQP"@] + (match profile {
        Some(p) => seq!["-profile:v"@, p@],
        None => if is_av1 {
            seq!["-profile:v"@, "main"@]
        } else {
            Seq::empty()
        },
    }) + opt_number("-b_depth"@, b_depth) + opt_number("-async_depth"@, async_depth)
}

fn push_vaapi_codec(
    args: &mut Vec<String>,
    gop: u32,
    is_av1: bool,
    qp: u32,
    profile: &Option<String>,
    b_depth: Option<u32>,
    async_depth: Option<u32>,
)
    ensures
        arg_views(final(args)@) == arg_views(old(args)@) + vaapi_codec_args(
            gop,
            is_av1,
            qp,
            *profile,
            b_depth,
            async_depth,
        ),
{
    let qp_text = decimal_string(qp as u64);
    if is_av1 {
        push_pair(args, "-global_quality", qp_text.as_str());
    } else {
        push_pair(args, "-qp", qp_text.as_str());
    }
    push_pair(args, "-g", decimal_string(gop as u64).as_str());
    push_pair(args, "-rc_mode", "CQP");
    match profile {
        Some(p) => push_pair(args, "-profile:v", p.as_str()),
        None => {
            if is_av1 {
                push_pair(args, "-profile:v", "main");
            }
        },
    }
    push_opt_number(args, "-b_depth", b_depth);
    push_opt_number(args, "-async_depth", async_depth);
    proof {
        assert(arg_views(args@) =~= arg_views(old(args)@) + vaapi_codec_args(
            gop,
            is_av1,
            qp,
            *profile,
            b_depth,
            async_depth,
        ));
    }
}

/// The arguments of a VA-API encoder once the codec's options are known.
pub open spec fn vaapi_args_for(
    c: VideoEncoderConfig,
    input: FfmpegInput,
    out: Seq<char>,
    encoder: Seq<char>,
    is_av1: bool,
    qp: u32,
    device: Option<String>,
    profile: Option<String>,
    b_depth: Option<u32>,
    async_depth: Option<u32>,
) -> Result<Seq<Seq<char>>, Seq<char>> {
    match scaled_filter(c, "format=nv12,hwupload"@) {
        Err(m) => Err(m),
        Ok(filter) => Ok(
            common_head() + input_args(input, c.fps) + seq![
                "-vaapi_device"@,
                device_or_default(device),
                "-vf"@,
                filter,
                "-c:v"@,
                encoder,
            ] + vaapi_codec_args(c.gop, is_av1, qp, profile, b_depth, async_depth) + seq![out],
        ),
    }
}

/// The arguments of the VA-API RGB encoder process, or the refusal.
pub open spec fn vaapi_arg_list(c: VideoEncoderConfig, input: FfmpegInput, out: Seq<char>) -> Result<
    Seq<Seq<char>>,
    Seq<char>,
> {
    match c.codec_config {
        CodecConfig::H264Vaapi { qp, device, profile, b_depth, async_depth } => vaapi_args_for(
            c,
            input,
            out,
            "h264_vaapi"@,
            false,
            qp,
            device,
            profile,
            b_depth,
            async_depth,
        ),
        CodecConfig::H265Vaapi { qp, device, profile, async_depth } => vaapi_args_for(
            c,
            input,
            out,
            "hevc_vaapi"@,
            false,
            qp,
            device,
            profile,
            None,
            async_depth,
        ),
        CodecConfig::Av1Vaapi { qp, device, profile, b_depth, async_depth } => vaapi_args_for(
            c,
            input,
            out,
            "av1_vaapi"@,
            true,
            qp,
            device,
            profile,
            b_depth,
            async_depth,
        ),
        _ => Err("VaapiVideoEncoder requires a VA-API codec config"@),
    }
}

/// Builds the arguments of the VA-API RGB encoder process writing `output_path`.
pub fn vaapi_ffmpeg_args(config: &VideoEncoderConfig, input: FfmpegInput, output_path: &str) -> (r:
    Result<Vec<String>, StageError>)
    ensures
        match vaapi_arg_list(*config, input, output_path@) {
            Ok(a) => r matches Ok(v) && arg_views(v@) == a,
            Err(m) => r matches Err(e) && is_invalid_message(e, m),
        },
{
    let (encoder, is_av1, qp, device, profile, b_depth, async_depth) = match &config.codec_config {
        CodecConfig::H264Vaapi { qp, device, profile, b_depth, async_depth } => (
            "h264_vaapi",
            false,
            *qp,
            device,
            profile,
            *b_depth,
            *async_depth,
        ),
        CodecConfig::H265Vaapi { qp, device, profile, async_depth } => (
            "hevc_vaapi",
            false,
            *qp,
            device,
            profile,
            None,
            *async_depth,
        ),
        CodecConfig::Av1Vaapi { qp, device, profile, b_depth, async_depth } => (
            "av1_vaapi",
            true,
            *qp,
            device,
            profile,
            *b_depth,
            *async_depth,
        ),
        _ => return Err(StageError::invalid("VaapiVideoEncoder requires a VA-API codec config")),
    };
    let filter = vaapi_video_filter(config)?;
    let mut args: Vec<String> = Vec::new();
    push_head(&mut args);
    push_input(&mut args, input, config.fps);
    match device {
        Some(d) => push_pair(&mut args, "-vaapi_device", d.as_str()),
        None => push_pair(&mut args, "-vaapi_device", DEFAULT_VAAPI_DEVICE),
    }
    push_pair(&mut args, "-vf", filter.as_str());
    push_pair(&mut args, "-c:v", encoder);
    push_vaapi_codec(&mut args, config.gop, is_av1, qp, profile, b_depth, async_depth);
    push_arg(&mut args, output_path);
    proof {
        assert(arg_views(args@) =~= vaapi_arg_list(*config, input, output_path@)->Ok_0);
    }
    Ok(args)
}

// ============================================================================
// NVENC
// ============================================================================

/// The optional NVENC arguments: B-frame reference mode, look-ahead, tune and GPU.
pub open spec fn nvenc_extra_args(
    b_frames: u32,
    rc_lookahead: Option<u32>,
    tune: Option<NvencTune>,
    gpu: Option<u32>,
) -> Seq<Seq<char>> {
    (if b_frames > 0 {
        seq!["-b_ref_mode"@, "middle"@]
    } else {
        Seq::empty()
    }) + opt_number("-rc-lookahead"@, rc_lookahead) + (match tune {
        Some(t) => seq!["-tune"@, tune_name(t)],
        None => Seq::empty(),
    }) + opt_number("-gpu"@, gpu)
}

fn push_nvenc_extra(
    args: &mut Vec<String>,
    b_frames: u32,
    rc_lookahead: Option<u32>,
    tune: Option<NvencTune>,
    gpu: Option<u32>,
)
    ensures
        arg_views(final(args)@) == arg_views(old(args)@) + nvenc_extra_args(
            b_frames,
            rc_lookahead,
            tune,
            gpu,
        ),
{
    if b_frames > 0 {
        push_pair(args, "-b_ref_mode", "middle");
    }
    push_opt_number(args, "-rc-lookahead", rc_lookahead);
    if let Some(t) = tune {
        push_pair(args, "-tune", t.as_str());
    }
    push_opt_number(args, "-gpu", gpu);
    proof {
        assert(arg_views(args@) =~= arg_views(old(args)@) + nvenc_extra_args(
            b_frames,
            rc_lookahead,
            tune,
            gpu,
        ));
    }
}

/// The NVENC rate-control arguments: constant QP, GOP, B-frames and preset.
pub open spec fn nvenc_rate_args(qp: u32, gop: u32, b_frames: u32, preset: NvencPreset) -> Seq<
    Seq<char>,
> {
    seq![
        "-rc"@,
        "constqp"@,
        "-qp"@,
        decimal(qp as nat),
        "-g"@,
        decimal(gop as nat),
        "-bf"@,
        decimal(b_frames as nat),
        "-preset"@,
        preset_name(preset),
    ]
}

fn push_nvenc_rate(args: &mut Vec<String>, qp: u32, gop: u32, b_frames: u32, preset: NvencPreset)
    ensures
        arg_views(final(args)@) == arg_views(old(args)@) + nvenc_rate_args(
            qp,
            gop,
            b_frames,
            preset,
        ),
{
    push_pair(args, "-rc", "constqp");
    push_pair(args, "-qp", decimal_string(qp as u64).as_str());
    push_pair(args, "-g", decimal_string(gop as u64).as_str());
    push_pair(args, "-bf", decimal_string(b_frames as u64).as_str());
    push_pair(args, "-preset", preset.as_str());
    proof {
        assert(arg_views(args@) =~= arg_views(old(args)@) + nvenc_rate_args(
            qp,
            gop,
            b_frames,
            preset,
        ));
    }
}

/// The arguments of an NVENC RGB encoder once the codec's options are known.
pub open spec fn nvenc_args_for(
    c: VideoEncoderConfig,
    input: FfmpegInput,
    out: Seq<char>,
    encoder: Seq<char>,
    qp: u32,
    gpu: Option<u32>,
    preset: NvencPreset,
    tune: Option<NvencTune>,
    profile: Option<String>,
    b_frames: u32,
    rc_lookahead: Option<u32>,
) -> Result<Seq<Seq<char>>, Seq<char>> {
    match scaled_filter(c, "format=yuv420p"@) {
        Err(m) => Err(m),
        Ok(filter) => Ok(
            common_head() + input_args(input, c.fps) + seq!["-vf"@, filter, "-c:v"@, encoder]
                + nvenc_rate_args(qp, c.gop, b_frames, preset) + nvenc_extra_args(
                b_frames,
                rc_lookahead,
                tune,
                gpu,
            ) + opt_text("-profile:v"@, profile) + seq![out],
        ),
    }
}

/// The arguments of the NVENC RGB encoder process, or the refusal.
pub open spec fn nvenc_arg_list(c: VideoEncoderConfig, input: FfmpegInput, out: Seq<char>) -> Result<
    Seq<Seq<char>>,
    Seq<char>,
> {
    match c.codec_config {
        CodecConfig::H264Nvenc { qp, gpu, preset, tune, profile, b_frames, rc_lookahead } =>
            nvenc_args_for(
            c,
            input,
            out,
            "h264_nvenc"@,
            qp,
            gpu,
            preset,
            tune,
            profile,
            b_frames,
            rc_lookahead,
        ),
        CodecConfig::H265Nvenc { qp, gpu, preset, tune, profile, b_frames, rc_lookahead } =>
            nvenc_args_for(
            c,
            input,
            out,
            "hevc_nvenc"@,
            qp,
            gpu,
            preset,
            tune,
            profile,
            b_frames,
            rc_lookahead,
        ),
        CodecConfig::Av1Nvenc { qp, gpu, preset, tune, profile, b_frames, rc_lookahead } =>
            nvenc_args_for(
            c,
            input,
            out,
            "av1_nvenc"@,
            qp,
            gpu,
            preset,
            tune,
            profile,
            b_frames,
            rc_lookahead,
        ),
        _ => Err("NvencVideoEncoder requires an NVENC codec config"@),
    }
}

/// Builds the arguments of the NVENC RGB encoder process writing `output_path`.
pub fn nvenc_ffmpeg_args(config: &VideoEncoderConfig, input: FfmpegInput, output_path: &str) -> (r:
    Result<Vec<String>, StageError>)
    ensures
        match nvenc_arg_list(*config, input, output_path@) {
            Ok(a) => r matches Ok(v) && arg_views(v@) == a,
            Err(m) => r matches Err(e) && is_invalid_message(e, m),
        },
{
    let (encoder, qp, gpu, preset, tune, profile, b_frames, rc_lookahead) =
        match &config.codec_config {
        CodecConfig::H264Nvenc { qp, gpu, preset, tune, profile, b_frames, rc_lookahead } => (
            "h264_nvenc",
            *qp,
            *gpu,
            *preset,
            *tune,
            profile,
            *b_frames,
            *rc_lookahead,
        ),
        CodecConfig::H265Nvenc { qp, gpu, preset, tune, profile, b_frames, rc_lookahead } => (
            "hevc_nvenc",
            *qp,
            *gpu,
            *preset,
            *tune,
            profile,
            *b_frames,
            *rc_lookahead,
        ),
        CodecConfig::Av1Nvenc { qp, gpu, preset, tune, profile, b_frames, rc_lookahead } => (
            "av1_nvenc",
            *qp,
            *gpu,
            *preset,
            *tune,
            profile,
            *b_frames,
            *rc_lookahead,
        ),
        _ => return Err(StageError::invalid("NvencVideoEncoder requires an NVENC codec config")),
    };
    let filter = nvenc_video_filter(config)?;
    let mut args: Vec<String> = Vec::new();
    push_head(&mut args);
    push_input(&mut args, input, config.fps);
    push_pair(&mut args, "-vf", filter.as_str());
    push_pair(&mut args, "-c:v", encoder);
    push_nvenc_rate(&mut args, qp, config.gop, b_frames, preset);
    push_nvenc_extra(&mut args, b_frames, rc_lookahead, tune, gpu);
    push_opt_text(&mut args, "-profile:v", profile);
    push_arg(&mut args, output_path);
    proof {
        assert(arg_views(args@) =~= nvenc_arg_list(*config, input, output_path@)->Ok_0);
    }
    Ok(args)
}

// ============================================================================
// Depth
// ============================================================================

/// The raw-video input arguments of a depth encoder in pixel format `pix_fmt`.
pub open spec fn depth_input_args(pix_fmt: Seq<char>, size: Seq<char>, fps: Seq<char>) -> Seq<
    Seq<char>,
> {
    seq!["-f"@, "rawvideo"@, "-pix_fmt"@, pix_fmt, "-s"@, size, "-framerate"@, fps, "-i"@, "pipe:0"@]
}

fn push_depth_input(args: &mut Vec<String>, pix_fmt: &str, size: &str, fps: &str)
    ensures
        arg_views(final(args)@) == arg_views(old(args)@) + depth_input_args(pix_fmt@, size@, fps@),
{
    push_pair(args, "-f", "rawvideo");
    push_pair(args, "-pix_fmt", pix_fmt);
    push_pair(args, "-s", size);
    push_pair(args, "-framerate", fps);
    push_pair(args, "-i", "pipe:0");
    proof {
        assert(arg_views(args@) =~= arg_views(old(args)@) + depth_input_args(
            pix_fmt@,
            size@,
            fps@,
        ));
    }
}

/// The arguments of a VA-API depth encoder: full-range P010 frames uploaded to
/// the GPU, constant-QP rate control.
pub open spec fn depth_vaapi_args(
    size: Seq<char>,
    fps: Seq<char>,
    device: Option<String>,
    encoder: Seq<char>,
    profile: Seq<char>,
    quality_option: Seq<char>,
    quality: u32,
) -> Seq<Seq<char>> {
    seq!["-color_range"@, "pc"@] + depth_input_args("p010le"@, size, fps) + seq![
        "-vaapi_device"@,
        device_or_default(device),
        "-vf"@,
        "format=p010,hwupload"@,
        "-c:v"@,
        encoder,
        "-profile:v"@,
        profile,
        quality_option,
        decimal(quality as nat),
        "-g"@,
        decimal(DEFAULT_DEPTH_GOP_FRAMES as nat),
        "-rc_mode"@,
        "CQP"@,
    ]
}

fn push_depth_vaapi(
    args: &mut Vec<String>,
    size: &str,
    fps: &str,
    device: &Option<String>,
    encoder: &str,
    profile: &str,
    quality_option: &str,
    quality: u32,
)
    ensures
        arg_views(final(args)@) == arg_views(old(args)@) + depth_vaapi_args(
            size@,
            fps@,
            *device,
            encoder@,
            profile@,
            quality_option@,
            quality,
        ),
{
    push_pair(args, "-color_range", "pc");
    push_depth_input(args, "p010le", size, fps);
    match device {
        Some(d) => push_pair(args, "-vaapi_device", d.as_str()),
        None => push_pair(args, "-vaapi_device", DEFAULT_VAAPI_DEVICE),
    }
    push_pair(args, "-vf", "format=p010,hwupload");
    push_pair(args, "-c:v", encoder);
    push_pair(args, "-profile:v", profile);
    push_pair(args, quality_option, decimal_string(quality as u64).as_str());
    push_pair(args, "-g", decimal_string(DEFAULT_DEPTH_GOP_FRAMES as u64).as_str());
    push_pair(args, "-rc_mode", "CQP");
    proof {
        assert(arg_views(args@) =~= arg_views(old(args)@) + depth_vaapi_args(
            size@,
            fps@,
            *device,
            encoder@,
            profile@,
            quality_option@,
            quality,
        ));
    }
}

/// The arguments of an NVENC depth encoder: full-range P010 in and out,
/// constant-QP rate control; HEVC adds the `main10` profile.
pub open spec fn depth_nvenc_args(
    size: Seq<char>,
    fps: Seq<char>,
    encoder: Seq<char>,
    main10: bool,
    qp: u32,
    gpu: Option<u32>,
    preset: NvencPreset,
    tune: Option<NvencTune>,
    b_frames: u32,
    rc_lookahead: Option<u32>,
) -> Seq<Seq<char>> {
    seq!["-color_range"@, "pc"@] + depth_input_args("p010le"@, size, fps) + seq!["-c:v"@, encoder]
        + (if main10 {
        seq!["-profile:v"@, "main10"@]
    } else {
        Seq::empty()
    }) + seq!["-pix_fmt"@, "p010le"@, "-color_range"@, "pc"@] + nvenc_rate_args(
        qp,
        DEFAULT_DEPTH_GOP_FRAMES,
        b_frames,
        preset,
    ) + nvenc_extra_args(b_frames, rc_lookahead, tune, gpu)
}

fn push_depth_nvenc(
    args: &mut Vec<String>,
    size: &str,
    fps: &str,
    encoder: &str,
    main10: bool,
    qp: u32,
    gpu: Option<u32>,
    preset: NvencPreset,
    tune: Option<NvencTune>,
    b_frames: u32,
    rc_lookahead: Option<u32>,
)
    ensures
        arg_views(final(args)@) == arg_views(old(args)@) + depth_nvenc_args(
            size@,
            fps@,
            encoder@,
            main10,
            qp,
            gpu,
            preset,
            tune,
            b_frames,
            rc_lookahead,
        ),
{
    push_pair(args, "-color_range", "pc");
    push_depth_input(args, "p010le", size, fps);
    push_pair(args, "-c:v", encoder);
    if main10 {
        push_pair(args, "-profile:v", "main10");
    }
    push_pair(args, "-pix_fmt", "p010le");
    push_pair(args, "-color_range", "pc");
    push_nvenc_rate(args, qp, DEFAULT_DEPTH_GOP_FRAMES, b_frames, preset);
    push_nvenc_extra(args, b_frames, rc_lookahead, tune, gpu);
    proof {
        assert(arg_views(args@) =~= arg_views(old(args)@) + depth_nvenc_args(
            size@,
            fps@,
            encoder@,
            main10,
            qp,
            gpu,
            preset,
            tune,
            b_frames,
            rc_lookahead,
        ));
    }
}

/// The codec arguments of a depth encoder process, without the common head
/// and the output path.
pub open spec fn depth_codec_args(width: u32, height: u32, c: DepthVideoConfig) -> Seq<Seq<char>> {
    let size = frame_size(width, height);
    let fps = decimal(c.fps as nat);
    match c.codec_config {
        DepthCodecConfig::H265Vaapi { qp, device } => depth_vaapi_args(
            size,
            fps,
            device,
            "hevc_vaapi"@,
            "main10"@,
            "-qp"@,
            qp,
        ),
        DepthCodecConfig::Av1Vaapi { global_quality, device } => depth_vaapi_args(
            size,
            fps,
            device,
            "av1_vaapi"@,
            "main"@,
            "-global_quality"@,
            global_quality,
        ),
        DepthCodecConfig::H265Nvenc { qp, gpu, preset, tune, b_frames, rc_lookahead } =>
            depth_nvenc_args(
            size,
            fps,
            "hevc_nvenc"@,
            true,
            qp,
            gpu,
            preset,
            tune,
            b_frames,
            rc_lookahead,
        ),
        DepthCodecConfig::Av1Nvenc { qp, gpu, preset, tune, b_frames, rc_lookahead } =>
            depth_nvenc_args(
            size,
            fps,
            "av1_nvenc"@,
            false,
            qp,
            gpu,
            preset,
            tune,
            b_frames,
            rc_lookahead,
        ),
        DepthCodecConfig::AV1 { crf, preset } => depth_input_args("p010le"@, size, fps) + seq![
            "-c:v"@,
            "libsvtav1"@,
            "-preset"@,
            decimal(preset as nat),
            "-crf"@,
            decimal(crf as nat),
            "-g"@,
            decimal(DEFAULT_DEPTH_GOP_FRAMES as nat),
            "-pix_fmt"@,
            "yuv420p10le"@,
        ],
        DepthCodecConfig::Ffv1 => depth_input_args("gray16le"@, size, fps) + seq![
            "-c:v"@,
            "ffv1"@,
            "-level"@,
            "3"@,
            "-coder"@,
            "1"@,
            "-context"@,
            "1"@,
            "-g"@,
            "1"@,
            "-slicecrc"@,
            "1"@,
        ],
    }
}

/// The arguments of the depth encoder process writing `out`.
pub open spec fn depth_arg_list(width: u32, height: u32, c: DepthVideoConfig, out: Seq<char>) -> Seq<
    Seq<char>,
> {
    common_head() + depth_codec_args(width, height, c) + seq![out]
}

fn push_depth_codec(args: &mut Vec<String>, width: u32, height: u32, config: &DepthVideoConfig)
    ensures
        arg_views(final(args)@) == arg_views(old(args)@) + depth_codec_args(width, height, *config),
{
    let size = frame_size_string(width, height);
    let fps = decimal_string(config.fps as u64);
    match &config.codec_config {
        DepthCodecConfig::H265Vaapi { qp, device } => push_depth_vaapi(
            args,
            size.as_str(),
            fps.as_str(),
            device,
            "hevc_vaapi",
            "main10",
            "-qp",
            *qp,
        ),
        DepthCodecConfig::Av1Vaapi { global_quality, device } => push_depth_vaapi(
            args,
            size.as_str(),
            fps.as_str(),
            device,
            "av1_vaapi",
            "main",
            "-global_quality",
            *global_quality,
        ),
        DepthCodecConfig::H265Nvenc { qp, gpu, preset, tune, b_frames, rc_lookahead } =>
            push_depth_nvenc(
            args,
            size.as_str(),
            fps.as_str(),
            "hevc_nvenc",
            true,
            *qp,
            *gpu,
            *preset,
            *tune,
            *b_frames,
            *rc_lookahead,
        ),
        DepthCodecConfig::Av1Nvenc { qp, gpu, preset, tune, b_frames, rc_lookahead } =>
            push_depth_nvenc(
            args,
            size.as_str(),
            fps.as_str(),
            "av1_nvenc",
            false,
            *qp,
            *gpu,
            *preset,
            *tune,
            *b_frames,
            *rc_lookahead,
        ),
        DepthCodecConfig::AV1 { crf, preset } => {
            push_depth_input(args, "p010le", size.as_str(), fps.as_str());
            push_pair(args, "-c:v", "libsvtav1");
            push_pair(args, "-preset", decimal_string(*preset as u64).as_str());
            push_pair(args, "-crf", decimal_string(*crf as u64).as_str());
            push_pair(args, "-g", decimal_string(DEFAULT_DEPTH_GOP_FRAMES as u64).as_str());
            push_pair(args, "-pix_fmt", "yuv420p10le");
            proof {
                assert(arg_views(args@) =~= arg_views(old(args)@) + depth_codec_args(
                    width,
                    height,
                    *config,
                ));
            }
        },
        DepthCodecConfig::Ffv1 => {
            push_depth_input(args, "gray16le", size.as_str(), fps.as_str());
            push_pair(args, "-c:v", "ffv1");
            push_pair(args, "-level", "3");
            push_pair(args, "-coder", "1");
            push_pair(args, "-context", "1");
            push_pair(args, "-g", "1");
            push_pair(args, "-slicecrc", "1");
            proof {
                assert(arg_views(args@) =~= arg_views(old(args)@) + depth_codec_args(
                    width,
                    height,
                    *config,
                ));
            }
        },
    }
}

/// Builds the arguments of the depth encoder process for `width` x `height`
/// frames, writing `output_path`.
pub fn depth_ffmpeg_args(width: u32, height: u32, config: &DepthVideoConfig, output_path: &str) -> (r:
    Vec<String>)
    ensures
        arg_views(r@) == depth_arg_list(width, height, *config, output_path@),
{
    let mut args: Vec<String> = Vec::new();
    push_head(&mut args);
    push_depth_codec(&mut args, width, height, config);
    push_arg(&mut args, output_path);
    proof {
        assert(arg_views(args@) =~= depth_arg_list(width, height, *config, output_path@));
    }
    args
}

/// The NVENC command line encodes with the codec's own encoder: right after
/// the input and the video filter, `-c:v` is followed by the encoder that the
/// codec names (the one its metadata records).
pub proof fn lemma_nvenc_encoder_matches_codec(c: VideoEncoderConfig, input: FfmpegInput, out: Seq<char>)
    ensures
        nvenc_arg_list(c, input, out) matches Ok(a) ==> {
            let k = (common_head().len() + input_args(input, c.fps).len() + 2) as int;
            &&& k + 1 < a.len()
            &&& a[k] == "-c:v"@
            &&& a[k + 1] == encoder_name(c.codec_config)
        },
{
    if let Ok(a) = nvenc_arg_list(c, input, out) {
        let k = (common_head().len() + input_args(input, c.fps).len() + 2) as int;
        let head = common_head() + input_args(input, c.fps);
        assert(head.len() == k - 2);
        match scaled_filter(c, "format=yuv420p"@) {
            Ok(filter) => {
                let mid = seq!["-vf"@, filter, "-c:v"@, encoder_name(c.codec_config)];
                assert(a.subrange(k - 2, k + 2) =~= mid) by {
                    assert(a[k - 2] == "-vf"@);
                }
            },
            Err(_) => {},
        }
    }
}

/// The VA-API command line encodes with the codec's own encoder: right after
/// the input, the device and the video filter, `-c:v` is followed by the
/// encoder that the codec names (the one its metadata records).
pub proof fn lemma_vaapi_encoder_matches_codec(c: VideoEncoderConfig, input: FfmpegInput, out: Seq<char>)
    ensures
        vaapi_arg_list(c, input, out) matches Ok(a) ==> {
            let k = (common_head().len() + input_args(input, c.fps).len() + 4) as int;
            &&& k + 1 < a.len()
            &&& a[k] == "-c:v"@
            &&& a[k + 1] == encoder_name(c.codec_config)
        },
{
}

} // verus!
