//! NVIDIA NVENC presets, tunes and option limits.

use vstd::prelude::*;
use crate::error::{StageError, is_invalid_message};
use crate::text::push_str;

verus! {

pub const DEFAULT_NVENC_AV1_QP: u32 = 130;
pub const DEFAULT_NVENC_AV1_PRESET: NvencPreset = NvencPreset::P7;
pub const DEFAULT_NVENC_H264_QP: u32 = 26;
pub const DEFAULT_NVENC_H264_PRESET: NvencPreset = NvencPreset::P5;
pub const DEFAULT_NVENC_H264_TUNE: NvencTune = NvencTune::Hq;
pub const DEFAULT_NVENC_H264_PROFILE: &'static str = "high";
pub const DEFAULT_NVENC_H264_B_FRAMES: u32 = 1;
pub const DEFAULT_NVENC_H264_RC_LOOKAHEAD: u32 = 32;
pub const DEFAULT_NVENC_B_FRAMES: u32 = 0;
pub const MAX_NVENC_B_FRAMES: u32 = 7;
pub const MAX_NVENC_RC_LOOKAHEAD: u32 = 120;

/// NVENC preset, from P1 (fastest) to P7 (slowest, best compression).
#[derive(Debug, Clone, Copy, PartialEq, Eq, Structural)]
pub enum NvencPreset {
    P1,
    P2,
    P3,
    P4,
    P5,
    P6,
    P7,
}

impl Default for NvencPreset {
    fn default() -> (p: Self)
        ensures
            p == NvencPreset::P4,
    {
        NvencPreset::P4
    }
}

/// The FFmpeg spelling of a preset.
pub open spec fn preset_name(p: NvencPreset) -> Seq<char> {
    match p {
        NvencPreset::P1 => "p1"@,
        NvencPreset::P2 => "p2"@,
        NvencPreset::P3 => "p3"@,
        NvencPreset::P4 => "p4"@,
        NvencPreset::P5 => "p5"@,
        NvencPreset::P6 => "p6"@,
        NvencPreset::P7 => "p7"@,
    }
}

impl NvencPreset {
    /// Returns the FFmpeg preset string.
    pub fn as_str(self) -> (s: &'static str)
        ensures
            s@ == preset_name(self),
    {
        match self {
            NvencPreset::P1 => "p1",
            NvencPreset::P2 => "p2",
            NvencPreset::P3 => "p3",
            NvencPreset::P4 => "p4",
            NvencPreset::P5 => "p5",
            NvencPreset::P6 => "p6",
            NvencPreset::P7 => "p7",
        }
    }
}

/// NVENC tuning.
#[derive(Debug, Clone, Copy, PartialEq, Eq, Structural)]
pub enum NvencTune {
    Hq,
    Ll,
    Ull,
}

/// The FFmpeg spelling of a tune.
pub open spec fn tune_name(t: NvencTune) -> Seq<char> {
    match t {
        NvencTune::Hq => "hq"@,
        NvencTune::Ll => "ll"@,
        NvencTune::Ull => "ull"@,
    }
}

impl NvencTune {
    /// Returns the FFmpeg tune string.
    pub fn as_str(self) -> (s: &'static str)
        ensures
            s@ == tune_name(self),
    {
        match self {
            NvencTune::Hq => "hq",
            NvencTune::Ll => "ll",
            NvencTune::Ull => "ull",
        }
    }
}

/// The refusal of a B-frame count beyond the NVENC maximum.
pub open spec fn b_frames_message(codec: Seq<char>) -> Seq<char> {
    codec + " b_frames must be between 0 and 7"@
}

/// The refusal of a look-ahead beyond the NVENC maximum.
pub open spec fn rc_lookahead_message(codec: Seq<char>) -> Seq<char> {
    codec + " rc_lookahead must be between 0 and 120"@
}

/// The check of an NVENC B-frame count for `codec`.
pub open spec fn b_frames_check(codec: Seq<char>, b_frames: u32) -> Result<(), Seq<char>> {
    if b_frames > MAX_NVENC_B_FRAMES {
        Err(b_frames_message(codec))
    } else {
        Ok(())
    }
}

/// The check of an NVENC rate-control look-ahead for `codec`.
pub open spec fn rc_lookahead_check(codec: Seq<char>, rc_lookahead: Option<u32>) -> Result<
    (),
    Seq<char>,
> {
    match rc_lookahead {
        Some(v) => if v > MAX_NVENC_RC_LOOKAHEAD {
            Err(rc_lookahead_message(codec))
        } else {
            Ok(())
        },
        None => Ok(()),
    }
}

/// Checks that a B-frame count is at most 7.
pub fn validate_nvenc_b_frames(codec: &str, b_frames: u32) -> (r: Result<(), StageError>)
    ensures
        match b_frames_check(codec@, b_frames) {
            Ok(()) => r is Ok,
            Err(m) => r matches Err(e) && is_invalid_message(e, m),
        },
{
    if b_frames > MAX_NVENC_B_FRAMES {
        let mut m = codec.to_string();
        push_str(&mut m, " b_frames must be between 0 and 7");
        return Err(StageError::invalid_owned(m));
    }
    Ok(())
}

/// Checks that a rate-control look-ahead, when given, is at most 120.
pub fn validate_nvenc_rc_lookahead(codec: &str, rc_lookahead: Option<u32>) -> (r: Result<
    (),
    StageError,
>)
    ensures
        match rc_lookahead_check(codec@, rc_lookahead) {
            Ok(()) => r is Ok,
            Err(m) => r matches Err(e) && is_invalid_message(e, m),
        },
{
    if let Some(value) = rc_lookahead {
        if value > MAX_NVENC_RC_LOOKAHEAD {
            let mut m = codec.to_string();
            push_str(&mut m, " rc_lookahead must be between 0 and 120");
            return Err(StageError::invalid_owned(m));
        }
    }
    Ok(())
}

/// The refusal for a machine without visible NVIDIA device files.
pub open spec fn nvenc_device_message() -> Seq<char> {
    "NVIDIA device files are not visible. NVENC requires a container/runtime with NVIDIA GPU access (for example Docker Compose device reservations)."@
}

/// Decides NVENC availability from whether the NVIDIA device files are visible.
pub fn nvenc_device_requirement(device_visible: bool) -> (r: Result<(), StageError>)
    ensures
        device_visible ==> r is Ok,
        !device_visible ==> (r matches Err(StageError::External { context, source })
            && context@ == nvenc_device_message() && source@ == "NVIDIA device files not found"@),
{
    if device_visible {
        return Ok(());
    }
    Err(
        StageError::external_boxed(
            "NVIDIA device files are not visible. NVENC requires a container/runtime with NVIDIA GPU access (for example Docker Compose device reservations).",
            "NVIDIA device files not found".to_string(),
        ),
    )
}

/// Whether a file exists at `path` (`std::path::Path::exists`).
///
/// Nothing is stated about the result: it depends on the machine's file system
/// at the moment of the call.
#[verifier::external_body]
pub(crate) fn path_exists(path: &str) -> bool {
    std::path::Path::new(path).exists()
}

/// The device files NVENC needs: the control device, the first GPU and the
/// capabilities directory.
pub fn nvenc_device_paths() -> (r: (&'static str, &'static str, &'static str))
    ensures
        r.0@ == "/dev/nvidiactl"@,
        r.1@ == "/dev/nvidia0"@,
        r.2@ == "/dev/nvidia-caps"@,
{
    ("/dev/nvidiactl", "/dev/nvidia0", "/dev/nvidia-caps")
}

/// Whether NVENC's devices are visible, from whether each of its device files
/// exists: the control device, and either the first GPU or the capabilities
/// directory.
pub fn nvenc_devices_visible(ctl: bool, gpu0: bool, caps: bool) -> (b: bool)
    ensures
        b == (ctl && (gpu0 || caps)),
{
    ctl && (gpu0 || caps)
}

/// Whether the NVIDIA device files that NVENC needs are visible on this
/// machine: asks whether each of [`nvenc_device_paths`] exists and decides
/// with [`nvenc_devices_visible`]. The answer depends on the machine.
pub fn is_nvenc_device_visible() -> bool {
    let (ctl, gpu0, caps) = nvenc_device_paths();
    nvenc_devices_visible(path_exists(ctl), path_exists(gpu0), path_exists(caps))
}

/// Fails unless the NVIDIA device files are visible.
pub fn ensure_nvenc_device_visible() -> (r: Result<(), StageError>)
    ensures
        r is Ok || (r matches Err(StageError::External { context, source }) && context@
            == nvenc_device_message() && source@ == "NVIDIA device files not found"@),
{
    nvenc_device_requirement(is_nvenc_device_visible())
}

} // verus!
