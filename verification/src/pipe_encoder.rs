//! The frame-by-frame decisions of the hardware RGB encoders.
//!
//! A VA-API or NVENC encoder starts its FFmpeg process on the first frame.
//! When that frame is JPEG or PNG, the encoded bytes are piped to FFmpeg as
//! they are (image2pipe) and every later frame must be in the same format;
//! otherwise frames are decoded and piped as raw RGB24 of a fixed size.

use vstd::prelude::*;
use crate::error::{StageError, is_invalid_message};
use crate::text::{decimal, decimal_string, push_str};
use crate::video_encoder::{ImageFormat, InputMode, detected_format};

verus! {

/// The name `Debug` prints for an image format.
pub open spec fn format_name(f: ImageFormat) -> Seq<char> {
    match f {
        ImageFormat::Jpeg => "Jpeg"@,
        ImageFormat::Png => "Png"@,
    }
}

fn format_name_str(f: ImageFormat) -> (s: &'static str)
    ensures
        s@ == format_name(f),
{
    match f {
        ImageFormat::Jpeg => "Jpeg",
        ImageFormat::Png => "Png",
    }
}

/// What to do with the encoded bytes of the next frame.
#[derive(Clone, Copy, Debug, PartialEq, Eq, Structural)]
pub enum DataAction {
    /// Start an image2pipe process for this format, then write the bytes.
    StartDirectPipe(ImageFormat),
    /// Write the bytes to the running image2pipe process.
    WriteDirect,
    /// Decode the bytes and hand the frame on as RGB.
    DecodeToRgb,
}

/// What to do with the next decoded RGB frame.
#[derive(Clone, Copy, Debug, PartialEq, Eq, Structural)]
pub enum RgbAction {
    /// Start a raw-video process for frames of this size, then write the frame.
    StartRawVideo { width: u32, height: u32 },
    /// Write the frame to the running process.
    Write,
}

/// What finishing the encoder amounts to.
#[derive(Clone, Copy, Debug, PartialEq, Eq, Structural)]
pub enum FinishAction {
    /// No frame was written: there is nothing to finish.
    Nothing,
    /// Close the process's input and wait for it.
    WaitForProcess,
}

/// The state of a piped hardware encoder between frames.
#[derive(Clone, Debug, PartialEq)]
pub struct PipeState {
    /// How frames reach the process, decided on the first frame.
    pub input_mode: InputMode,
    /// The frame size of a raw-video process.
    pub input_dimensions: Option<(u32, u32)>,
    /// How many frames were written.
    pub frame_count: u32,
    /// Whether the FFmpeg process was started.
    pub started: bool,
}

/// The refusal of a frame in another format than the stream's first frame.
pub open spec fn mixed_formats_message(expected: ImageFormat, actual: ImageFormat) -> Seq<char> {
    "Mixed image formats in stream: expected "@ + format_name(expected) + ", got "@ + format_name(
        actual,
    )
}

/// The refusal of a frame in no pipeable format within an image2pipe stream.
pub open spec fn unsupported_direct_message(expected: ImageFormat) -> Seq<char> {
    "Unsupported image format in direct pipe stream: expected "@ + format_name(expected)
}

/// The refusal of an RGB frame whose size differs from the stream's first frame.
pub open spec fn frame_mismatch_message(width: u32, height: u32, got_width: u32, got_height: u32) -> Seq<
    char,
> {
    "Frame dimensions mismatch: expected "@ + decimal(width as nat) + "x"@ + decimal(height as nat)
        + ", got "@ + decimal(got_width as nat) + "x"@ + decimal(got_height as nat)
}

/// The action for the encoded bytes `data` in input mode `mode`.
pub open spec fn data_plan(mode: InputMode, data: Seq<u8>) -> Result<DataAction, Seq<char>> {
    match mode {
        InputMode::Unknown => match detected_format(data) {
            Some(f) => Ok(DataAction::StartDirectPipe(f)),
            None => Ok(DataAction::DecodeToRgb),
        },
        InputMode::DirectPipe { format } => match detected_format(data) {
            Some(actual) => if actual == format {
                Ok(DataAction::WriteDirect)
            } else {
                Err(mixed_formats_message(format, actual))
            },
            None => Err(unsupported_direct_message(format)),
        },
        InputMode::RgbPipe => Ok(DataAction::DecodeToRgb),
    }
}

/// The action for a decoded `width` x `height` frame in state `s`.
pub open spec fn rgb_plan(s: PipeState, width: u32, height: u32) -> Result<RgbAction, Seq<char>> {
    if !s.started {
        Ok(RgbAction::StartRawVideo { width, height })
    } else {
        match s.input_dimensions {
            Some((w, h)) => if w != width || h != height {
                Err(frame_mismatch_message(w, h, width, height))
            } else {
                Ok(RgbAction::Write)
            },
            None => Ok(RgbAction::Write),
        }
    }
}

impl PipeState {
    /// The state before the first frame.
    pub fn new() -> (s: Self)
        ensures
            s == (PipeState {
                input_mode: InputMode::Unknown,
                input_dimensions: None,
                frame_count: 0,
                started: false,
            }),
    {
        PipeState {
            input_mode: InputMode::Unknown,
            input_dimensions: None,
            frame_count: 0,
            started: false,
        }
    }

    /// Decides what to do with the encoded bytes of the next frame.
    pub fn plan_data(&self, data: &[u8]) -> (r: Result<DataAction, StageError>)
        ensures
            match data_plan(self.input_mode, data@) {
                Ok(a) => r == Ok::<DataAction, StageError>(a),
                Err(m) => r matches Err(e) && is_invalid_message(e, m),
            },
    {
        let detected = ImageFormat::detect(data);
        match &self.input_mode {
            InputMode::Unknown => match detected {
                Some(f) => Ok(DataAction::StartDirectPipe(f)),
                None => Ok(DataAction::DecodeToRgb),
            },
            InputMode::DirectPipe { format } => match detected {
                Some(actual) => {
                    if actual == *format {
                        Ok(DataAction::WriteDirect)
                    } else {
                        let mut m = "Mixed image formats in stream: expected ".to_string();
                        push_str(&mut m, format_name_str(*format));
                        push_str(&mut m, ", got ");
                        push_str(&mut m, format_name_str(actual));
                        Err(StageError::invalid_owned(m))
                    }
                },
                None => {
                    let mut m = "Unsupported image format in direct pipe stream: expected ".to_string();
                    push_str(&mut m, format_name_str(*format));
                    Err(StageError::invalid_owned(m))
                },
            },
            InputMode::RgbPipe => Ok(DataAction::DecodeToRgb),
        }
    }

    /// Decides what to do with the next decoded RGB frame.
    pub fn plan_rgb_frame(&self, width: u32, height: u32) -> (r: Result<RgbAction, StageError>)
        ensures
            match rgb_plan(*self, width, height) {
                Ok(a) => r == Ok::<RgbAction, StageError>(a),
                Err(m) => r matches Err(e) && is_invalid_message(e, m),
            },
    {
        if !self.started {
            return Ok(RgbAction::StartRawVideo { width, height });
        }
        match self.input_dimensions {
            Some((w, h)) => {
                if w != width || h != height {
                    let mut m = "Frame dimensions mismatch: expected ".to_string();
                    push_str(&mut m, decimal_string(w as u64).as_str());
                    push_str(&mut m, "x");
                    push_str(&mut m, decimal_string(h as u64).as_str());
                    push_str(&mut m, ", got ");
                    push_str(&mut m, decimal_string(width as u64).as_str());
                    push_str(&mut m, "x");
                    push_str(&mut m, decimal_string(height as u64).as_str());
                    Err(StageError::invalid_owned(m))
                } else {
                    Ok(RgbAction::Write)
                }
            },
            None => Ok(RgbAction::Write),
        }
    }

    /// Records that an image2pipe process was started for `format`.
    pub fn direct_pipe_started(&mut self, format: ImageFormat)
        ensures
            *final(self) == (PipeState {
                input_mode: InputMode::DirectPipe { format },
                started: true,
                ..*old(self)
            }),
    {
        self.input_mode = InputMode::DirectPipe { format };
        self.started = true;
    }

    /// Records that a raw-video process was started for `width` x `height` frames.
    pub fn raw_video_started(&mut self, width: u32, height: u32)
        ensures
            *final(self) == (PipeState {
                input_mode: InputMode::RgbPipe,
                input_dimensions: Some((width, height)),
                started: true,
                ..*old(self)
            }),
    {
        self.input_mode = InputMode::RgbPipe;
        self.input_dimensions = Some((width, height));
        self.started = true;
    }

    /// Records that a frame was written.
    pub fn frame_written(&mut self)
        requires
            old(self).frame_count < u32::MAX,
        ensures
            *final(self) == (PipeState { frame_count: (old(self).frame_count + 1) as u32, ..*old(self) }),
    {
        self.frame_count = self.frame_count + 1;
    }

    /// Decides what finishing amounts to: nothing when no frame was written.
    pub fn plan_finish(&self) -> (r: FinishAction)
        ensures
            r == (if self.frame_count == 0 {
                FinishAction::Nothing
            } else {
                FinishAction::WaitForProcess
            }),
    {
        if self.frame_count == 0 {
            FinishAction::Nothing
        } else {
            FinishAction::WaitForProcess
        }
    }
}

/// A stream whose first frame is a pipeable image is piped in that image's
/// format: the first frame starts the pipe, and a later frame is accepted
/// exactly when it is detected as the same format.
pub proof fn lemma_direct_stream_keeps_format(first: Seq<u8>, later: Seq<u8>)
    requires
        detected_format(first) is Some,
    ensures
        data_plan(InputMode::Unknown, first) == Ok::<DataAction, Seq<char>>(
            DataAction::StartDirectPipe(detected_format(first)->0),
        ),
        data_plan(InputMode::DirectPipe { format: detected_format(first)->0 }, later) is Ok
            <==> detected_format(later) == detected_format(first),
{
}

/// A raw-video stream keeps the size of its first frame: once started for
/// `width` x `height`, a decoded frame is accepted exactly when it has that size.
pub proof fn lemma_raw_stream_keeps_size(s: PipeState, width: u32, height: u32, w: u32, h: u32)
    ensures
        rgb_plan(
            PipeState {
                input_mode: InputMode::RgbPipe,
                input_dimensions: Some((width, height)),
                started: true,
                ..s
            },
            w,
            h,
        ) is Ok <==> (w == width && h == height),
{
}

/// What `image::load_from_memory` followed by `to_rgb8` makes of encoded image
/// bytes: `(width, height, RGB24 samples row by row)`, or the text of the
/// decoding error.
pub uninterp spec fn rgb24_decoding(data: Seq<u8>) -> Result<(u32, u32, Seq<u8>), Seq<char>>;

/// Decodes an encoded image with `image::load_from_memory` (format guessed from
/// the bytes) and converts it to 8-bit RGB with `DynamicImage::to_rgb8`. The
/// result is named by [`rgb24_decoding`]; an RGB image holds three bytes per
/// pixel.
#[verifier::external_body]
fn decode_rgb24(data: &[u8]) -> (r: Result<(u32, u32, Vec<u8>), String>)
    ensures
        match r {
            Ok((w, h, p)) => rgb24_decoding(data@) == Ok::<(u32, u32, Seq<u8>), Seq<char>>(
                (w, h, p@),
            ) && p@.len() == 3 * w * h,
            Err(e) => rgb24_decoding(data@) == Err::<(u32, u32, Seq<u8>), Seq<char>>(e@),
        },
{
    match image::load_from_memory(data) {
        Ok(img) => {
            let rgb = img.to_rgb8();
            Ok((rgb.width(), rgb.height(), rgb.into_raw()))
        },
        Err(e) => Err(e.to_string()),
    }
}

/// Decodes the bytes of a frame that cannot be piped as they are into a raw
/// RGB24 frame; a failure is invalid data caused by the decoding error.
pub fn decode_fallback_frame(data: &[u8]) -> (r: Result<(u32, u32, Vec<u8>), StageError>)
    ensures
        match rgb24_decoding(data@) {
            Ok((w, h, p)) => r matches Ok((rw, rh, rp)) && rw == w && rh == h && rp@ == p,
            Err(m) => r matches Err(StageError::InvalidData { message, source: Some(s) })
                && message@ == "failed to decode image data"@ && s@ == m,
        },
{
    match decode_rgb24(data) {
        Ok(frame) => Ok(frame),
        Err(text) => Err(
            StageError::InvalidData {
                message: "failed to decode image data".to_string(),
                source: Some(text),
            },
        ),
    }
}

} // verus!
