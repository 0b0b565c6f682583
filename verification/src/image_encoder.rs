//! Stages that write image and depth frames to disk, one file per frame, in
//! a directory tree that mirrors the topic names.

use vstd::prelude::*;
use crate::common::topic_name_to_relative_path;
use crate::text::{decimal, decimal_string, push_str, str_chars, string_from_chars, strip_leading, sub_chars};

verus! {

/// Configuration of the image encoder stage (it has no options).
#[derive(Debug, Clone, PartialEq)]
pub struct ImageEncoderConfig {}

impl Default for ImageEncoderConfig {
    fn default() -> (c: Self)
        ensures
            c == (ImageEncoderConfig {}),
    {
        ImageEncoderConfig {  }
    }
}

/// The stage that saves image frames as individual files.
pub struct ImageEncoder;

impl ImageEncoder {
    /// Creates the stage.
    pub fn new(_config: ImageEncoderConfig) -> (e: Self) {
        ImageEncoder
    }
}

/// Configuration of the depth image encoder stage (it has no options).
#[derive(Debug, Clone, PartialEq)]
pub struct DepthImageEncoderConfig {}

impl Default for DepthImageEncoderConfig {
    fn default() -> (c: Self)
        ensures
            c == (DepthImageEncoderConfig {}),
    {
        DepthImageEncoderConfig {  }
    }
}

/// The stage that decodes depth frames and saves them as raw gray16le files.
pub struct DepthImageEncoder;

/// The directory, relative to the output directory, that holds a topic's
/// frames: the topic's relative Parquet path without its `.parquet` suffix.
pub fn topic_output_dir(topic: &str) -> (r: String)
    ensures
        r@ == strip_leading(topic@, '/'),
{
    let relative = str_chars(topic_name_to_relative_path(topic).as_str());
    let suffix = str_chars(".parquet");
    let n = relative.len();
    if n >= suffix.len() {
        let start = n - suffix.len();
        let tail = sub_chars(&relative, start, n);
        if crate::text::chars_eq(&tail, &suffix) {
            let base = sub_chars(&relative, 0, start);
            proof {
                let stripped = strip_leading(topic@, '/');
                assert(relative@ == stripped + ".parquet"@);
                assert(base@ =~= stripped);
            }
            return string_from_chars(base);
        }
    }
    proof {
        let stripped = strip_leading(topic@, '/');
        assert(relative@.subrange(stripped.len() as int, relative@.len() as int) =~= ".parquet"@);
    }
    string_from_chars(relative)
}

/// The file name of an image frame: its index and its extension.
pub fn frame_file_name(index: u32, extension: &str) -> (r: String)
    ensures
        r@ == decimal(index as nat) + "."@ + extension@,
{
    let mut name = decimal_string(index as u64);
    push_str(&mut name, ".");
    push_str(&mut name, extension);
    name
}

/// The file name of a raw depth frame: its index with the `.bin` extension.
pub fn depth_frame_file_name(index: u32) -> (r: String)
    ensures
        r@ == decimal(index as nat) + ".bin"@,
{
    let mut name = decimal_string(index as u64);
    push_str(&mut name, ".bin");
    name
}

} // verus!
