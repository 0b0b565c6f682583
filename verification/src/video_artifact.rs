//! Canonical metadata of an encoded video and the artifact that pairs it with its path.

use vstd::prelude::*;
use crate::common::ImageShape;
use crate::error::{StageError, is_invalid_message};
use crate::text::{chars_eq_str, push_str, str_chars};

verus! {

/// Canonical metadata for a single encoded video, independent of where the file lives.
#[derive(Clone, Debug, PartialEq)]
pub struct VideoMetadata {
    pub media_type: String,
    pub codec_family: String,
    pub encoder_name: String,
    pub pix_fmt: String,
    pub width: u32,
    pub height: u32,
    pub fps: u32,
    pub encoding_config_json: String,
}

/// The refusal of metadata with a zero dimension.
pub open spec fn zero_dimension_message() -> Seq<char> {
    "video metadata requires positive width and height"@
}

/// The channel count of a media type: 3 for `rgb`, 1 for `depth`.
pub open spec fn media_channels(media_type: Seq<char>) -> Option<usize> {
    if media_type == "rgb"@ {
        Some(3)
    } else if media_type == "depth"@ {
        Some(1)
    } else {
        None
    }
}

/// The image shape that metadata describes, or the refusal message.
pub open spec fn metadata_shape(m: VideoMetadata) -> Result<ImageShape, Seq<char>> {
    if m.width == 0 || m.height == 0 {
        Err(zero_dimension_message())
    } else {
        match media_channels(m.media_type@) {
            Some(c) => Ok(
                ImageShape { height: m.height as usize, width: m.width as usize, channels: c },
            ),
            None => Err("unsupported media_type in video metadata: "@ + m.media_type@),
        }
    }
}

impl VideoMetadata {
    /// Converts the metadata into an image shape.
    pub fn image_shape(&self) -> (r: Result<ImageShape, StageError>)
        ensures
            match metadata_shape(*self) {
                Ok(s) => r == Ok::<ImageShape, StageError>(s),
                Err(m) => r matches Err(e) && is_invalid_message(e, m),
            },
    {
        if self.width == 0 || self.height == 0 {
            return Err(StageError::invalid("video metadata requires positive width and height"));
        }
        let media = str_chars(self.media_type.as_str());
        let channels: usize = if chars_eq_str(&media, "rgb") {
            3
        } else if chars_eq_str(&media, "depth") {
            1
        } else {
            let mut m = "unsupported media_type in video metadata: ".to_string();
            push_str(&mut m, self.media_type.as_str());
            return Err(StageError::invalid_owned(m));
        };
        Ok(ImageShape::new(self.height as usize, self.width as usize, channels))
    }
}

/// Whether `path` is absolute under the build target's path rules, as
/// `camino::Utf8Path::is_absolute` decides it.
pub uninterp spec fn is_absolute_path(path: Seq<char>) -> bool;

/// The path `camino::Utf8Path::join` makes of `path` adjoined to `root`.
pub uninterp spec fn joined_path(root: Seq<char>, path: Seq<char>) -> Seq<char>;

/// Asks `camino::Utf8Path::is_absolute` whether `path` is absolute.
///
/// The answer is named by [`is_absolute_path`]; the rules behind it are the
/// build target's (a leading root on Unix) and are not written out here.
#[verifier::external_body]
pub(crate) fn path_is_absolute(path: &str) -> (b: bool)
    ensures
        b == is_absolute_path(path@),
{
    camino::Utf8Path::new(path).is_absolute()
}

/// Adjoins `path` to `root` with `camino::Utf8Path::join`.
///
/// The result is named by [`joined_path`]; how the two are joined (the
/// separator, an absolute `path` replacing `root`) is the build target's rule
/// and is not written out here.
#[verifier::external_body]
pub(crate) fn join_path(root: &str, path: &str) -> (r: String)
    ensures
        r@ == joined_path(root@, path@),
{
    camino::Utf8Path::new(root).join(path).into_string()
}

/// Where an artifact stored at `video_path` lives: the path itself when it is
/// absolute, else the path under `bundle_root`; `None` for a relative path
/// without a bundle root.
pub open spec fn resolved_path(video_path: Seq<char>, bundle_root: Option<Seq<char>>) -> Option<
    Seq<char>,
> {
    if is_absolute_path(video_path) {
        Some(video_path)
    } else {
        match bundle_root {
            Some(root) => Some(joined_path(root, video_path)),
            None => None,
        }
    }
}

/// The `what` of the error for a relative artifact path without a bundle root.
pub open spec fn missing_bundle_root() -> Seq<char> {
    "bundle_root in context for relative video artifact path"@
}

/// An encoded video file plus its canonical metadata.
#[derive(Clone, Debug, PartialEq)]
pub struct VideoArtifact {
    pub video_path: String,
    pub metadata: VideoMetadata,
}

impl VideoArtifact {
    /// Converts the artifact's metadata into an image shape.
    pub fn image_shape(&self) -> (r: Result<ImageShape, StageError>)
        ensures
            match metadata_shape(self.metadata) {
                Ok(s) => r == Ok::<ImageShape, StageError>(s),
                Err(m) => r matches Err(e) && is_invalid_message(e, m),
            },
    {
        self.metadata.image_shape()
    }

    /// Resolves the artifact's local path; a relative path is taken under
    /// `bundle_root`, which it then needs.
    pub fn resolve_path(&self, bundle_root: Option<&str>) -> (r: Result<String, StageError>)
        ensures
            match resolved_path(
                self.video_path@,
                match bundle_root {
                    Some(b) => Some(b@),
                    None => None,
                },
            ) {
                Some(p) => r matches Ok(s) && s@ == p,
                None => r matches Err(e) && e matches StageError::MissingData(w) && w@
                    == missing_bundle_root(),
            },
    {
        if path_is_absolute(self.video_path.as_str()) {
            return Ok(self.video_path.clone());
        }
        match bundle_root {
            Some(root) => Ok(join_path(root, self.video_path.as_str())),
            None => Err(StageError::missing("bundle_root in context for relative video artifact path")),
        }
    }
}

} // verus!
