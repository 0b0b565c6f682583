//! Frames carried between stages, image shapes, and the naming rules of the
//! Parquet/video export layout.

use std::collections::HashMap;

use vstd::prelude::*;
use crate::text::{
    after_last, after_last_chars, push_str, replace_char, replace_char_chars, str_chars,
    string_from_chars, strip_leading, strip_leading_chars,
};

verus! {

/// An encoded image of a topic.
#[derive(Clone, Debug)]
pub struct ImageFrame {
    pub index: u32,
    pub extension: String,
    pub bytes: Vec<u8>,
    pub shape: Option<ImageShape>,
}

impl ImageFrame {
    /// Creates a frame with no known shape.
    pub fn new(index: u32, extension: &str, bytes: Vec<u8>) -> (f: Self)
        ensures
            f.index == index,
            f.extension@ == extension@,
            f.bytes == bytes,
            f.shape is None,
    {
        ImageFrame { index, extension: extension.to_string(), bytes, shape: None }
    }

    /// Stores the decoded image shape on this frame.
    pub fn set_shape(&mut self, shape: ImageShape)
        ensures
            final(self).shape == Some(shape),
            final(self).index == old(self).index,
            final(self).extension == old(self).extension,
            final(self).bytes == old(self).bytes,
    {
        self.shape = Some(shape);
    }
}

/// The dimensions of an image: rows, columns and channels per pixel.
#[derive(Copy, Clone, Debug, Default, PartialEq, Eq, Structural)]
pub struct ImageShape {
    pub height: usize,
    pub width: usize,
    pub channels: usize,
}

impl ImageShape {
    /// Creates a shape.
    pub fn new(height: usize, width: usize, channels: usize) -> (s: Self)
        ensures
            s == (ImageShape { height, width, channels }),
    {
        ImageShape { height, width, channels }
    }

    /// Returns the shape as a `[height, width, channels]` vector.
    pub fn to_vec(&self) -> (v: Vec<usize>)
        ensures
            v@ == seq![self.height, self.width, self.channels],
    {
        let mut v: Vec<usize> = Vec::new();
        v.push(self.height);
        v.push(self.width);
        v.push(self.channels);
        v
    }
}

/// The `(width, height)` of the image that `image::load_from_memory` decodes
/// from `data` (format guessed from the bytes), or `None` when it fails.
pub uninterp spec fn image_dimensions(data: Seq<u8>) -> Option<(u32, u32)>;

/// Decodes an encoded image with `image::load_from_memory` and returns its width
/// and height. The result is named by [`image_dimensions`].
#[verifier::external_body]
fn decoded_image_dimensions(bytes: &[u8]) -> (r: Option<(u32, u32)>)
    ensures
        r == image_dimensions(bytes@),
{
    match image::load_from_memory(bytes) {
        Ok(image) => Some((image.width(), image.height())),
        Err(_) => None,
    }
}

/// The shape inferred from encoded bytes: the decoded height and width with the
/// caller's channel count.
pub open spec fn inferred_shape(bytes: Seq<u8>, channels: usize) -> Option<ImageShape> {
    match image_dimensions(bytes) {
        Some((w, h)) => Some(ImageShape { height: h as usize, width: w as usize, channels }),
        None => None,
    }
}

/// Infers image dimensions from encoded image bytes.
///
/// `channels` is the semantic channel count of the stream (typically RGB), not
/// the file's native one.
pub fn infer_image_shape_from_bytes(bytes: &[u8], channels: usize) -> (r: Option<ImageShape>)
    ensures
        r == inferred_shape(bytes@, channels),
{
    match decoded_image_dimensions(bytes) {
        Some((w, h)) => Some(ImageShape::new(h as usize, w as usize, channels)),
        None => None,
    }
}

/// Looks a topic up in a topic-to-shape map (`HashMap::get`).
#[verifier::external_body]
fn shape_of_topic(shapes: &HashMap<String, ImageShape>, topic: &str) -> (r: Option<ImageShape>)
    ensures
        match r {
            Some(s) => (exists|k: String| #[trigger] shapes@.contains_key(k) && k@ == topic@)
                && forall|k: String| #[trigger]
                shapes@.contains_key(k) && k@ == topic@ ==> shapes@[k] == s,
            None => forall|k: String| #[trigger] shapes@.contains_key(k) ==> k@ != topic@,
        },
{
    shapes.get(topic).copied()
}

/// Whether the map has a key spelling `topic`.
pub open spec fn topic_listed(m: Map<String, ImageShape>, topic: Seq<char>) -> bool {
    exists|k: String| #[trigger] m.contains_key(k) && k@ == topic
}

/// Whether the map lists `topic` and gives shape `s` to every key spelling it.
pub open spec fn topic_has_shape(m: Map<String, ImageShape>, topic: Seq<char>, s: ImageShape) -> bool {
    &&& exists|k: String| #[trigger] m.contains_key(k) && k@ == topic
    &&& forall|k: String| #[trigger] m.contains_key(k) && k@ == topic ==> m[k] == s
}

/// The shape of the first frame that carries one.
pub open spec fn first_frame_shape(frames: Seq<ImageFrame>) -> Option<ImageShape>
    decreases frames.len(),
{
    if frames.len() == 0 {
        None
    } else if frames[0].shape is Some {
        frames[0].shape
    } else {
        first_frame_shape(frames.drop_first())
    }
}

/// The shape inferred from the first frame whose bytes decode.
pub open spec fn first_inferred_shape(frames: Seq<ImageFrame>, channels: usize) -> Option<
    ImageShape,
>
    decreases frames.len(),
{
    if frames.len() == 0 {
        None
    } else if inferred_shape(frames[0].bytes@, channels) is Some {
        inferred_shape(frames[0].bytes@, channels)
    } else {
        first_inferred_shape(frames.drop_first(), channels)
    }
}

proof fn lemma_first_frame_shape_prefix(frames: Seq<ImageFrame>, i: int)
    requires
        0 <= i <= frames.len(),
        forall|k: int| 0 <= k < i ==> (#[trigger] frames[k]).shape is None,
    ensures
        first_frame_shape(frames) == first_frame_shape(frames.subrange(i, frames.len() as int)),
    decreases i,
{
    if i > 0 {
        let t = frames.drop_first();
        assert forall|k: int| 0 <= k < i - 1 implies (#[trigger] t[k]).shape is None by {
            assert(t[k] == frames[k + 1]);
        }
        lemma_first_frame_shape_prefix(t, i - 1);
        assert(t.subrange(i - 1, t.len() as int) =~= frames.subrange(i, frames.len() as int));
    } else {
        assert(frames.subrange(0, frames.len() as int) =~= frames);
    }
}

/// Finds the shape of the first frame that carries one.
fn find_frame_shape(frames: &[ImageFrame]) -> (r: Option<ImageShape>)
    ensures
        r == first_frame_shape(frames@),
{
    let mut i: usize = 0;
    while i < frames.len()
        invariant
            i <= frames@.len(),
            forall|k: int| 0 <= k < i ==> (#[trigger] frames@[k]).shape is None,
        decreases frames.len() - i,
    {
        if frames[i].shape.is_some() {
            proof {
                lemma_first_frame_shape_prefix(frames@, i as int);
                assert(frames@.subrange(i as int, frames@.len() as int)[0] == frames@[i as int]);
            }
            return frames[i].shape;
        }
        i += 1;
    }
    proof {
        lemma_first_frame_shape_prefix(frames@, frames@.len() as int);
        assert(frames@.subrange(frames@.len() as int, frames@.len() as int).len() == 0);
    }
    None
}

proof fn lemma_first_inferred_prefix(frames: Seq<ImageFrame>, channels: usize, i: int)
    requires
        0 <= i <= frames.len(),
        forall|k: int| 0 <= k < i ==> inferred_shape((#[trigger] frames[k]).bytes@, channels) is None,
    ensures
        first_inferred_shape(frames, channels) == first_inferred_shape(
            frames.subrange(i, frames.len() as int),
            channels,
        ),
    decreases i,
{
    if i > 0 {
        let t = frames.drop_first();
        assert forall|k: int| 0 <= k < i - 1 implies inferred_shape(
            (#[trigger] t[k]).bytes@,
            channels,
        ) is None by {
            assert(t[k] == frames[k + 1]);
        }
        lemma_first_inferred_prefix(t, channels, i - 1);
        assert(t.subrange(i - 1, t.len() as int) =~= frames.subrange(i, frames.len() as int));
    } else {
        assert(frames.subrange(0, frames.len() as int) =~= frames);
    }
}

/// Finds the shape of the first frame whose bytes decode.
fn find_inferred_shape(frames: &[ImageFrame], channels: usize) -> (r: Option<ImageShape>)
    ensures
        r == first_inferred_shape(frames@, channels),
{
    let mut i: usize = 0;
    while i < frames.len()
        invariant
            i <= frames@.len(),
            forall|k: int|
                0 <= k < i ==> inferred_shape((#[trigger] frames@[k]).bytes@, channels) is None,
        decreases frames.len() - i,
    {
        let s = infer_image_shape_from_bytes(frames[i].bytes.as_slice(), channels);
        if s.is_some() {
            proof {
                lemma_first_inferred_prefix(frames@, channels, i as int);
                assert(frames@.subrange(i as int, frames@.len() as int)[0] == frames@[i as int]);
            }
            return s;
        }
        i += 1;
    }
    proof {
        lemma_first_inferred_prefix(frames@, channels, frames@.len() as int);
        assert(frames@.subrange(frames@.len() as int, frames@.len() as int).len() == 0);
    }
    None
}

/// Resolves a topic's image shape, preferring the topic-level shapes over the
/// first per-frame shape.
pub fn resolve_image_shape(
    topic: &str,
    frames: Option<&[ImageFrame]>,
    image_topic_shapes: Option<&HashMap<String, ImageShape>>,
) -> (r: Option<ImageShape>)
    ensures
        ({
            let from_map = match image_topic_shapes {
                Some(m) => topic_listed(m@, topic@),
                None => false,
            };
            &&& from_map ==> (r matches Some(s) && topic_has_shape(
                image_topic_shapes.unwrap()@,
                topic@,
                s,
            ))
            &&& !from_map ==> r == match frames {
                Some(f) => first_frame_shape(f@),
                None => None,
            }
        }),
{
    if let Some(shapes) = image_topic_shapes {
        let s = shape_of_topic(shapes, topic);
        if s.is_some() {
            return s;
        }
    }
    match frames {
        Some(f) => find_frame_shape(f),
        None => None,
    }
}

/// Resolves a topic's image shape: the topic-level shape, else the first
/// per-frame shape, else the shape decoded from the first readable payload.
pub fn resolve_or_infer_image_shape(
    topic: &str,
    frames: &[ImageFrame],
    image_topic_shapes: Option<&HashMap<String, ImageShape>>,
    channels: usize,
) -> (r: Option<ImageShape>)
    ensures
        ({
            let from_map = match image_topic_shapes {
                Some(m) => topic_listed(m@, topic@),
                None => false,
            };
            &&& from_map ==> (r matches Some(s) && topic_has_shape(
                image_topic_shapes.unwrap()@,
                topic@,
                s,
            ))
            &&& !from_map && first_frame_shape(frames@) is Some ==> r == first_frame_shape(frames@)
            &&& !from_map && first_frame_shape(frames@) is None ==> r == first_inferred_shape(
                frames@,
                channels,
            )
        }),
{
    let resolved = resolve_image_shape(topic, Some(frames), image_topic_shapes);
    if resolved.is_some() {
        return resolved;
    }
    find_inferred_shape(frames, channels)
}

/// A compressed depth image of a topic, with its ROS transport format.
#[derive(Clone, Debug)]
pub struct DepthFrame {
    pub index: u32,
    pub extension: String,
    pub bytes: Vec<u8>,
    pub ros_format: Option<String>,
}

impl DepthFrame {
    /// Creates a frame with no format.
    pub fn new(index: u32, extension: &str, bytes: Vec<u8>) -> (f: Self)
        ensures
            f.index == index,
            f.extension@ == extension@,
            f.bytes == bytes,
            f.ros_format is None,
    {
        DepthFrame { index, extension: extension.to_string(), bytes, ros_format: None }
    }

    /// Stores the original ROS `CompressedImage.format` string on this frame.
    pub fn set_ros_format(&mut self, ros_format: &str)
        ensures
            final(self).ros_format matches Some(f) && f@ == ros_format@,
            final(self).index == old(self).index,
            final(self).extension == old(self).extension,
            final(self).bytes == old(self).bytes,
    {
        self.ros_format = Some(ros_format.to_string());
    }
}

/// An encoded point cloud of a topic.
#[derive(Clone, Debug)]
pub struct PointCloudFrame {
    pub index: u32,
    pub extension: String,
    pub bytes: Vec<u8>,
}

impl PointCloudFrame {
    /// Creates a frame.
    pub fn new(index: u32, extension: &str, bytes: Vec<u8>) -> (f: Self)
        ensures
            f.index == index,
            f.extension@ == extension@,
            f.bytes == bytes,
    {
        PointCloudFrame { index, extension: extension.to_string(), bytes }
    }
}

/// Extracts the short message type name from a full type name
/// (`sensor_msgs/JointState` gives `JointState`).
pub fn extract_short_type_name(full_type_name: &str) -> (r: String)
    ensures
        r@ == after_last(full_type_name@, '/'),
{
    string_from_chars(after_last_chars(&str_chars(full_type_name), '/'))
}

/// Converts a topic name to a relative file path from the output directory
/// (`/sensor_msgs/JointState` gives `sensor_msgs/JointState.parquet`).
pub fn topic_name_to_relative_path(topic_name: &str) -> (r: String)
    ensures
        r@ == strip_leading(topic_name@, '/') + ".parquet"@,
{
    let mut r = string_from_chars(strip_leading_chars(&str_chars(topic_name), '/'));
    push_str(&mut r, ".parquet");
    r
}

/// A topic name as a single file name: leading slashes dropped, every other
/// slash replaced by a double underscore.
pub open spec fn flat_file_stem(topic: Seq<char>) -> Seq<char> {
    replace_char(strip_leading(topic, '/'), '/', "__"@)
}

/// Converts a topic name to the flat export file stem
/// (`/camera/rgb/image_raw` gives `camera__rgb__image_raw`).
pub fn topic_name_to_flat_file_stem(topic_name: &str) -> (r: String)
    ensures
        r@ == flat_file_stem(topic_name@),
{
    let stripped = strip_leading_chars(&str_chars(topic_name), '/');
    string_from_chars(replace_char_chars(&stripped, '/', &str_chars("__")))
}

} // verus!
