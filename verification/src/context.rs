//! The data passed from one pipeline stage to the next.
//!
//! A [`Context`] holds what stages hand each other: decoded frames per topic,
//! image shapes per topic, the registry of encoded videos and the directories
//! a run works in. The tabular dataset of a run is kept outside it.

use std::collections::HashMap;
use vstd::prelude::*;
use crate::common::{DepthFrame, ImageFrame, ImageShape, PointCloudFrame, topic_listed};
use crate::error::{StageError, is_invalid_message};
use crate::text::push_str;
use crate::video_artifact::{VideoArtifact, metadata_shape, missing_bundle_root, resolved_path};

verus! {

/// A container for the data passed between pipeline stages.
pub struct Context {
    pub image_data: Option<HashMap<String, Vec<ImageFrame>>>,
    pub image_topic_shapes: Option<HashMap<String, ImageShape>>,
    pub depth_data: Option<HashMap<String, Vec<DepthFrame>>>,
    pub pointcloud_data: Option<HashMap<String, Vec<PointCloudFrame>>>,
    pub fps: Option<usize>,
    pub output_dir: Option<String>,
    pub video_cache_dir: Option<String>,
    pub rosbag_path: Option<String>,
    pub bundle_root: Option<String>,
    pub video_registry: Option<HashMap<String, VideoArtifact>>,
    pub topic_message_type_map: Option<HashMap<String, String>>,
}

/// Looks a topic's artifact up in a video registry (`HashMap::get`).
///
/// The artifact returned is the one stored under the key spelling `topic` (a
/// map holds at most one such key); `None` means that no key spells it.
#[verifier::external_body]
fn artifact_of_topic<'a>(registry: &'a HashMap<String, VideoArtifact>, topic: &str) -> (r: Option<
    &'a VideoArtifact,
>)
    ensures
        match r {
            Some(a) => (exists|k: String| #[trigger] registry@.contains_key(k) && k@ == topic@)
                && forall|k: String| #[trigger]
                registry@.contains_key(k) && k@ == topic@ ==> registry@[k] == *a,
            None => forall|k: String| #[trigger] registry@.contains_key(k) ==> k@ != topic@,
        },
{
    registry.get(topic)
}

/// Lists a video registry's entries, each cloned (`HashMap::iter`).
///
/// Every entry is listed once and only entries are listed; two keys of a map
/// never spell the same topic. The order is the map's iteration order, which
/// depends on its per-process hasher, and is left open.
#[verifier::external_body]
fn registry_entries(registry: &HashMap<String, VideoArtifact>) -> (r: Vec<(String, VideoArtifact)>)
    ensures
        forall|i: int|
            #![trigger r@[i]]
            0 <= i < r.len() ==> registry@.contains_key(r@[i].0) && registry@[r@[i].0] == r@[i].1,
        forall|k: String| #[trigger]
            registry@.contains_key(k) ==> exists|i: int| 0 <= i < r.len() && r@[i].0 == k,
        forall|i: int, j: int| 0 <= i < j < r.len() ==> r@[i].0@ != r@[j].0@,
{
    registry.iter().map(|(k, v)| (k.clone(), v.clone())).collect()
}

/// Gives `topic` the shape `shape` unless a key already spells `topic`
/// (`HashMap::entry` followed by `or_insert`).
#[verifier::external_body]
fn insert_shape_if_absent(shapes: &mut HashMap<String, ImageShape>, topic: String, shape: ImageShape)
    ensures
        topic_listed(old(shapes)@, topic@) ==> final(shapes)@ == old(shapes)@,
        !topic_listed(old(shapes)@, topic@) ==> final(shapes)@ == old(shapes)@.insert(topic, shape),
{
    shapes.entry(topic).or_insert(shape);
}

/// Records `path` under `topic` in a map where no key spells `topic` yet
/// (`HashMap::insert`).
#[verifier::external_body]
fn insert_path(paths: &mut HashMap<String, String>, topic: String, path: String)
    requires
        forall|k: String| #[trigger] old(paths)@.contains_key(k) ==> k@ != topic@,
    ensures
        final(paths)@ == old(paths)@.insert(topic, path),
{
    paths.insert(topic, path);
}

/// The view of an optional bundle root.
pub open spec fn root_view(root: Option<String>) -> Option<Seq<char>> {
    match root {
        Some(r) => Some(r@),
        None => None,
    }
}

/// Whether `r` is what resolving an artifact stored at `video_path` against
/// `root` gives: the resolved path, or the missing bundle root.
pub open spec fn is_resolution(
    r: Result<String, StageError>,
    video_path: Seq<char>,
    root: Option<Seq<char>>,
) -> bool {
    match resolved_path(video_path, root) {
        Some(p) => r matches Ok(s) && s@ == p,
        None => r matches Err(e) && e matches StageError::MissingData(w) && w@
            == missing_bundle_root(),
    }
}

/// Whether `r` is a `MissingData` error naming `what`.
pub open spec fn is_missing<T>(r: Result<T, StageError>, what: Seq<char>) -> bool {
    r matches Err(e) && e matches StageError::MissingData(w) && w@ == what
}

/// The shapes a context holds, the empty map when it holds none.
pub open spec fn shapes_view(shapes: Option<HashMap<String, ImageShape>>) -> Map<String, ImageShape> {
    match shapes {
        Some(m) => m@,
        None => Map::empty(),
    }
}

/// Whether every artifact of a registry describes an image shape.
pub open spec fn registry_shapes_ok(registry: Map<String, VideoArtifact>) -> bool {
    forall|k: String| #[trigger] registry.contains_key(k) ==> metadata_shape(registry[k].metadata) is Ok
}

/// Whether `after` is `before` with every registry topic that `before` does not
/// list added under its registry key, with the shape of its artifact.
pub open spec fn shapes_filled(
    before: Map<String, ImageShape>,
    registry: Map<String, VideoArtifact>,
    after: Map<String, ImageShape>,
) -> bool {
    &&& forall|k: String| #[trigger]
        before.contains_key(k) ==> after.contains_key(k) && after[k] == before[k]
    &&& forall|k: String| #[trigger]
        registry.contains_key(k) && !topic_listed(before, k@) ==> after.contains_key(k)
            && metadata_shape(registry[k].metadata) == Ok::<ImageShape, Seq<char>>(after[k])
    &&& forall|k: String| #[trigger]
        after.contains_key(k) ==> before.contains_key(k) || (registry.contains_key(k)
            && !topic_listed(before, k@))
}

/// Whether every artifact of a registry resolves against `root`.
pub open spec fn registry_resolves(registry: Map<String, VideoArtifact>, root: Option<Seq<char>>) -> bool {
    forall|k: String| #[trigger]
        registry.contains_key(k) ==> resolved_path(registry[k].video_path@, root) is Some
}

/// Filling the topic shapes from a registry a second time changes nothing:
/// every registry topic is listed after the first fill.
pub proof fn lemma_fill_idempotent(
    before: Map<String, ImageShape>,
    registry: Map<String, VideoArtifact>,
    after: Map<String, ImageShape>,
    again: Map<String, ImageShape>,
)
    requires
        shapes_filled(before, registry, after),
        shapes_filled(after, registry, again),
    ensures
        again == after,
{
    assert forall|k: String| #[trigger] again.contains_key(k) implies after.contains_key(k) by {
        if !after.contains_key(k) {
            assert(registry.contains_key(k));
            if topic_listed(before, k@) {
                let b = choose|b: String| #[trigger] before.contains_key(b) && b@ == k@;
                assert(after.contains_key(b));
            }
            assert(topic_listed(after, k@));
        }
    }
    assert(again =~= after);
}

impl Default for Context {
    fn default() -> (c: Self)
        ensures
            c.image_data is None,
            c.image_topic_shapes is None,
            c.depth_data is None,
            c.pointcloud_data is None,
            c.fps is None,
            c.output_dir is None,
            c.video_cache_dir is None,
            c.rosbag_path is None,
            c.bundle_root is None,
            c.video_registry is None,
            c.topic_message_type_map is None,
    {
        Context {
            image_data: None,
            image_topic_shapes: None,
            depth_data: None,
            pointcloud_data: None,
            fps: None,
            output_dir: None,
            video_cache_dir: None,
            rosbag_path: None,
            bundle_root: None,
            video_registry: None,
            topic_message_type_map: None,
        }
    }
}

impl Context {
    /// Sets the decoded image frames, by topic.
    pub fn set_image_data(&mut self, image_data: HashMap<String, Vec<ImageFrame>>)
        ensures
            *final(self) == (Context { image_data: Some(image_data), ..*old(self) }),
    {
        self.image_data = Some(image_data);
    }

    /// Returns the decoded image frames, by topic, when set.
    pub fn image_data(&self) -> (r: Option<&HashMap<String, Vec<ImageFrame>>>)
        ensures
            r is Some <==> self.image_data is Some,
            r is Some ==> *r->0 == self.image_data->0,
    {
        self.image_data.as_ref()
    }

    /// Sets the image shape of each topic.
    pub fn set_image_topic_shapes(&mut self, image_topic_shapes: HashMap<String, ImageShape>)
        ensures
            *final(self) == (Context { image_topic_shapes: Some(image_topic_shapes), ..*old(self) }),
    {
        self.image_topic_shapes = Some(image_topic_shapes);
    }

    /// Returns the image shape of each topic, when set.
    pub fn image_topic_shapes(&self) -> (r: Option<&HashMap<String, ImageShape>>)
        ensures
            r is Some <==> self.image_topic_shapes is Some,
            r is Some ==> *r->0 == self.image_topic_shapes->0,
    {
        self.image_topic_shapes.as_ref()
    }

    /// Sets the depth frames, by topic.
    pub fn set_depth_data(&mut self, depth_data: HashMap<String, Vec<DepthFrame>>)
        ensures
            *final(self) == (Context { depth_data: Some(depth_data), ..*old(self) }),
    {
        self.depth_data = Some(depth_data);
    }

    /// Returns the depth frames, by topic, when set.
    pub fn depth_data(&self) -> (r: Option<&HashMap<String, Vec<DepthFrame>>>)
        ensures
            r is Some <==> self.depth_data is Some,
            r is Some ==> *r->0 == self.depth_data->0,
    {
        self.depth_data.as_ref()
    }

    /// Sets the point-cloud frames, by topic.
    pub fn set_pointcloud_data(&mut self, pointcloud_data: HashMap<String, Vec<PointCloudFrame>>)
        ensures
            *final(self) == (Context { pointcloud_data: Some(pointcloud_data), ..*old(self) }),
    {
        self.pointcloud_data = Some(pointcloud_data);
    }

    /// Returns the point-cloud frames, by topic, when set.
    pub fn pointcloud_data(&self) -> (r: Option<&HashMap<String, Vec<PointCloudFrame>>>)
        ensures
            r is Some <==> self.pointcloud_data is Some,
            r is Some ==> *r->0 == self.pointcloud_data->0,
    {
        self.pointcloud_data.as_ref()
    }

    /// Sets the frame rate of the run.
    pub fn set_fps(&mut self, fps: usize)
        ensures
            *final(self) == (Context { fps: Some(fps), ..*old(self) }),
    {
        self.fps = Some(fps);
    }

    /// Returns the frame rate of the run, when set.
    pub fn fps(&self) -> (r: Option<usize>)
        ensures
            r == self.fps,
    {
        self.fps
    }

    /// Sets the output directory.
    pub fn set_output_dir(&mut self, output_dir: String)
        ensures
            *final(self) == (Context { output_dir: Some(output_dir), ..*old(self) }),
    {
        self.output_dir = Some(output_dir);
    }

    /// Returns the output directory, when set.
    pub fn output_dir(&self) -> (r: Option<&str>)
        ensures
            match self.output_dir {
                Some(p) => r matches Some(s) && s@ == p@,
                None => r is None,
            },
    {
        match &self.output_dir {
            Some(p) => Some(p.as_str()),
            None => None,
        }
    }

    /// Sets the directory for encoded videos.
    pub fn set_video_cache_dir(&mut self, video_cache_dir: String)
        ensures
            *final(self) == (Context { video_cache_dir: Some(video_cache_dir), ..*old(self) }),
    {
        self.video_cache_dir = Some(video_cache_dir);
    }

    /// Returns the directory for encoded videos, when set.
    pub fn video_cache_dir(&self) -> (r: Option<&str>)
        ensures
            match self.video_cache_dir {
                Some(p) => r matches Some(s) && s@ == p@,
                None => r is None,
            },
    {
        match &self.video_cache_dir {
            Some(p) => Some(p.as_str()),
            None => None,
        }
    }

    /// Sets the path of the recording read.
    pub fn set_rosbag_path(&mut self, rosbag_path: String)
        ensures
            *final(self) == (Context { rosbag_path: Some(rosbag_path), ..*old(self) }),
    {
        self.rosbag_path = Some(rosbag_path);
    }

    /// Returns the path of the recording read, when set.
    pub fn rosbag_path(&self) -> (r: Option<&str>)
        ensures
            match self.rosbag_path {
                Some(p) => r matches Some(s) && s@ == p@,
                None => r is None,
            },
    {
        match &self.rosbag_path {
            Some(p) => Some(p.as_str()),
            None => None,
        }
    }

    /// Sets the root that relative artifact paths are taken under.
    pub fn set_bundle_root(&mut self, bundle_root: String)
        ensures
            *final(self) == (Context { bundle_root: Some(bundle_root), ..*old(self) }),
    {
        self.bundle_root = Some(bundle_root);
    }

    /// Returns the root that relative artifact paths are taken under, when set.
    pub fn bundle_root(&self) -> (r: Option<&str>)
        ensures
            match self.bundle_root {
                Some(p) => r matches Some(s) && s@ == p@,
                None => r is None,
            },
    {
        match &self.bundle_root {
            Some(p) => Some(p.as_str()),
            None => None,
        }
    }

    /// Sets the encoded video of each topic.
    pub fn set_video_registry(&mut self, video_registry: HashMap<String, VideoArtifact>)
        ensures
            *final(self) == (Context { video_registry: Some(video_registry), ..*old(self) }),
    {
        self.video_registry = Some(video_registry);
    }

    /// Returns the encoded video of each topic, when set.
    pub fn video_registry(&self) -> (r: Option<&HashMap<String, VideoArtifact>>)
        ensures
            r is Some <==> self.video_registry is Some,
            r is Some ==> *r->0 == self.video_registry->0,
    {
        self.video_registry.as_ref()
    }

    /// Sets the message type of each topic.
    pub fn set_topic_message_type_map(&mut self, topic_message_type_map: HashMap<String, String>)
        ensures
            *final(self) == (Context { topic_message_type_map: Some(topic_message_type_map), ..*old(self) }),
    {
        self.topic_message_type_map = Some(topic_message_type_map);
    }

    /// Returns the message type of each topic, when set.
    pub fn topic_message_type_map(&self) -> (r: Option<&HashMap<String, String>>)
        ensures
            r is Some <==> self.topic_message_type_map is Some,
            r is Some ==> *r->0 == self.topic_message_type_map->0,
    {
        self.topic_message_type_map.as_ref()
    }

    /// Adds to the topic shapes every registry topic they do not list yet,
    /// with the shape its video's metadata describes; shapes already listed
    /// stay. Without a registry nothing changes.
    pub fn populate_image_topic_shapes_from_video_registry(&mut self) -> (r: Result<(), StageError>)
        ensures
            final(self).video_registry == old(self).video_registry,
            final(self).image_data == old(self).image_data,
            final(self).depth_data == old(self).depth_data,
            final(self).pointcloud_data == old(self).pointcloud_data,
            final(self).fps == old(self).fps,
            final(self).output_dir == old(self).output_dir,
            final(self).video_cache_dir == old(self).video_cache_dir,
            final(self).rosbag_path == old(self).rosbag_path,
            final(self).bundle_root == old(self).bundle_root,
            final(self).topic_message_type_map == old(self).topic_message_type_map,
            match old(self).video_registry {
                None => r is Ok && final(self).image_topic_shapes == old(
                    self,
                ).image_topic_shapes,
                Some(registry) => {
                    &&& final(self).image_topic_shapes is Some
                    &&& (r is Ok <==> registry_shapes_ok(registry@))
                    &&& r is Ok ==> shapes_filled(
                        shapes_view(old(self).image_topic_shapes),
                        registry@,
                        shapes_view(final(self).image_topic_shapes),
                    )
                    &&& r matches Err(e) ==> exists|k: String| #[trigger]
                        registry@.contains_key(k) && (metadata_shape(registry@[k].metadata) matches Err(
                            m,
                        ) && is_invalid_message(e, m))
                },
            },
    {
        let registry = match &self.video_registry {
            Some(m) => m,
            None => return Ok(()),
        };
        let entries = registry_entries(registry);
        let ghost reg = registry@;
        let ghost before = shapes_view(self.image_topic_shapes);
        let mut shapes = match self.image_topic_shapes.take() {
            Some(m) => m,
            None => HashMap::new(),
        };
        let mut i: usize = 0;
        while i < entries.len()
            invariant
                i <= entries.len(),
                old(self).video_registry matches Some(m) && m@ == reg,
                self.video_registry == old(self).video_registry,
                self.image_data == old(self).image_data,
                self.depth_data == old(self).depth_data,
                self.pointcloud_data == old(self).pointcloud_data,
                self.fps == old(self).fps,
                self.output_dir == old(self).output_dir,
                self.video_cache_dir == old(self).video_cache_dir,
                self.rosbag_path == old(self).rosbag_path,
                self.bundle_root == old(self).bundle_root,
                self.topic_message_type_map == old(self).topic_message_type_map,
                before == shapes_view(old(self).image_topic_shapes),
                forall|j: int|
                    #![trigger entries@[j]]
                    0 <= j < entries.len() ==> reg.contains_key(entries@[j].0)
                        && reg[entries@[j].0] == entries@[j].1,
                forall|a: int, b: int| 0 <= a < b < entries.len() ==> entries@[a].0@ != entries@[b].0@,
                forall|j: int|
                    #![trigger entries@[j]]
                    0 <= j < i ==> metadata_shape(entries@[j].1.metadata) is Ok,
                forall|k: String| #[trigger]
                    before.contains_key(k) ==> shapes@.contains_key(k) && shapes@[k] == before[k],
                forall|j: int|
                    #![trigger entries@[j]]
                    0 <= j < i && !topic_listed(before, entries@[j].0@) ==> shapes@.contains_key(
                        entries@[j].0,
                    ) && metadata_shape(entries@[j].1.metadata) == Ok::<ImageShape, Seq<char>>(
                        shapes@[entries@[j].0],
                    ),
                forall|k: String| #[trigger]
                    shapes@.contains_key(k) ==> before.contains_key(k) || exists|j: int|
                        0 <= j < i && entries@[j].0 == k && !topic_listed(before, k@),
            decreases entries.len() - i,
        {
            let shape = match entries[i].1.image_shape() {
                Ok(s) => s,
                Err(e) => {
                    self.image_topic_shapes = Some(shapes);
                    assert(reg.contains_key(entries@[i as int].0));
                    return Err(e);
                },
            };
            let ghost prior = shapes@;
            proof {
                let key = entries@[i as int].0;
                if topic_listed(prior, key@) {
                    let k = choose|k: String| #[trigger] prior.contains_key(k) && k@ == key@;
                    if !before.contains_key(k) {
                        let j = choose|j: int| 0 <= j < i && entries@[j].0 == k && !topic_listed(before, k@);
                        assert(entries@[j].0@ != entries@[i as int].0@);
                    }
                    assert(topic_listed(before, key@));
                } else {
                    assert forall|k: String| #[trigger] before.contains_key(k) implies k@ != key@ by {
                        assert(prior.contains_key(k));
                    }
                }
            }
            insert_shape_if_absent(&mut shapes, entries[i].0.clone(), shape);
            proof {
                let key = entries@[i as int].0;
                assert forall|k: String| #[trigger] shapes@.contains_key(k) implies before.contains_key(k)
                    || exists|j: int| 0 <= j < i + 1 && entries@[j].0 == k && !topic_listed(before, k@) by {
                    if prior.contains_key(k) {
                        if !before.contains_key(k) {
                            let j = choose|j: int| 0 <= j < i && entries@[j].0 == k && !topic_listed(before, k@);
                            assert(0 <= j < i + 1 && entries@[j].0 == k);
                        }
                    } else {
                        assert(k == key);
                        assert(!topic_listed(before, key@));
                    }
                }
            }
            i += 1;
        }
        proof {
            let after = shapes@;
            assert forall|k: String| #[trigger] reg.contains_key(k) implies metadata_shape(
                reg[k].metadata,
            ) is Ok by {
                let j = choose|j: int| 0 <= j < entries.len() && entries@[j].0 == k;
                assert(entries@[j].0 == k);
            }
            assert forall|k: String| #[trigger]
                reg.contains_key(k) && !topic_listed(before, k@) implies after.contains_key(k)
                && metadata_shape(reg[k].metadata) == Ok::<ImageShape, Seq<char>>(after[k]) by {
                let j = choose|j: int| 0 <= j < entries.len() && entries@[j].0 == k;
                assert(entries@[j].0 == k);
            }
            assert forall|k: String| #[trigger] after.contains_key(k) implies before.contains_key(k)
                || (reg.contains_key(k) && !topic_listed(before, k@)) by {
                if !before.contains_key(k) {
                    let j = choose|j: int| 0 <= j < i && entries@[j].0 == k && !topic_listed(before, k@);
                    assert(entries@[j].0 == k);
                }
            }
        }
        self.image_topic_shapes = Some(shapes);
        Ok(())
    }

    /// Resolves the local path of `topic`'s video: its registry artifact's path,
    /// taken under the bundle root when it is relative.
    pub fn resolve_video_path(&self, topic: &str) -> (r: Result<String, StageError>)
        ensures
            match self.video_registry {
                None => is_missing(r, "video_registry in context"@),
                Some(registry) => {
                    &&& (forall|k: String| #[trigger] registry@.contains_key(k) ==> k@ != topic@)
                        ==> is_missing(r, "video artifact for topic: "@ + topic@)
                    &&& forall|k: String| #[trigger]
                        registry@.contains_key(k) && k@ == topic@ ==> is_resolution(
                            r,
                            registry@[k].video_path@,
                            root_view(self.bundle_root),
                        )
                },
            },
    {
        let registry = match &self.video_registry {
            Some(m) => m,
            None => return Err(StageError::missing("video_registry in context")),
        };
        match artifact_of_topic(registry, topic) {
            Some(artifact) => {
artifact.resolve_path(self.bundle_root())
            },
            None => {
                let mut what = "video artifact for topic: ".to_string();
                push_str(&mut what, topic);
                Err(StageError::MissingData(what))
            },
        }
    }

    /// Resolves the local path of every video in the registry, keyed by topic.
    /// Fails when a relative path meets a context without a bundle root.
    pub fn resolve_video_paths(&self) -> (r: Result<HashMap<String, String>, StageError>)
        ensures
            match self.video_registry {
                None => is_missing(r, "video_registry in context"@),
                Some(registry) => if registry_resolves(registry@, root_view(self.bundle_root)) {
                    r matches Ok(paths) && paths@.dom() == registry@.dom() && forall|k: String|
                        #[trigger] paths@.contains_key(k) ==> resolved_path(
                            registry@[k].video_path@,
                            root_view(self.bundle_root),
                        ) == Some(paths@[k]@)
                } else {
                    is_missing(r, missing_bundle_root())
                },
            },
    {
        let registry = match &self.video_registry {
            Some(m) => m,
            None => return Err(StageError::missing("video_registry in context")),
        };
        let ghost reg = registry@;
        let ghost root = root_view(self.bundle_root);
        let entries = registry_entries(registry);
        let root_str = self.bundle_root();
        let mut paths: HashMap<String, String> = HashMap::new();
        let mut i: usize = 0;
        while i < entries.len()
            invariant
                i <= entries.len(),
                self.video_registry matches Some(m) && m@ == reg,
                root == root_view(self.bundle_root),
                match root_str {
                    Some(s) => root == Some(s@),
                    None => root is None,
                },
                forall|j: int|
                    #![trigger entries@[j]]
                    0 <= j < entries.len() ==> reg.contains_key(entries@[j].0)
                        && reg[entries@[j].0] == entries@[j].1,
                forall|a: int, b: int| 0 <= a < b < entries.len() ==> entries@[a].0@ != entries@[b].0@,
                forall|k: String| #[trigger]
                    paths@.contains_key(k) <==> exists|j: int| 0 <= j < i && entries@[j].0 == k,
                forall|j: int|
                    #![trigger entries@[j]]
                    0 <= j < i ==> resolved_path(entries@[j].1.video_path@, root) == Some(
                        paths@[entries@[j].0]@,
                    ),
            decreases entries.len() - i,
        {
            let path = match entries[i].1.resolve_path(root_str) {
                Ok(p) => p,
                Err(e) => {
                    assert(reg.contains_key(entries@[i as int].0));
                    return Err(e);
                },
            };
            let ghost prior = paths@;
            proof {
                assert forall|k: String| #[trigger] prior.contains_key(k) implies k@ != entries@[i as int].0@ by {
                    let j = choose|j: int| 0 <= j < i && entries@[j].0 == k;
                    assert(entries@[j].0@ != entries@[i as int].0@);
                }
            }
            insert_path(&mut paths, entries[i].0.clone(), path);
            proof {
                assert forall|k: String| #[trigger] paths@.contains_key(k) implies exists|j: int|
                    0 <= j < i + 1 && entries@[j].0 == k by {
                    if k != entries@[i as int].0 {
                        let j = choose|j: int| 0 <= j < i && entries@[j].0 == k;
                        assert(0 <= j < i + 1 && entries@[j].0 == k);
                    } else {
                        assert(entries@[i as int].0 == k);
                    }
                }
                assert forall|j: int|
                    #![trigger entries@[j]]
                    0 <= j < i + 1 implies resolved_path(entries@[j].1.video_path@, root) == Some(
                        paths@[entries@[j].0]@,
                    ) by {
                    if j < i {
                        assert(entries@[j].0@ != entries@[i as int].0@);
                    }
                }
            }
            i += 1;
        }
        proof {
            assert forall|k: String| #[trigger] reg.contains_key(k) implies paths@.contains_key(k) by {
                let j = choose|j: int| 0 <= j < entries.len() && entries@[j].0 == k;
                assert(entries@[j].0 == k);
            }
            assert(paths@.dom() =~= reg.dom());
            assert forall|k: String| #[trigger] reg.contains_key(k) implies resolved_path(
                reg[k].video_path@,
                root,
            ) is Some by {
                let j = choose|j: int| 0 <= j < entries.len() && entries@[j].0 == k;
                assert(entries@[j].0 == k);
            }
            assert forall|k: String| #[trigger] paths@.contains_key(k) implies resolved_path(
                reg[k].video_path@,
                root,
            ) == Some(paths@[k]@) by {
                let j = choose|j: int| 0 <= j < i && entries@[j].0 == k;
                assert(entries@[j].0 == k);
            }
        }
        Ok(paths)
    }
}

} // verus!
