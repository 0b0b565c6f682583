//! The decisions of the RGB video encoder stage.
//!
//! The stage encodes every image topic of the context into an MP4 file under
//! `{video cache}/{recording uuid}`. Encoding itself is done by the encoders;
//! this module decides where the videos go and what the context holds after
//! the stage.

use std::collections::HashMap;
use vstd::prelude::*;
use crate::context::Context;
use crate::error::StageError;
use crate::video_artifact::{VideoArtifact, is_absolute_path, join_path, joined_path, path_is_absolute};

verus! {

/// The video cache directory used when the context names none.
pub open spec fn default_video_cache() -> Seq<char> {
    "./video_cache"@
}

/// The `what` of the error for a context without recording metadata.
pub open spec fn missing_metadata() -> Seq<char> {
    "airoa_metadata in context (did Rosbag2Ingestor load meta.json?)"@
}

/// The base video cache directory: the configured one, or `./video_cache`.
pub open spec fn cache_base(configured: Option<Seq<char>>) -> Seq<char> {
    match configured {
        Some(c) => c,
        None => default_video_cache(),
    }
}

/// The directory a recording's videos go to: the base directory, made
/// absolute against `cwd` when it is relative, with the recording's uuid
/// joined on.
pub open spec fn video_cache_dir_of(configured: Option<Seq<char>>, cwd: Seq<char>, uuid: Seq<char>) -> Seq<
    char,
> {
    let base = cache_base(configured);
    let absolute = if is_absolute_path(base) {
        base
    } else {
        joined_path(cwd, base)
    };
    joined_path(absolute, uuid)
}

/// Whether finding the video cache directory needs the current directory:
/// the base directory is relative.
pub fn video_cache_needs_cwd(configured: Option<&str>) -> (b: bool)
    ensures
        b == !is_absolute_path(
            cache_base(
                match configured {
                    Some(c) => Some(c@),
                    None => None,
                },
            ),
        ),
{
    match configured {
        Some(c) => !path_is_absolute(c),
        None => !path_is_absolute("./video_cache"),
    }
}

/// The directory the recording's videos go to; `cwd` is read only when the
/// base directory is relative. A recording without a uuid (no metadata) is
/// refused.
pub fn video_cache_dir_for(configured: Option<&str>, cwd: &str, uuid: Option<&str>) -> (r: Result<
    String,
    StageError,
>)
    ensures
        match uuid {
            None => r matches Err(StageError::MissingData(w)) && w@ == missing_metadata(),
            Some(u) => r matches Ok(d) && d@ == video_cache_dir_of(
                match configured {
                    Some(c) => Some(c@),
                    None => None,
                },
                cwd@,
                u@,
            ),
        },
{
    let base: &str = match configured {
        Some(c) => c,
        None => "./video_cache",
    };
    let absolute: String = if path_is_absolute(base) {
        base.to_string()
    } else {
        join_path(cwd, base)
    };
    match uuid {
        None => Err(StageError::missing("airoa_metadata in context (did Rosbag2Ingestor load meta.json?)")),
        Some(u) => Ok(join_path(absolute.as_str(), u)),
    }
}

/// `m` with `v` stored under `k`, or under the key of `m` that spells `k`
/// when there is one (a map keeps its key when a value is replaced).
pub open spec fn insert_by_view(m: Map<String, VideoArtifact>, k: String, v: VideoArtifact) -> Map<
    String,
    VideoArtifact,
> {
    if exists|j: String| #[trigger] m.contains_key(j) && j@ == k@ {
        m.insert(choose|j: String| #[trigger] m.contains_key(j) && j@ == k@, v)
    } else {
        m.insert(k, v)
    }
}

/// `m` with every entry of `entries` stored in turn.
pub open spec fn insert_all(m: Map<String, VideoArtifact>, entries: Seq<(String, VideoArtifact)>) -> Map<
    String,
    VideoArtifact,
>
    decreases entries.len(),
{
    if entries.len() == 0 {
        m
    } else {
        insert_by_view(insert_all(m, entries.drop_last()), entries.last().0, entries.last().1)
    }
}

/// Stores `artifact` under `topic` (`HashMap::insert`): a key already spelling
/// `topic` keeps its place and gets the new artifact.
#[verifier::external_body]
fn insert_artifact(registry: &mut HashMap<String, VideoArtifact>, topic: String, artifact: VideoArtifact)
    ensures
        final(registry)@ == insert_by_view(old(registry)@, topic, artifact),
{
    registry.insert(topic, artifact);
}

/// The registry a context holds, the empty map when it holds none.
pub open spec fn registry_view(r: Option<HashMap<String, VideoArtifact>>) -> Map<String, VideoArtifact> {
    match r {
        Some(m) => m@,
        None => Map::empty(),
    }
}

/// Stores each artifact in the context's video registry (added to what it
/// held, left unset when empty) and makes the cache directory both the video
/// cache directory and the bundle root.
fn record_artifacts(ctx: Context, cache_dir: String, artifacts: Vec<(String, VideoArtifact)>) -> (out: Context)
    ensures
        out.image_data == ctx.image_data,
        out.image_topic_shapes == ctx.image_topic_shapes,
        out.depth_data == ctx.depth_data,
        out.pointcloud_data == ctx.pointcloud_data,
        out.fps == ctx.fps,
        out.output_dir == ctx.output_dir,
        out.rosbag_path == ctx.rosbag_path,
        out.topic_message_type_map == ctx.topic_message_type_map,
        out.video_cache_dir == Some(cache_dir),
        out.bundle_root == Some(cache_dir),
        ({
            let after = insert_all(registry_view(ctx.video_registry), artifacts@);
            match out.video_registry {
                Some(m) => m@ == after && !after.is_empty(),
                None => after.is_empty(),
            }
        }),
{
    let ghost orig = ctx;
    let mut ctx = ctx;
    let mut registry = match ctx.video_registry.take() {
        Some(m) => m,
        None => HashMap::new(),
    };
    let ghost before = registry@;
    assert(before == registry_view(orig.video_registry));
    let mut rest = artifacts;
    let ghost all = rest@;
    assert(all.len() == rest.len());
    let mut i: usize = 0;
    while rest.len() > 0
        invariant
            i + rest@.len() == all.len(),
            all.len() <= usize::MAX,
            rest@ == all.subrange(i as int, all.len() as int),
            registry@ == insert_all(before, all.take(i as int)),
            ctx.video_registry is None,
            ctx.image_data == orig.image_data,
            ctx.image_topic_shapes == orig.image_topic_shapes,
            ctx.depth_data == orig.depth_data,
            ctx.pointcloud_data == orig.pointcloud_data,
            ctx.fps == orig.fps,
            ctx.output_dir == orig.output_dir,
            ctx.rosbag_path == orig.rosbag_path,
            ctx.topic_message_type_map == orig.topic_message_type_map,
        decreases rest.len(),
    {
        let (topic, artifact) = rest.remove(0);
        proof {
            assert(all.take(i + 1).drop_last() =~= all.take(i as int));
            assert(all.take(i + 1).last() == all[i as int]);
        }
        insert_artifact(&mut registry, topic, artifact);
        i += 1;
    }
    assert(all.take(i as int) =~= all);
    ctx.video_cache_dir = Some(cache_dir.clone());
    ctx.bundle_root = Some(cache_dir);
    if !registry.is_empty() {
        ctx.video_registry = Some(registry);
    }
    ctx
}

/// Records the outcome of the RGB video stage in the context. Without image
/// data the stage only sets the video cache directory. Otherwise the cache
/// directory also becomes the bundle root, and each topic's artifact is stored
/// in the video registry (added to what it held), which is left unset when empty.
pub fn record_rgb_videos(ctx: Context, cache_dir: String, artifacts: Vec<(String, VideoArtifact)>) -> (out:
    Context)
    ensures
        out.image_data == ctx.image_data,
        out.image_topic_shapes == ctx.image_topic_shapes,
        out.depth_data == ctx.depth_data,
        out.pointcloud_data == ctx.pointcloud_data,
        out.fps == ctx.fps,
        out.output_dir == ctx.output_dir,
        out.rosbag_path == ctx.rosbag_path,
        out.topic_message_type_map == ctx.topic_message_type_map,
        out.video_cache_dir == Some(cache_dir),
        ctx.image_data is None ==> out.bundle_root == ctx.bundle_root && out.video_registry
            == ctx.video_registry,
        ctx.image_data is Some ==> {
            let after = insert_all(registry_view(ctx.video_registry), artifacts@);
            &&& out.bundle_root == Some(cache_dir)
            &&& match out.video_registry {
                Some(m) => m@ == after && !after.is_empty(),
                None => after.is_empty(),
            }
        },
{
    if ctx.image_data.is_none() {
        let mut ctx = ctx;
        ctx.video_cache_dir = Some(cache_dir);
        return ctx;
    }
    record_artifacts(ctx, cache_dir, artifacts)
}

/// Records the outcome of the depth video stage in the context. Without depth
/// data the stage only sets the video cache directory. Otherwise the cache
/// directory also becomes the bundle root, and each depth topic's artifact is
/// stored in the video registry (added to what it held), which is left unset
/// when empty.
pub fn record_depth_videos(ctx: Context, cache_dir: String, artifacts: Vec<(String, VideoArtifact)>) -> (out:
    Context)
    ensures
        out.image_data == ctx.image_data,
        out.image_topic_shapes == ctx.image_topic_shapes,
        out.depth_data == ctx.depth_data,
        out.pointcloud_data == ctx.pointcloud_data,
        out.fps == ctx.fps,
        out.output_dir == ctx.output_dir,
        out.rosbag_path == ctx.rosbag_path,
        out.topic_message_type_map == ctx.topic_message_type_map,
        out.video_cache_dir == Some(cache_dir),
        ctx.depth_data is None ==> out.bundle_root == ctx.bundle_root && out.video_registry
            == ctx.video_registry,
        ctx.depth_data is Some ==> {
            let after = insert_all(registry_view(ctx.video_registry), artifacts@);
            &&& out.bundle_root == Some(cache_dir)
            &&& match out.video_registry {
                Some(m) => m@ == after && !after.is_empty(),
                None => after.is_empty(),
            }
        },
{
    if ctx.depth_data.is_none() {
        let mut ctx = ctx;
        ctx.video_cache_dir = Some(cache_dir);
        return ctx;
    }
    record_artifacts(ctx, cache_dir, artifacts)
}

/// The directory depth videos are written to: `videos` under the cache directory.
pub fn depth_videos_dir(cache_dir: &str) -> (r: String)
    ensures
        r@ == joined_path(cache_dir@, "videos"@),
{
    join_path(cache_dir, "videos")
}

/// Where a recording's videos go: under a configured absolute directory, the
/// uuid joined onto it; under a configured relative directory, the uuid joined
/// onto that directory taken from `cwd`; without a configured directory, the
/// same with `./video_cache`. The configured directory is never skipped.
pub proof fn lemma_video_cache_dir_layout(base: Seq<char>, cwd: Seq<char>, uuid: Seq<char>)
    ensures
        is_absolute_path(base) ==> video_cache_dir_of(Some(base), cwd, uuid) == joined_path(base, uuid),
        !is_absolute_path(base) ==> video_cache_dir_of(Some(base), cwd, uuid) == joined_path(
            joined_path(cwd, base),
            uuid,
        ),
        video_cache_dir_of(None, cwd, uuid) == video_cache_dir_of(Some("./video_cache"@), cwd, uuid),
{
}

} // verus!
