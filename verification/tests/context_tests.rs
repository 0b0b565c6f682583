use std::collections::HashMap;

use rebake::common::ImageShape;
use rebake::context::Context;
use rebake::video_artifact::{VideoArtifact, VideoMetadata};

fn sample_artifact() -> VideoArtifact {
    VideoArtifact {
        video_path: "/tmp/camera.mp4".to_string(),
        metadata: VideoMetadata {
            media_type: "rgb".to_string(),
            codec_family: "av1".to_string(),
            encoder_name: "libsvtav1".to_string(),
            pix_fmt: "yuv420p".to_string(),
            width: 640,
            height: 480,
            fps: 30,
            encoding_config_json: "{}".to_string(),
        },
    }
}

fn artifact(path: &str, media_type: &str, width: u32, height: u32) -> VideoArtifact {
    let mut a = sample_artifact();
    a.video_path = path.to_string();
    a.metadata.media_type = media_type.to_string();
    a.metadata.width = width;
    a.metadata.height = height;
    a
}

#[test]
fn populate_image_topic_shapes_from_video_registry_adds_missing_topics() {
    let mut context = Context::default();
    context.set_video_registry(HashMap::from([("/camera/image".to_string(), sample_artifact())]));

    context.populate_image_topic_shapes_from_video_registry().unwrap();

    assert_eq!(
        context.image_topic_shapes().and_then(|shapes| shapes.get("/camera/image").copied()),
        Some(ImageShape::new(480, 640, 3))
    );
}

#[test]
fn populate_image_topic_shapes_from_video_registry_preserves_existing_shapes() {
    let mut context = Context::default();
    context.set_video_registry(HashMap::from([("/camera/image".to_string(), sample_artifact())]));
    context.set_image_topic_shapes(HashMap::from([(
        "/camera/image".to_string(),
        ImageShape::new(10, 20, 3),
    )]));

    context.populate_image_topic_shapes_from_video_registry().unwrap();

    assert_eq!(
        context.image_topic_shapes().and_then(|shapes| shapes.get("/camera/image").copied()),
        Some(ImageShape::new(10, 20, 3))
    );
}

#[test]
fn populate_without_registry_changes_nothing() {
    let mut context = Context::default();
    context.populate_image_topic_shapes_from_video_registry().unwrap();
    assert!(context.image_topic_shapes().is_none());
}

#[test]
fn populate_adds_depth_topics_and_keeps_other_shapes() {
    let mut context = Context::default();
    context.set_video_registry(HashMap::from([
        ("/camera/image".to_string(), sample_artifact()),
        ("/camera/depth".to_string(), artifact("videos/depth.mkv", "depth", 848, 480)),
    ]));
    context.set_image_topic_shapes(HashMap::from([("/other".to_string(), ImageShape::new(1, 2, 3))]));

    context.populate_image_topic_shapes_from_video_registry().unwrap();

    let shapes = context.image_topic_shapes().unwrap();
    assert_eq!(shapes.len(), 3);
    assert_eq!(shapes.get("/camera/image"), Some(&ImageShape::new(480, 640, 3)));
    assert_eq!(shapes.get("/camera/depth"), Some(&ImageShape::new(480, 848, 1)));
    assert_eq!(shapes.get("/other"), Some(&ImageShape::new(1, 2, 3)));
}

#[test]
fn populate_rejects_an_artifact_without_a_shape() {
    let mut context = Context::default();
    context.set_video_registry(HashMap::from([(
        "/camera/segmentation".to_string(),
        artifact("/tmp/seg.mp4", "segmentation", 640, 480),
    )]));
    // The artifact is refused even though its topic already has a shape.
    context.set_image_topic_shapes(HashMap::from([(
        "/camera/segmentation".to_string(),
        ImageShape::new(480, 640, 3),
    )]));

    let error = context.populate_image_topic_shapes_from_video_registry().unwrap_err();
    assert_eq!(
        error.reason(),
        "invalid data: unsupported media_type in video metadata: segmentation"
    );
    assert!(context.image_topic_shapes().is_some());
}

#[test]
fn artifact_paths_resolve_against_the_bundle_root() {
    let absolute = sample_artifact();
    assert_eq!(absolute.resolve_path(None).unwrap(), "/tmp/camera.mp4");
    assert_eq!(absolute.resolve_path(Some("/bundle")).unwrap(), "/tmp/camera.mp4");

    let relative = artifact("videos/camera.mp4", "rgb", 640, 480);
    assert_eq!(relative.resolve_path(Some("/bundle")).unwrap(), "/bundle/videos/camera.mp4");
    let error = relative.resolve_path(None).unwrap_err();
    assert!(error.is_missing());
    assert_eq!(
        error.reason(),
        "missing required data: bundle_root in context for relative video artifact path"
    );
}

#[test]
fn resolve_video_path_looks_the_topic_up() {
    let mut context = Context::default();
    let error = context.resolve_video_path("/camera/image").unwrap_err();
    assert_eq!(error.reason(), "missing required data: video_registry in context");

    context.set_video_registry(HashMap::from([(
        "/camera/image".to_string(),
        artifact("videos/camera.mp4", "rgb", 640, 480),
    )]));
    let error = context.resolve_video_path("/camera/depth").unwrap_err();
    assert_eq!(error.reason(), "missing required data: video artifact for topic: /camera/depth");
    assert!(context.resolve_video_path("/camera/image").unwrap_err().is_missing());

    context.set_bundle_root("/data/bundle".to_string());
    assert_eq!(context.bundle_root(), Some("/data/bundle"));
    assert_eq!(
        context.resolve_video_path("/camera/image").unwrap(),
        "/data/bundle/videos/camera.mp4"
    );
}

#[test]
fn resolve_video_paths_resolves_every_topic() {
    let mut context = Context::default();
    assert!(context.resolve_video_paths().is_err());

    context.set_video_registry(HashMap::from([
        ("/camera/image".to_string(), sample_artifact()),
        ("/camera/depth".to_string(), artifact("videos/depth.mkv", "depth", 848, 480)),
    ]));
    let error = context.resolve_video_paths().unwrap_err();
    assert_eq!(
        error.reason(),
        "missing required data: bundle_root in context for relative video artifact path"
    );

    context.set_bundle_root("/bundle".to_string());
    let paths = context.resolve_video_paths().unwrap();
    assert_eq!(paths.len(), 2);
    assert_eq!(paths["/camera/image"], "/tmp/camera.mp4");
    assert_eq!(paths["/camera/depth"], "/bundle/videos/depth.mkv");
}

#[test]
fn context_setters_and_getters() {
    let mut context = Context::default();
    assert_eq!(context.fps(), None);
    context.set_fps(30);
    assert_eq!(context.fps(), Some(30));
    context.set_output_dir("/out".to_string());
    context.set_video_cache_dir("/cache".to_string());
    context.set_rosbag_path("/bags/run.mcap".to_string());
    assert_eq!(context.output_dir(), Some("/out"));
    assert_eq!(context.video_cache_dir(), Some("/cache"));
    assert_eq!(context.rosbag_path(), Some("/bags/run.mcap"));
    context.set_topic_message_type_map(HashMap::from([(
        "/tf".to_string(),
        "tf2_msgs/msg/TFMessage".to_string(),
    )]));
    assert_eq!(context.topic_message_type_map().unwrap()["/tf"], "tf2_msgs/msg/TFMessage");
    assert!(context.image_data().is_none());
    assert!(context.depth_data().is_none());
    assert!(context.pointcloud_data().is_none());
    assert!(context.video_registry().is_none());
}

#[test]
fn populating_twice_changes_nothing() {
    let mut context = Context::default();
    context.set_video_registry(HashMap::from([
        ("/camera/image".to_string(), sample_artifact()),
        ("/camera/depth".to_string(), artifact("videos/depth.mkv", "depth", 848, 480)),
    ]));
    context.populate_image_topic_shapes_from_video_registry().unwrap();
    let first = context.image_topic_shapes().unwrap().clone();
    context.populate_image_topic_shapes_from_video_registry().unwrap();
    assert_eq!(context.image_topic_shapes().unwrap(), &first);
}
