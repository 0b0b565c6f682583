use std::collections::HashMap;

use rebake::common::{DepthFrame, ImageFrame};
use rebake::context::Context;
use rebake::video_artifact::{VideoArtifact, VideoMetadata};
use rebake::video_stage::{
    depth_videos_dir, record_depth_videos, record_rgb_videos, video_cache_dir_for, video_cache_needs_cwd,
};

fn artifact(path: &str) -> VideoArtifact {
    VideoArtifact {
        video_path: path.to_string(),
        metadata: VideoMetadata {
            media_type: "rgb".to_string(),
            codec_family: "av1".to_string(),
            encoder_name: "libsvtav1".to_string(),
            pix_fmt: "yuv420p".to_string(),
            width: 640,
            height: 480,
            fps: 30,
            encoding_config_json: "{}".to_string(),
        },
    }
}

#[test]
fn video_cache_dir_defaults_and_joins_the_uuid() {
    assert!(video_cache_needs_cwd(None));
    assert!(video_cache_needs_cwd(Some("cache")));
    assert!(!video_cache_needs_cwd(Some("/data/cache")));
    assert_eq!(
        video_cache_dir_for(None, "/work", Some("uuid-123")).unwrap(),
        "/work/./video_cache/uuid-123"
    );
    assert_eq!(
        video_cache_dir_for(Some("/data/cache"), "", Some("uuid-123")).unwrap(),
        "/data/cache/uuid-123"
    );
    let err = video_cache_dir_for(Some("/data/cache"), "", None).unwrap_err();
    assert_eq!(
        err.reason(),
        "missing required data: airoa_metadata in context (did Rosbag2Ingestor load meta.json?)"
    );
}

#[test]
fn recording_without_image_data_only_sets_the_cache_dir() {
    let context = record_rgb_videos(Context::default(), "/cache/uuid".to_string(), vec![]);
    assert_eq!(context.video_cache_dir(), Some("/cache/uuid"));
    assert_eq!(context.bundle_root(), None);
    assert!(context.video_registry().is_none());
}

#[test]
fn recording_sets_bundle_root_and_registry() {
    let mut context = Context::default();
    context.set_image_data(HashMap::from([(
        "/camera/image".to_string(),
        vec![ImageFrame::new(0, "jpg", vec![1, 2, 3])],
    )]));
    context.set_video_registry(HashMap::from([("/camera/depth".to_string(), artifact("camera/depth.mkv"))]));
    let context = record_rgb_videos(
        context,
        "/cache/uuid".to_string(),
        vec![("/camera/image".to_string(), artifact("camera/image.mp4"))],
    );
    assert_eq!(context.video_cache_dir(), Some("/cache/uuid"));
    assert_eq!(context.bundle_root(), Some("/cache/uuid"));
    let registry = context.video_registry().unwrap();
    assert_eq!(registry.len(), 2);
    assert_eq!(registry["/camera/image"].video_path, "camera/image.mp4");
    assert!(context.image_data().is_some());

    let mut empty = Context::default();
    empty.set_image_data(HashMap::new());
    let empty = record_rgb_videos(empty, "/cache/uuid".to_string(), vec![]);
    assert_eq!(empty.bundle_root(), Some("/cache/uuid"));
    assert!(empty.video_registry().is_none());
}

#[test]
fn recording_depth_videos_extends_the_registry() {

    assert_eq!(depth_videos_dir("/cache/uuid"), "/cache/uuid/videos");

    let skipped = record_depth_videos(Context::default(), "/cache/uuid".to_string(), vec![]);
    assert_eq!(skipped.video_cache_dir(), Some("/cache/uuid"));
    assert_eq!(skipped.bundle_root(), None);

    let mut context = Context::default();
    context.set_depth_data(HashMap::from([(
        "/camera/depth".to_string(),
        vec![DepthFrame::new(0, "bin", vec![1, 2, 3])],
    )]));
    context.set_video_registry(HashMap::from([("/camera/image".to_string(), artifact("camera/image.mp4"))]));
    let context = record_depth_videos(
        context,
        "/cache/uuid".to_string(),
        vec![("/camera/depth".to_string(), artifact("videos/camera__depth.mkv"))],
    );
    assert_eq!(context.bundle_root(), Some("/cache/uuid"));
    let registry = context.video_registry().unwrap();
    assert_eq!(registry.len(), 2);
    assert_eq!(registry["/camera/depth"].video_path, "videos/camera__depth.mkv");
    assert!(context.depth_data().is_some());
}
