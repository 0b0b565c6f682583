use rebake::common::{DepthFrame, topic_name_to_flat_file_stem};
use rebake::depth_video_encoder::{
    DepthCodecConfig, DepthVideoConfig, DepthVideoEncoder, depth_video_file_name,
    depth_video_relative_path, encode_depth_frame,
};
use rebake::nvenc::NvencPreset;

fn rvl_vle(mut value: u32, nibbles: &mut Vec<u8>) {
    loop {
        let mut nibble = (value & 0x7) as u8;
        value >>= 3;
        if value != 0 {
            nibble |= 0x8;
        }
        nibbles.push(nibble);
        if value == 0 {
            break;
        }
    }
}

fn rvl_frame(width: u32, height: u32, values: &[u16]) -> DepthFrame {
    let mut nibbles = Vec::new();
    let mut index = 0usize;
    let mut previous = 0i32;
    while index < values.len() {
        let zero_start = index;
        while index < values.len() && values[index] == 0 {
            index += 1;
        }
        rvl_vle((index - zero_start) as u32, &mut nibbles);
        let nonzero_start = index;
        while index < values.len() && values[index] != 0 {
            index += 1;
        }
        rvl_vle((index - nonzero_start) as u32, &mut nibbles);
        for &value in &values[nonzero_start..index] {
            let delta = value as i32 - previous;
            rvl_vle(((delta << 1) ^ (delta >> 31)) as u32, &mut nibbles);
            previous = value as i32;
        }
    }
    let mut payload = vec![0u8; 12];
    payload.extend_from_slice(&width.to_le_bytes());
    payload.extend_from_slice(&height.to_le_bytes());
    for chunk in nibbles.chunks(8) {
        let mut word = 0u32;
        for &nibble in chunk {
            word = (word << 4) | u32::from(nibble);
        }
        word <<= (8 - chunk.len()) * 4;
        payload.extend_from_slice(&word.to_le_bytes());
    }
    let mut frame = DepthFrame::new(0, "bin", payload);
    frame.set_ros_format("16UC1; compressedDepth rvl");
    frame
}

#[test]
fn depth_codec_config_default_is_av1() {
    let config = DepthCodecConfig::default();
    match config {
        DepthCodecConfig::AV1 { crf, preset } => {
            assert_eq!(crf, 4);
            assert_eq!(preset, 4);
        }
        _ => panic!("default should be AV1"),
    }
    assert!(!config.is_lossless());
}

#[test]
fn depth_video_config_default_values() {
    let config = DepthVideoConfig::default();
    assert_eq!(config.depth_max_mm, 4092);
    assert_eq!(config.fps, 30);
    assert!(!config.codec_config.is_lossless());
}

#[test]
fn ffv1_is_lossless() {
    assert!(DepthCodecConfig::Ffv1.is_lossless());
    assert!(!DepthCodecConfig::default().is_lossless());
}

#[test]
fn lossy_codecs_are_not_lossless() {
    assert!(!DepthCodecConfig::H265Vaapi { qp: 18, device: None }.is_lossless());
    assert!(!DepthCodecConfig::Av1Vaapi { global_quality: 35, device: None }.is_lossless());
    assert!(!DepthCodecConfig::AV1 { crf: 18, preset: 6 }.is_lossless());
}

#[test]
fn video_extension_default_mp4() {
    assert_eq!(DepthCodecConfig::default().video_extension(), "mp4");
}

#[test]
fn video_extension_lossy_mp4() {
    assert_eq!(DepthCodecConfig::AV1 { crf: 18, preset: 6 }.video_extension(), "mp4");
    assert_eq!(DepthCodecConfig::H265Vaapi { qp: 18, device: None }.video_extension(), "mp4");
    assert_eq!(DepthCodecConfig::Av1Vaapi { global_quality: 35, device: None }.video_extension(), "mp4");
}

#[test]
fn video_extension_ffv1_mkv() {
    assert_eq!(DepthCodecConfig::Ffv1.video_extension(), "mkv");
}

#[test]
fn depth_video_metadata_captures_dimensions_and_codec_fields() {
    let config = DepthVideoConfig {
        depth_max_mm: 4092,
        codec_config: DepthCodecConfig::Av1Vaapi { global_quality: 35, device: None },
        fps: 24,
    };
    let metadata = config.video_metadata(848, 480, "{}".to_string()).unwrap();
    assert_eq!(metadata.media_type, "depth");
    assert_eq!(metadata.codec_family, "av1");
    assert_eq!(metadata.encoder_name, "av1_vaapi");
    assert_eq!(metadata.pix_fmt, "p010le");
    assert_eq!(metadata.width, 848);
    assert_eq!(metadata.height, 480);
    assert_eq!(metadata.fps, 24);
    assert_eq!(metadata.encoding_config_json, "{}");
}

#[test]
fn depth_video_artifact_wraps_relative_path_and_metadata() {
    let config = DepthVideoConfig::default();
    let artifact = config.video_artifact("videos/depth.mp4", 640, 360, "{}".to_string()).unwrap();
    assert_eq!(artifact.video_path, "videos/depth.mp4");
    assert_eq!(artifact.metadata.media_type, "depth");
    assert_eq!(artifact.metadata.width, 640);
    assert_eq!(artifact.metadata.height, 360);
}

#[test]
fn depth_video_metadata_rejects_zero_dimensions() {
    let config = DepthVideoConfig::default();
    let error = config.video_metadata(0, 480, "{}".to_string()).unwrap_err();
    assert!(error.reason().contains("positive width and height"));
}

#[test]
fn sanitize_topic_name_removes_leading_slash() {
    assert_eq!(topic_name_to_flat_file_stem("/depth/image"), "depth__image");
    assert_eq!(topic_name_to_flat_file_stem("depth/image"), "depth__image");
    assert_eq!(topic_name_to_flat_file_stem("/depth"), "depth");
}

#[test]
fn depth_config_validation_messages() {
    let config = DepthVideoConfig { depth_max_mm: 4092, codec_config: DepthCodecConfig::Ffv1, fps: 0 };
    assert_eq!(config.validate().unwrap_err().reason(), "invalid data: depth video fps must be greater than 0");

    let config = DepthVideoConfig { depth_max_mm: 0, codec_config: DepthCodecConfig::default(), fps: 30 };
    assert_eq!(
        config.validate().unwrap_err().reason(),
        "invalid data: depth_max_mm must be greater than 0 for lossy depth codecs"
    );
    let lossless = DepthVideoConfig { depth_max_mm: 0, codec_config: DepthCodecConfig::Ffv1, fps: 30 };
    assert!(lossless.validate().is_ok());

    let cases = [
        (DepthCodecConfig::H265Vaapi { qp: 52, device: None }, "H265_VAAPI depth qp must be between 0 and 51"),
        (
            DepthCodecConfig::Av1Vaapi { global_quality: 256, device: None },
            "AV1_VAAPI depth global_quality must be between 0 and 255",
        ),
        (DepthCodecConfig::AV1 { crf: 64, preset: 4 }, "AV1 depth crf must be between 0 and 63"),
        (DepthCodecConfig::AV1 { crf: 4, preset: 14 }, "AV1 depth preset must be between 0 and 13"),
        (
            DepthCodecConfig::H265Nvenc {
                qp: 10,
                gpu: None,
                preset: NvencPreset::P4,
                tune: None,
                b_frames: 8,
                rc_lookahead: None,
            },
            "H265_NVENC depth b_frames must be between 0 and 7",
        ),
        (
            DepthCodecConfig::Av1Nvenc {
                qp: 20,
                gpu: None,
                preset: NvencPreset::P4,
                tune: None,
                b_frames: 0,
                rc_lookahead: Some(121),
            },
            "AV1_NVENC depth rc_lookahead must be between 0 and 120",
        ),
    ];
    for (codec, message) in cases {
        let err = codec.validate().unwrap_err();
        assert_eq!(err.reason(), format!("invalid data: {message}"));
    }
}

#[test]
fn depth_codec_names_and_devices() {
    let hevc = DepthCodecConfig::H265Vaapi { qp: 18, device: None };
    assert_eq!(hevc.ffmpeg_encoder_name(), "hevc_vaapi");
    assert_eq!(hevc.vaapi_device_path(), Some("/dev/dri/renderD128"));
    assert!(hevc.is_vaapi() && !hevc.is_nvenc());
    let av1 = DepthCodecConfig::Av1Vaapi { global_quality: 35, device: Some("/dev/dri/renderD129".to_string()) };
    assert_eq!(av1.vaapi_device_path(), Some("/dev/dri/renderD129"));
    assert_eq!(DepthCodecConfig::Ffv1.metadata_names(), ("ffv1", "ffv1", "gray16le"));
    assert_eq!(DepthCodecConfig::default().vaapi_device_path(), None);
}

#[test]
fn depth_video_names_follow_topic_and_codec() {
    let name = depth_video_file_name("/camera/depth/compressedDepth", &DepthCodecConfig::Ffv1);
    assert_eq!(name, "camera__depth__compressedDepth.mkv");
    assert_eq!(depth_video_relative_path(&name), "videos/camera__depth__compressedDepth.mkv");
    assert_eq!(depth_video_file_name("depth", &DepthCodecConfig::default()), "depth.mp4");
}

#[test]
fn encode_depth_frame_produces_raw_or_p010_bytes() {
    let values = [0u16, 1000, 4092, 5000];
    let frame = rvl_frame(2, 2, &values);

    let lossless = DepthVideoConfig { depth_max_mm: 0, codec_config: DepthCodecConfig::Ffv1, fps: 30 };
    let (w, h, bytes) = encode_depth_frame(&frame, None, &lossless).unwrap();
    assert_eq!((w, h), (2, 2));
    let raw: Vec<u16> = bytes.chunks_exact(2).map(|c| u16::from_le_bytes([c[0], c[1]])).collect();
    assert_eq!(raw, values);

    let lossy = DepthVideoConfig::default();
    let (_, _, bytes) = encode_depth_frame(&frame, Some((2, 2)), &lossy).unwrap();
    assert_eq!(bytes.len(), 12);
    let y: Vec<u16> = bytes[..8].chunks_exact(2).map(|c| u16::from_le_bytes([c[0], c[1]]) >> 6).collect();
    assert_eq!(y, vec![0, 250, 1023, 0]);
    assert_eq!(&bytes[8..], &[0x00, 0x80, 0x00, 0x80]);

    let err = encode_depth_frame(&frame, Some((4, 2)), &lossy).unwrap_err();
    assert_eq!(err.reason(), "invalid data: Depth frame dimension mismatch: expected 4x2, got 2x2");
}

#[test]
fn depth_video_encoder_keeps_config() {
    let encoder = DepthVideoEncoder::new(DepthVideoConfig::default());
    assert_eq!(encoder.config, DepthVideoConfig::default());
}
