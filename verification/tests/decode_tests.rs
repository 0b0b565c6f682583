use rebake::decode::{
    DepthDecodeKind, DepthOutputMode, VideoDecoderConfig, VideoDecoderError, artifact_channels,
    depth_decode_kind, extract_gray16_depths, extract_q10_depths, q10_output_mode, read_plane_samples,
    require_pts,
};
use rebake::depth_quantizer::{Q10ClipParams, q10_to_p010le};
use rebake::depth_video_encoder::{DepthCodecConfig, DepthVideoConfig};

#[test]
fn depth_decode_kind_uses_raw_gray16_for_ffv1_with_zero_depth_max() {
    let config = DepthVideoConfig { depth_max_mm: 0, codec_config: DepthCodecConfig::Ffv1, fps: 30 };
    let artifact = config
        .video_artifact("videos/depth.mkv", 3, 2, "{}".to_string())
        .expect("FFV1 artifact should allow depth_max_mm=0");
    assert_eq!(depth_decode_kind(&artifact, &config).unwrap(), DepthDecodeKind::RawGray16);
}

#[test]
fn test_require_pts_returns_value_when_present() {
    let result = require_pts(Some(12345));
    assert_eq!(result.unwrap(), 12345);
}

#[test]
fn test_require_pts_returns_error_when_none() {
    let result = require_pts(None);
    assert!(matches!(result, Err(VideoDecoderError::MissingPts)));
}

#[test]
fn q10_depth_decode_rejects_zero_depth_max_without_panic() {
    let result = q10_output_mode(0);
    assert!(matches!(result, Err(VideoDecoderError::DepthConversion(_))));
    assert!(matches!(q10_output_mode(4092), Ok(DepthOutputMode::Q10(p)) if p.depth_max_mm == 4092));
}

#[test]
fn depth_decode_kind_for_lossy_and_gray16_pixel_formats() {
    let config = DepthVideoConfig::default();
    let mut artifact = config.video_artifact("videos/depth.mp4", 4, 2, "{}".to_string()).unwrap();
    assert_eq!(depth_decode_kind(&artifact, &config).unwrap(), DepthDecodeKind::Q10);
    artifact.metadata.pix_fmt = "GRAY16BE".to_string();
    assert_eq!(depth_decode_kind(&artifact, &config).unwrap(), DepthDecodeKind::RawGray16);
    artifact.metadata.pix_fmt = "p010le".to_string();
    let zero = DepthVideoConfig { depth_max_mm: 0, ..DepthVideoConfig::default() };
    let err = depth_decode_kind(&artifact, &zero).unwrap_err();
    assert_eq!(err.reason(), "invalid data: depth_max_mm must be greater than 0 for Q10 depth video decoding");
}

#[test]
fn artifact_channels_by_media_type() {
    let config = DepthVideoConfig::default();
    let mut artifact = config.video_artifact("videos/depth.mp4", 4, 2, "{}".to_string()).unwrap();
    assert_eq!(artifact_channels(&artifact).unwrap(), 1);
    artifact.metadata.media_type = "rgb".to_string();
    assert_eq!(artifact_channels(&artifact).unwrap(), 3);
    artifact.metadata.media_type = "mask".to_string();
    assert_eq!(
        artifact_channels(&artifact).unwrap_err().reason(),
        "invalid data: unsupported media_type for video decoding: mask"
    );
}

#[test]
fn raw_gray16_depth_decode_preserves_full_u16_values() {
    let values = [0u16, 1, 4095, 65535, 12345, 42];
    let mut data = Vec::new();
    for v in values {
        data.extend_from_slice(&v.to_le_bytes());
    }
    assert_eq!(extract_gray16_depths(3, 2, &data, 6, false).unwrap(), values);
    let mut be = Vec::new();
    for v in values {
        be.extend_from_slice(&v.to_be_bytes());
    }
    assert_eq!(extract_gray16_depths(3, 2, &be, 6, true).unwrap(), values);
}

#[test]
fn plane_reading_skips_row_padding() {
    let data = vec![1, 0, 2, 0, 0xAA, 0xBB, 3, 0, 4, 0, 0xCC];
    assert_eq!(read_plane_samples(2, 2, &data, 6, false).unwrap(), vec![1, 2, 3, 4]);
    assert_eq!(read_plane_samples(2, 3, &data, 6, false), Err(13));
    let err = extract_gray16_depths(2, 3, &data, 6, false).unwrap_err();
    assert_eq!(
        err.to_string(),
        "depth frame conversion failed: gray16 data too short: need offset 13 but length is 11"
    );
}

#[test]
fn q10_decode_reverses_p010_encoding() {
    let params = Q10ClipParams::new(4092);
    let depths = [0u16, 1000, 4092, 5000];
    let codes: Vec<u16> = depths.iter().map(|d| params.quantize(*d)).collect();
    let frame = q10_to_p010le(&codes, 2, 2);
    let restored = extract_q10_depths(2, 2, &frame, 4, true, &params).unwrap();
    assert_eq!(restored, vec![0, params.dequantize(codes[1]), 4092, 0]);
    assert!((restored[1] as i32 - 1000).abs() <= 4);

    let planar: Vec<u8> = [250u16, 0x0400 | 3].iter().flat_map(|v| v.to_le_bytes()).collect();
    let restored = extract_q10_depths(2, 1, &planar, 4, false, &params).unwrap();
    assert_eq!(restored, vec![params.dequantize(250), params.dequantize(3)]);

    let err = extract_q10_depths(2, 2, &frame[..6], 4, true, &params).unwrap_err();
    assert_eq!(
        err.to_string(),
        "depth frame conversion failed: Y-plane data too short: need offset 7 but length is 6"
    );
}

#[test]
fn decoder_error_messages() {
    assert_eq!(VideoDecoderError::StreamNotFound.to_string(), "video stream not found");
    assert_eq!(VideoDecoderError::FrameNotFound(7).to_string(), "frame not found at index 7");
    assert_eq!(VideoDecoderError::Ffmpeg("eof".to_string()).to_string(), "ffmpeg error: eof");
    assert_eq!(VideoDecoderError::MissingPts.to_string(), "decoded frame is missing PTS (presentation timestamp)");
    let _ = VideoDecoderConfig::new();
    let _ = VideoDecoderConfig::default();
}
