use rebake::common::ImageShape;
use rebake::nvenc::{NvencPreset, NvencTune};
use rebake::video_artifact::VideoMetadata;
use rebake::video_encoder::{
    CodecConfig, EncoderBackend, ImageFormat, ResizeConfig, ScalingFlag, VideoEncoder,
    VideoEncoderConfig, X264Preset, X264Tune, X265Tune, encoder_backend, rgb_topic_artifact,
    rgb_video_relative_path,
};

fn h264_vaapi() -> CodecConfig {
    CodecConfig::H264Vaapi { qp: 23, device: None, profile: None, b_depth: None, async_depth: None }
}

fn h264_nvenc(b_frames: u32) -> CodecConfig {
    CodecConfig::H264Nvenc {
        qp: 24,
        gpu: None,
        preset: NvencPreset::P4,
        tune: None,
        profile: None,
        b_frames,
        rc_lookahead: None,
    }
}

#[test]
fn video_metadata_image_shape_supports_rgb_and_depth() {
    let rgb = VideoMetadata {
        media_type: "rgb".to_string(),
        codec_family: "av1".to_string(),
        encoder_name: "libsvtav1".to_string(),
        pix_fmt: "yuv420p".to_string(),
        width: 640,
        height: 480,
        fps: 30,
        encoding_config_json: "{}".to_string(),
    };
    let depth = VideoMetadata {
        media_type: "depth".to_string(),
        codec_family: "ffv1".to_string(),
        encoder_name: "ffv1".to_string(),
        pix_fmt: "gray16le".to_string(),
        width: 848,
        height: 480,
        fps: 30,
        encoding_config_json: "{}".to_string(),
    };
    assert_eq!(rgb.image_shape().unwrap(), ImageShape::new(480, 640, 3));
    assert_eq!(depth.image_shape().unwrap(), ImageShape::new(480, 848, 1));
}

#[test]
fn video_metadata_image_shape_rejects_invalid_media_type() {
    let metadata = VideoMetadata {
        media_type: "segmentation".to_string(),
        codec_family: "av1".to_string(),
        encoder_name: "encoder".to_string(),
        pix_fmt: "yuv420p".to_string(),
        width: 640,
        height: 480,
        fps: 30,
        encoding_config_json: "{}".to_string(),
    };
    let error = metadata.image_shape().unwrap_err();
    assert!(error.reason().contains("unsupported media_type"));
}

#[test]
fn nvenc_b_frames_require_long_enough_gop() {
    let config = VideoEncoderConfig::new(30).set_gop(2).set_codec_config(h264_nvenc(2));
    let err = config.validate().unwrap_err();
    assert!(err.to_string().contains("gop must be greater"));
    assert_eq!(
        err.to_string(),
        "invalid data: NVENC gop must be greater than b_frames + 1 when B-frames are enabled (gop=2, b_frames=2)"
    );
}

#[test]
fn nvenc_rejects_b_frames_before_gop_arithmetic() {
    let config = VideoEncoderConfig::new(30).set_gop(20).set_codec_config(h264_nvenc(u32::MAX));
    let err = config.validate().unwrap_err();
    assert!(err.to_string().contains("b_frames must be between"));
}

#[test]
fn test_codec_config_validation() {
    let av1_valid = CodecConfig::AV1 {
        lp: Some(2),
        pin: None,
        preset: 6,
        film_grain: Some(10),
        film_grain_denoise: Some(true),
        lookahead: Some(60),
        fast_decode: Some(1),
    };
    assert!(av1_valid.validate().is_ok());

    let av1_invalid_fg = CodecConfig::AV1 {
        lp: None,
        pin: None,
        preset: 6,
        film_grain: Some(51),
        film_grain_denoise: None,
        lookahead: None,
        fast_decode: None,
    };
    let result = av1_invalid_fg.validate();
    assert!(result.is_err());
    assert!(result.unwrap_err().reason().contains("film-grain"));

    let av1_invalid_la = CodecConfig::AV1 {
        lp: None,
        pin: None,
        preset: 6,
        film_grain: None,
        film_grain_denoise: None,
        lookahead: Some(121),
        fast_decode: None,
    };
    let result = av1_invalid_la.validate();
    assert!(result.is_err());
    assert!(result.unwrap_err().reason().contains("lookahead"));

    let av1_invalid_fd = CodecConfig::AV1 {
        lp: None,
        pin: None,
        preset: 6,
        film_grain: None,
        film_grain_denoise: None,
        lookahead: None,
        fast_decode: Some(3),
    };
    let result = av1_invalid_fd.validate();
    assert!(result.is_err());
    assert!(result.unwrap_err().reason().contains("fast-decode"));

    let h264_valid = CodecConfig::H264 {
        threads: None,
        preset: X264Preset::Medium,
        tune: vec![X264Tune::Film, X264Tune::FastDecode],
    };
    assert!(h264_valid.validate().is_ok());

    let h264_invalid = CodecConfig::H264 {
        threads: None,
        preset: X264Preset::Medium,
        tune: vec![X264Tune::Film, X264Tune::Grain],
    };
    let result = h264_invalid.validate();
    assert!(result.is_err());
    let err_msg = result.unwrap_err().reason();
    assert!(err_msg.contains("PSY tuning"));
    assert!(err_msg.contains("film"));
    assert!(err_msg.contains("grain"));

    let h264_non_psy = CodecConfig::H264 {
        threads: None,
        preset: X264Preset::Fast,
        tune: vec![X264Tune::FastDecode, X264Tune::ZeroLatency],
    };
    assert!(h264_non_psy.validate().is_ok());

    let h265_valid = CodecConfig::H265 {
        threads: None,
        preset: X264Preset::Medium,
        tune: vec![X265Tune::Grain, X265Tune::ZeroLatency],
        frame_threads: None,
    };
    assert!(h265_valid.validate().is_ok());

    let h265_invalid = CodecConfig::H265 {
        threads: None,
        preset: X264Preset::Medium,
        tune: vec![X265Tune::Psnr, X265Tune::Ssim],
        frame_threads: None,
    };
    let result = h265_invalid.validate();
    assert!(result.is_err());
    let err_msg = result.unwrap_err().reason();
    assert!(err_msg.contains("PSY tuning"));
}

#[test]
fn test_video_encoder_config_output_dimensions_use_resize_when_configured() {
    let config = VideoEncoderConfig::new(30).set_resize(Some(ResizeConfig { width: 320, height: 240 }));
    let output_dimensions = config.output_dimensions(1280, 720).unwrap();
    assert_eq!(output_dimensions, (320, 240));
    let output_shape = config.output_shape(ImageShape::new(720, 1280, 3)).unwrap();
    assert_eq!(output_shape, ImageShape::new(240, 320, 3));
}

#[test]
fn test_video_encoder_config_rejects_odd_resize_dimensions() {
    let config = VideoEncoderConfig::new(30).set_resize(Some(ResizeConfig { width: 321, height: 240 }));
    let error = config.validate().unwrap_err();
    assert!(error.reason().contains("must be even"));
}

#[test]
fn test_video_metadata() {
    let config = VideoEncoderConfig {
        fps: 15,
        gop: 2,
        crf: "30".to_string(),
        scaling: ScalingFlag::Bicubic,
        resize: Some(ResizeConfig { width: 320, height: 240 }),
        codec_config: h264_vaapi(),
    };
    let json = r#"{"fps":15,"gop":2,"crf":"30"}"#.to_string();
    let metadata = config.video_metadata(640, 480, json.clone()).unwrap();
    assert_eq!(metadata.media_type, "rgb");
    assert_eq!(metadata.codec_family, "h264");
    assert_eq!(metadata.encoder_name, "h264_vaapi");
    assert_eq!(metadata.pix_fmt, "yuv420p");
    assert_eq!(metadata.width, 640);
    assert_eq!(metadata.height, 480);
    assert_eq!(metadata.fps, 15);
    assert_eq!(metadata.encoding_config_json, json);
}

#[test]
fn test_video_metadata_rejects_zero_dimensions() {
    let config = VideoEncoderConfig::default();
    let error = config.video_metadata(0, 480, "{}".to_string()).unwrap_err();
    assert!(error.reason().contains("positive width and height"));
}

#[test]
fn test_video_artifact() {
    let config = VideoEncoderConfig::default();
    let artifact = config.video_artifact("videos/camera.mp4", 320, 240, "{}".to_string()).unwrap();
    assert_eq!(artifact.video_path, "videos/camera.mp4");
    assert_eq!(artifact.metadata.media_type, "rgb");
    assert_eq!(artifact.metadata.width, 320);
    assert_eq!(artifact.metadata.height, 240);
}

#[test]
fn test_default_video_encoder_config_uses_canonical_av1_defaults() {
    let config = VideoEncoderConfig::default();
    assert_eq!(config.fps, 100);
    assert_eq!(config.gop, 20);
    assert_eq!(config.crf, "34");
    assert_eq!(config.scaling, ScalingFlag::Bicubic);
    assert_eq!(config.resize, None);
    match config.codec_config {
        CodecConfig::AV1 { lp, pin, preset, film_grain, film_grain_denoise, lookahead, fast_decode } => {
            assert_eq!(lp, None);
            assert_eq!(pin, None);
            assert_eq!(preset, 10);
            assert_eq!(film_grain, None);
            assert_eq!(film_grain_denoise, None);
            assert_eq!(lookahead, None);
            assert_eq!(fast_decode, None);
        }
        _ => panic!("Expected AV1 codec config"),
    }
}

#[test]
fn test_tune_enum_as_str() {
    assert_eq!(X264Tune::Film.as_str(), "film");
    assert_eq!(X264Tune::Animation.as_str(), "animation");
    assert_eq!(X264Tune::Grain.as_str(), "grain");
    assert_eq!(X264Tune::StillImage.as_str(), "stillimage");
    assert_eq!(X264Tune::Psnr.as_str(), "psnr");
    assert_eq!(X264Tune::Ssim.as_str(), "ssim");
    assert_eq!(X264Tune::FastDecode.as_str(), "fastdecode");
    assert_eq!(X264Tune::ZeroLatency.as_str(), "zerolatency");
    assert_eq!(X265Tune::Psnr.as_str(), "psnr");
    assert_eq!(X265Tune::Ssim.as_str(), "ssim");
    assert_eq!(X265Tune::Grain.as_str(), "grain");
    assert_eq!(X265Tune::FastDecode.as_str(), "fastdecode");
    assert_eq!(X265Tune::ZeroLatency.as_str(), "zerolatency");
    assert_eq!(X265Tune::Animation.as_str(), "animation");
}

#[test]
fn test_tune_is_psy() {
    assert!(X264Tune::Film.is_psy());
    assert!(X264Tune::Animation.is_psy());
    assert!(X264Tune::Grain.is_psy());
    assert!(X264Tune::StillImage.is_psy());
    assert!(X264Tune::Psnr.is_psy());
    assert!(X264Tune::Ssim.is_psy());
    assert!(!X264Tune::FastDecode.is_psy());
    assert!(!X264Tune::ZeroLatency.is_psy());
    assert!(X265Tune::Psnr.is_psy());
    assert!(X265Tune::Ssim.is_psy());
    assert!(X265Tune::Grain.is_psy());
    assert!(X265Tune::Animation.is_psy());
    assert!(!X265Tune::FastDecode.is_psy());
    assert!(!X265Tune::ZeroLatency.is_psy());
}

#[test]
fn test_image_format_detect_jpeg() {
    let jpeg_data = vec![0xFF, 0xD8, 0xFF, 0xE0, 0x00, 0x10, 0x4A, 0x46, 0x49, 0x46];
    assert_eq!(ImageFormat::detect(&jpeg_data), Some(ImageFormat::Jpeg));
    let jpeg_minimal = vec![0xFF, 0xD8, 0xFF, 0xE1];
    assert_eq!(ImageFormat::detect(&jpeg_minimal), Some(ImageFormat::Jpeg));
}

#[test]
fn test_image_format_detect_png() {
    let png_data = vec![0x89, 0x50, 0x4E, 0x47, 0x0D, 0x0A, 0x1A, 0x0A, 0x00, 0x00];
    assert_eq!(ImageFormat::detect(&png_data), Some(ImageFormat::Png));
}

#[test]
fn test_image_format_detect_unknown() {
    let unknown_data = vec![0x00, 0x01, 0x02, 0x03, 0x04, 0x05];
    assert_eq!(ImageFormat::detect(&unknown_data), None);
    let short_data = vec![0xFF, 0xD8];
    assert_eq!(ImageFormat::detect(&short_data), None);
    let empty_data: Vec<u8> = vec![];
    assert_eq!(ImageFormat::detect(&empty_data), None);
}

#[test]
fn test_image_format_ffmpeg_decoder() {
    assert_eq!(ImageFormat::Jpeg.ffmpeg_decoder(), "mjpeg");
    assert_eq!(ImageFormat::Png.ffmpeg_decoder(), "png");
}

#[test]
fn test_scaling_flag_ffmpeg_cli_scale_flag_omits_param_default() {
    assert_eq!(ScalingFlag::ParamDefault.ffmpeg_cli_scale_flag().unwrap(), None);
}

#[test]
fn test_scaling_flag_ffmpeg_cli_scale_flag_rejects_unsupported_flag() {
    let error = ScalingFlag::DirectBgr.ffmpeg_cli_scale_flag().unwrap_err();
    assert!(error.reason().contains("is not supported by FFmpeg CLI resize filters"));
}

#[test]
fn test_video_encoder_config_rejects_vaapi_resize_with_unsupported_scaling_flag() {
    let config = VideoEncoderConfig::new(30)
        .set_scaling(ScalingFlag::DirectBgr)
        .set_resize(Some(ResizeConfig { width: 320, height: 240 }))
        .set_codec_config(h264_vaapi());
    let error = config.validate().unwrap_err();
    assert!(error.reason().contains("is not supported by FFmpeg CLI resize filters"));
}

#[test]
fn image_format_from_extension_ignores_case() {
    assert_eq!(ImageFormat::from_extension("JPG"), Some(ImageFormat::Jpeg));
    assert_eq!(ImageFormat::from_extension("jpeg"), Some(ImageFormat::Jpeg));
    assert_eq!(ImageFormat::from_extension("Png"), Some(ImageFormat::Png));
    assert_eq!(ImageFormat::from_extension("bmp"), None);
}

#[test]
fn scaling_flag_names() {
    assert_eq!(ScalingFlag::Lanczos.ffmpeg_cli_scale_flag().unwrap(), Some("lanczos"));
    assert_eq!(ScalingFlag::FullChrHInt.ffmpeg_cli_scale_flag().unwrap(), Some("full_chroma_int"));
    let error = ScalingFlag::SrcVChrDropMask.ffmpeg_cli_scale_flag().unwrap_err();
    assert_eq!(
        error.reason(),
        "invalid data: scaling flag 'SrcVChrDropMask' is not supported by FFmpeg CLI resize filters"
    );
    assert!(ScalingFlag::Bicubic.validate_ffmpeg_cli_resize_support().is_ok());
}

#[test]
fn software_codecs_ignore_scaling_flag_support() {
    let config = VideoEncoderConfig::new(30)
        .set_scaling(ScalingFlag::DirectBgr)
        .set_resize(Some(ResizeConfig { width: 320, height: 240 }));
    assert!(config.validate().is_ok());
}

#[test]
fn config_validation_messages() {
    assert_eq!(
        VideoEncoderConfig::new(0).validate().unwrap_err().reason(),
        "invalid data: fps must be greater than 0"
    );
    assert_eq!(
        VideoEncoderConfig::new(30).set_gop(0).validate().unwrap_err().reason(),
        "invalid data: gop must be greater than 0"
    );
    let zero = VideoEncoderConfig::new(30).set_resize(Some(ResizeConfig { width: 0, height: 240 }));
    assert_eq!(
        zero.validate().unwrap_err().reason(),
        "invalid data: resize width and height must be greater than 0"
    );
    let ok = VideoEncoderConfig::new(30).set_gop(4).set_codec_config(h264_nvenc(2));
    assert!(ok.validate().is_ok());
    let qp = CodecConfig::Av1Vaapi { qp: 256, device: None, profile: None, b_depth: None, async_depth: None };
    assert_eq!(qp.validate().unwrap_err().reason(), "invalid data: AV1_VAAPI qp must be between 0 and 255");
}

#[test]
fn video_metadata_records_codec_and_json() {
    let config = VideoEncoderConfig::new(15).set_gop(2).set_crf("30".to_string()).set_codec_config(h264_vaapi());
    let metadata = config.video_metadata(640, 480, "{\"fps\":15}".to_string()).unwrap();
    assert_eq!(metadata.media_type, "rgb");
    assert_eq!(metadata.codec_family, "h264");
    assert_eq!(metadata.encoder_name, "h264_vaapi");
    assert_eq!(metadata.pix_fmt, "yuv420p");
    assert_eq!((metadata.width, metadata.height, metadata.fps), (640, 480, 15));
    assert_eq!(metadata.encoding_config_json, "{\"fps\":15}");
    assert_eq!(metadata.image_shape().unwrap(), ImageShape::new(480, 640, 3));
}

#[test]
fn codec_names_and_kinds() {
    let nvenc = CodecConfig::H265Nvenc {
        qp: 25,
        gpu: Some(1),
        preset: NvencPreset::P7,
        tune: Some(NvencTune::Hq),
        profile: None,
        b_frames: 0,
        rc_lookahead: None,
    };
    assert_eq!(nvenc.ffmpeg_encoder_name(), "hevc_nvenc");
    assert_eq!(nvenc.codec_family_name(), "h265");
    assert!(nvenc.is_nvenc() && !nvenc.is_vaapi() && nvenc.uses_ffmpeg_cli_encoder());
    assert_eq!(nvenc.nvenc_b_frames(), Some(0));
    assert_eq!(h264_vaapi().vaapi_device_path(), Some("/dev/dri/renderD128"));
    assert!(!CodecConfig::default().uses_ffmpeg_cli_encoder());
    assert_eq!(encoder_backend(&nvenc), EncoderBackend::Nvenc);
    assert_eq!(encoder_backend(&h264_vaapi()), EncoderBackend::Vaapi);
    assert_eq!(encoder_backend(&CodecConfig::default()), EncoderBackend::Software);
    assert_eq!(X264Preset::default().as_str(), "medium");
}

#[test]
fn rgb_topic_artifact_uses_resized_dimensions() {
    let config = VideoEncoderConfig::new(30).set_resize(Some(ResizeConfig { width: 320, height: 240 }));
    let artifact = rgb_topic_artifact(&config, "/camera/rgb", Some(ImageShape::new(720, 1280, 3)), "{}".to_string())
        .unwrap();
    assert_eq!(artifact.video_path, "camera/rgb.mp4");
    assert_eq!((artifact.metadata.width, artifact.metadata.height), (320, 240));
    let err = rgb_topic_artifact(&config, "/camera/rgb", None, "{}".to_string()).unwrap_err();
    assert_eq!(err.reason(), "invalid data: missing image shape for encoded video topic: /camera/rgb");
    assert_eq!(rgb_video_relative_path("//a/b"), "a/b.mp4");
}

#[test]
fn configured_output_shape_follows_resize() {
    let config = VideoEncoderConfig::new(30).set_resize(Some(ResizeConfig { width: 320, height: 240 }));
    assert_eq!(config.configured_output_shape(3), Some(ImageShape::new(240, 320, 3)));
    assert_eq!(VideoEncoderConfig::new(30).configured_output_shape(3), None);
    let encoder = VideoEncoder::new(config.clone());
    assert_eq!(encoder.config, config);
}
