use rebake::ffmpeg_subprocess::{MAX_CAPTURED_STDERR, push_stderr_with_limit, stderr_suffix};
use rebake::image_encoder::{
    DepthImageEncoderConfig, ImageEncoder, ImageEncoderConfig, depth_frame_file_name, frame_file_name,
    topic_output_dir,
};
use rebake::nvenc::{
    NvencPreset, NvencTune, nvenc_device_requirement, validate_nvenc_b_frames, validate_nvenc_rc_lookahead,
};
use rebake::pipe_encoder::{DataAction, FinishAction, PipeState, RgbAction};
use rebake::software_encoder::software_encoder_options;
use rebake::stage::PipelineInputKind;
use rebake::video_encoder::{CodecConfig, ImageFormat, InputMode, VideoEncoderConfig, X264Preset, X264Tune, X265Tune};

const JPEG: [u8; 4] = [0xFF, 0xD8, 0xFF, 0xE0];
const PNG: [u8; 8] = [0x89, 0x50, 0x4E, 0x47, 0x0D, 0x0A, 0x1A, 0x0A];

#[test]
fn stderr_capture_keeps_newest_bytes() {
    let mut captured = Vec::new();
    push_stderr_with_limit(&mut captured, b"abc", 5);
    assert_eq!(captured, b"abc");
    push_stderr_with_limit(&mut captured, b"def", 5);
    assert_eq!(captured, b"bcdef");
    push_stderr_with_limit(&mut captured, b"0123456", 5);
    assert_eq!(captured, b"23456");
    push_stderr_with_limit(&mut captured, b"xy", 0);
    assert!(captured.is_empty());
    assert_eq!(MAX_CAPTURED_STDERR, 64 * 1024);
}

#[test]
fn stderr_suffix_is_empty_without_output() {
    assert_eq!(stderr_suffix(""), "");
    assert_eq!(stderr_suffix("boom"), " FFmpeg stderr: boom");
}

#[test]
fn output_paths_of_frames() {
    assert_eq!(topic_output_dir("/camera/image_raw/compressed"), "camera/image_raw/compressed");
    assert_eq!(topic_output_dir("depth"), "depth");
    assert_eq!(frame_file_name(12, "jpg"), "12.jpg");
    assert_eq!(depth_frame_file_name(3), "3.bin");
    let _ = ImageEncoder::new(ImageEncoderConfig::default());
    assert_eq!(DepthImageEncoderConfig::default(), DepthImageEncoderConfig {});
    assert_ne!(PipelineInputKind::Rosbag, PipelineInputKind::ParquetVideoBundle);
}

#[test]
fn nvenc_option_checks() {
    assert!(validate_nvenc_b_frames("H264_NVENC", 7).is_ok());
    assert_eq!(
        validate_nvenc_b_frames("H264_NVENC", 8).unwrap_err().reason(),
        "invalid data: H264_NVENC b_frames must be between 0 and 7"
    );
    assert!(validate_nvenc_rc_lookahead("AV1_NVENC", None).is_ok());
    assert_eq!(
        validate_nvenc_rc_lookahead("AV1_NVENC", Some(121)).unwrap_err().reason(),
        "invalid data: AV1_NVENC rc_lookahead must be between 0 and 120"
    );
    assert!(nvenc_device_requirement(true).is_ok());
    let err = nvenc_device_requirement(false).unwrap_err();
    assert_eq!(
        err.reason(),
        "NVIDIA device files are not visible. NVENC requires a container/runtime with NVIDIA GPU access (for example Docker Compose device reservations).: NVIDIA device files not found"
    );
    assert_eq!(NvencPreset::default().as_str(), "p4");
    assert_eq!(NvencTune::Ull.as_str(), "ull");
}

#[test]
fn test_input_mode_initial_state() {
    let state = PipeState::new();
    assert_eq!(state.input_mode, InputMode::Unknown);
}

#[test]
fn pipe_state_starts_direct_pipe_for_jpeg() {
    let mut state = PipeState::new();
    assert_eq!(state.plan_data(&JPEG).unwrap(), DataAction::StartDirectPipe(ImageFormat::Jpeg));
    state.direct_pipe_started(ImageFormat::Jpeg);
    assert_eq!(state.input_mode, InputMode::DirectPipe { format: ImageFormat::Jpeg });
    state.frame_written();
    assert_eq!(state.plan_data(&JPEG).unwrap(), DataAction::WriteDirect);
    let err = state.plan_data(&PNG).unwrap_err();
    assert_eq!(err.reason(), "invalid data: Mixed image formats in stream: expected Jpeg, got Png");
    let err = state.plan_data(&[1, 2, 3, 4, 5]).unwrap_err();
    assert_eq!(err.reason(), "invalid data: Unsupported image format in direct pipe stream: expected Jpeg");
    assert_eq!(state.plan_finish(), FinishAction::WaitForProcess);
}

#[test]
fn pipe_state_falls_back_to_raw_rgb() {
    let mut state = PipeState::new();
    assert_eq!(state.plan_finish(), FinishAction::Nothing);
    assert_eq!(state.plan_data(&[0, 1, 2, 3, 4]).unwrap(), DataAction::DecodeToRgb);
    assert_eq!(state.plan_rgb_frame(640, 480).unwrap(), RgbAction::StartRawVideo { width: 640, height: 480 });
    state.raw_video_started(640, 480);
    state.frame_written();
    assert_eq!(state.frame_count, 1);
    assert_eq!(state.plan_data(&JPEG).unwrap(), DataAction::DecodeToRgb);
    assert_eq!(state.plan_rgb_frame(640, 480).unwrap(), RgbAction::Write);
    let err = state.plan_rgb_frame(320, 240).unwrap_err();
    assert_eq!(err.reason(), "invalid data: Frame dimensions mismatch: expected 640x480, got 320x240");
}

fn option_pairs(config: &VideoEncoderConfig) -> Vec<(String, String)> {
    software_encoder_options(config).unwrap()
}

#[test]
fn software_encoder_options_for_each_codec() {
    let av1 = VideoEncoderConfig::default().set_codec_config(CodecConfig::AV1 {
        lp: Some(9),
        pin: Some(2),
        preset: 8,
        film_grain: Some(10),
        film_grain_denoise: Some(false),
        lookahead: Some(-1),
        fast_decode: Some(1),
    });
    assert_eq!(
        option_pairs(&av1),
        vec![
            ("crf".to_string(), "34".to_string()),
            ("g".to_string(), "20".to_string()),
            (
                "svtav1-params".to_string(),
                "lp=0:pin=2:preset=8:film-grain=10:film-grain-denoise=0:lookahead=-1:fast-decode=1".to_string()
            ),
        ]
    );
    let h264 = VideoEncoderConfig::new(30).set_crf("23".to_string()).set_codec_config(CodecConfig::H264 {
        threads: Some(4),
        preset: X264Preset::Fast,
        tune: vec![X264Tune::Film, X264Tune::FastDecode],
    });
    assert_eq!(
        option_pairs(&h264),
        vec![
            ("crf".to_string(), "23".to_string()),
            ("g".to_string(), "20".to_string()),
            ("preset".to_string(), "fast".to_string()),
            ("threads".to_string(), "4".to_string()),
            ("tune".to_string(), "film,fastdecode".to_string()),
        ]
    );
    let h265 = VideoEncoderConfig::new(30).set_codec_config(CodecConfig::H265 {
        threads: Some(2),
        preset: X264Preset::Medium,
        tune: vec![X265Tune::Grain, X265Tune::ZeroLatency],
        frame_threads: Some(1),
    });
    assert_eq!(
        option_pairs(&h265)[3],
        ("x265-params".to_string(), "pools=2:tune=grain,zerolatency:frame-threads=1".to_string())
    );
    let bare = VideoEncoderConfig::new(30).set_codec_config(CodecConfig::H265 {
        threads: None,
        preset: X264Preset::Medium,
        tune: vec![],
        frame_threads: None,
    });
    assert_eq!(option_pairs(&bare).len(), 3);
    let hw = VideoEncoderConfig::new(30).set_codec_config(CodecConfig::H264Vaapi {
        qp: 21,
        device: None,
        profile: None,
        b_depth: None,
        async_depth: None,
    });
    assert!(software_encoder_options(&hw).unwrap_err().reason().contains("Hardware codecs must use a subprocess encoder"));
}

#[test]
fn fallback_frames_decode_to_rgb24() {
    let image = image::ImageBuffer::from_fn(2, 1, |x, _| image::Rgb([x as u8, 10, 20]));
    let mut bytes = std::io::Cursor::new(Vec::new());
    image::DynamicImage::ImageRgb8(image).write_to(&mut bytes, image::ImageFormat::Png).unwrap();
    let (w, h, pixels) = rebake::pipe_encoder::decode_fallback_frame(&bytes.into_inner()).unwrap();
    assert_eq!((w, h), (2, 1));
    assert_eq!(pixels, vec![0, 10, 20, 1, 10, 20]);

    let err = rebake::pipe_encoder::decode_fallback_frame(&[1, 2, 3, 4, 5]).unwrap_err();
    assert!(err.reason().starts_with("invalid data: failed to decode image data: "));
}

#[test]
fn nvenc_visibility_needs_the_control_device_and_a_gpu_entry() {
    assert_eq!(rebake::nvenc::nvenc_device_paths(), ("/dev/nvidiactl", "/dev/nvidia0", "/dev/nvidia-caps"));
    assert!(rebake::nvenc::nvenc_devices_visible(true, true, false));
    assert!(rebake::nvenc::nvenc_devices_visible(true, false, true));
    assert!(!rebake::nvenc::nvenc_devices_visible(true, false, false));
    assert!(!rebake::nvenc::nvenc_devices_visible(false, true, true));
}
