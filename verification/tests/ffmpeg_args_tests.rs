use rebake::depth_video_encoder::{DepthCodecConfig, DepthVideoConfig};
use rebake::ffmpeg_args::{
    FfmpegInput, depth_ffmpeg_args, nvenc_ffmpeg_args, nvenc_video_filter, vaapi_ffmpeg_args,
    vaapi_video_filter,
};
use rebake::nvenc::{NvencPreset, NvencTune};
use rebake::video_encoder::{CodecConfig, ImageFormat, ResizeConfig, ScalingFlag, VideoEncoderConfig};

fn strs(v: &[String]) -> Vec<&str> {
    v.iter().map(|s| s.as_str()).collect()
}

#[test]
fn test_vaapi_video_filter_omits_flags_for_param_default() {
    let config = VideoEncoderConfig::new(30)
        .set_scaling(ScalingFlag::ParamDefault)
        .set_resize(Some(ResizeConfig { width: 320, height: 240 }))
        .set_codec_config(CodecConfig::H264Vaapi {
            qp: 23,
            device: None,
            profile: None,
            b_depth: None,
            async_depth: None,
        });
    assert_eq!(vaapi_video_filter(&config).unwrap(), "scale=320:240,format=nv12,hwupload");
}

#[test]
fn video_filters_for_each_scaling_flag() {
    let config = VideoEncoderConfig::new(30)
        .set_scaling(ScalingFlag::ParamDefault)
        .set_resize(Some(ResizeConfig { width: 320, height: 240 }));
    let lanczos = config.clone().set_scaling(ScalingFlag::Lanczos);
    assert_eq!(vaapi_video_filter(&lanczos).unwrap(), "scale=320:240:flags=lanczos,format=nv12,hwupload");
    assert_eq!(nvenc_video_filter(&lanczos).unwrap(), "scale=320:240:flags=lanczos,format=yuv420p");
    assert_eq!(vaapi_video_filter(&VideoEncoderConfig::new(30)).unwrap(), "format=nv12,hwupload");
    assert!(vaapi_video_filter(&config.set_scaling(ScalingFlag::DirectBgr)).is_err());
}

#[test]
fn vaapi_rawvideo_arguments() {
    let config = VideoEncoderConfig::new(15).set_gop(30).set_codec_config(CodecConfig::Av1Vaapi {
        qp: 110,
        device: None,
        profile: None,
        b_depth: Some(2),
        async_depth: Some(4),
    });
    let args = vaapi_ffmpeg_args(&config, FfmpegInput::RawVideo { width: 640, height: 480 }, "out.mp4").unwrap();
    assert_eq!(
        strs(&args),
        vec![
            "-hide_banner", "-nostats", "-loglevel", "warning", "-y", "-f", "rawvideo", "-pix_fmt", "rgb24",
            "-s", "640x480", "-framerate", "15", "-i", "pipe:0", "-vaapi_device", "/dev/dri/renderD128",
            "-vf", "format=nv12,hwupload", "-c:v", "av1_vaapi", "-global_quality", "110", "-g", "30",
            "-rc_mode", "CQP", "-profile:v", "main", "-b_depth", "2", "-async_depth", "4", "out.mp4",
        ]
    );
}

#[test]
fn vaapi_image2pipe_arguments() {
    let config = VideoEncoderConfig::new(30).set_codec_config(CodecConfig::H265Vaapi {
        qp: 29,
        device: Some("/dev/dri/renderD129".to_string()),
        profile: Some("main".to_string()),
        async_depth: None,
    });
    let args = vaapi_ffmpeg_args(&config, FfmpegInput::ImagePipe { format: ImageFormat::Jpeg }, "v.mp4").unwrap();
    assert_eq!(
        strs(&args),
        vec![
            "-hide_banner", "-nostats", "-loglevel", "warning", "-y", "-f", "image2pipe", "-c:v", "mjpeg",
            "-framerate", "30", "-i", "pipe:0", "-vaapi_device", "/dev/dri/renderD129", "-vf",
            "format=nv12,hwupload", "-c:v", "hevc_vaapi", "-qp", "29", "-g", "20", "-rc_mode", "CQP",
            "-profile:v", "main", "v.mp4",
        ]
    );
    let software = VideoEncoderConfig::new(30);
    let err = vaapi_ffmpeg_args(&software, FfmpegInput::ImagePipe { format: ImageFormat::Png }, "v.mp4").unwrap_err();
    assert_eq!(err.reason(), "invalid data: VaapiVideoEncoder requires a VA-API codec config");
}

#[test]
fn nvenc_arguments() {
    let config = VideoEncoderConfig::new(30).set_gop(60).set_codec_config(CodecConfig::H264Nvenc {
        qp: 26,
        gpu: Some(1),
        preset: NvencPreset::P5,
        tune: Some(NvencTune::Hq),
        profile: Some("high".to_string()),
        b_frames: 1,
        rc_lookahead: Some(32),
    });
    let args = nvenc_ffmpeg_args(&config, FfmpegInput::RawVideo { width: 8, height: 6 }, "o.mp4").unwrap();
    assert_eq!(
        strs(&args),
        vec![
            "-hide_banner", "-nostats", "-loglevel", "warning", "-y", "-f", "rawvideo", "-pix_fmt", "rgb24",
            "-s", "8x6", "-framerate", "30", "-i", "pipe:0", "-vf", "format=yuv420p", "-c:v", "h264_nvenc",
            "-rc", "constqp", "-qp", "26", "-g", "60", "-bf", "1", "-preset", "p5", "-b_ref_mode", "middle",
            "-rc-lookahead", "32", "-tune", "hq", "-gpu", "1", "-profile:v", "high", "o.mp4",
        ]
    );
    let err = nvenc_ffmpeg_args(&VideoEncoderConfig::new(30), FfmpegInput::RawVideo { width: 8, height: 6 }, "o.mp4")
        .unwrap_err();
    assert_eq!(err.reason(), "invalid data: NvencVideoEncoder requires an NVENC codec config");
}

#[test]
fn depth_arguments_per_codec() {
    let ffv1 = DepthVideoConfig { depth_max_mm: 0, codec_config: DepthCodecConfig::Ffv1, fps: 30 };
    assert_eq!(
        strs(&depth_ffmpeg_args(848, 480, &ffv1, "d.mkv")),
        vec![
            "-hide_banner", "-nostats", "-loglevel", "warning", "-y", "-f", "rawvideo", "-pix_fmt", "gray16le",
            "-s", "848x480", "-framerate", "30", "-i", "pipe:0", "-c:v", "ffv1", "-level", "3", "-coder", "1",
            "-context", "1", "-g", "1", "-slicecrc", "1", "d.mkv",
        ]
    );
    let av1 = DepthVideoConfig::default();
    assert_eq!(
        strs(&depth_ffmpeg_args(4, 2, &av1, "d.mp4")),
        vec![
            "-hide_banner", "-nostats", "-loglevel", "warning", "-y", "-f", "rawvideo", "-pix_fmt", "p010le",
            "-s", "4x2", "-framerate", "30", "-i", "pipe:0", "-c:v", "libsvtav1", "-preset", "4", "-crf", "4",
            "-g", "30", "-pix_fmt", "yuv420p10le", "d.mp4",
        ]
    );
    let hevc = DepthVideoConfig {
        depth_max_mm: 4092,
        codec_config: DepthCodecConfig::H265Vaapi { qp: 18, device: None },
        fps: 10,
    };
    assert_eq!(
        strs(&depth_ffmpeg_args(4, 2, &hevc, "d.mp4")),
        vec![
            "-hide_banner", "-nostats", "-loglevel", "warning", "-y", "-color_range", "pc", "-f", "rawvideo",
            "-pix_fmt", "p010le", "-s", "4x2", "-framerate", "10", "-i", "pipe:0", "-vaapi_device",
            "/dev/dri/renderD128", "-vf", "format=p010,hwupload", "-c:v", "hevc_vaapi", "-profile:v", "main10",
            "-qp", "18", "-g", "30", "-rc_mode", "CQP", "d.mp4",
        ]
    );
    let nvenc = DepthVideoConfig {
        depth_max_mm: 4092,
        codec_config: DepthCodecConfig::Av1Nvenc {
            qp: 20,
            gpu: None,
            preset: NvencPreset::P4,
            tune: None,
            b_frames: 0,
            rc_lookahead: None,
        },
        fps: 30,
    };
    assert_eq!(
        strs(&depth_ffmpeg_args(4, 2, &nvenc, "d.mp4")),
        vec![
            "-hide_banner", "-nostats", "-loglevel", "warning", "-y", "-color_range", "pc", "-f", "rawvideo",
            "-pix_fmt", "p010le", "-s", "4x2", "-framerate", "30", "-i", "pipe:0", "-c:v", "av1_nvenc",
            "-pix_fmt", "p010le", "-color_range", "pc", "-rc", "constqp", "-qp", "20", "-g", "30", "-bf", "0",
            "-preset", "p4", "d.mp4",
        ]
    );
}
