//! Verified core of rebake: ROS `compressedDepth` decoding, depth quantization,
//! codec configuration validation and the small naming rules shared by the
//! export pipeline.

pub mod common;
pub mod text;
pub mod video_artifact;
pub mod video_encoder;
pub mod error;
pub mod compressed_depth;
pub mod depth_quantizer;
pub mod nvenc;
pub mod depth_video_encoder;
pub mod ffmpeg_args;
pub mod ffmpeg_subprocess;
pub mod pipe_encoder;
pub mod analysis;
pub mod decode;
pub mod image_encoder;
pub mod stage;
pub mod software_encoder;
pub mod tf_chain;
pub mod context;
pub mod video_stage;
