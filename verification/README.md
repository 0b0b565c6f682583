# rebake

rebake turns robot recordings into export bundles: Parquet tables plus encoded
RGB and depth videos. This crate is its verified core, written in Verus.

## Layout

- `src/` — the library; every function carries a contract that Verus proves.
  - `compressed_depth/` — ROS `compressedDepth` payloads (format string, PNG
    and RVL depth) decoded into 16-bit depth frames, with the RVL encoding and
    the proof that decoding gives back what it encodes.
  - `depth_quantizer.rs` — Q10Clip4 depth quantization and P010LE packing,
    with the bound on the round-trip error.
  - `video_encoder.rs`, `depth_video_encoder.rs`, `nvenc.rs` — codec
    configurations, their validation and the metadata of the videos they make.
  - `ffmpeg_args.rs`, `software_encoder.rs`, `pipe_encoder.rs`,
    `ffmpeg_subprocess.rs` — FFmpeg command lines, in-process encoder options
    and the frame-by-frame decisions of the piped hardware encoders.
  - `decode.rs` — reading decoded sample planes back into depth frames.
  - `context.rs`, `video_artifact.rs`, `image_encoder.rs`, `common.rs` — the
    data handed between stages, video artifacts and the export naming rules.
  - `tf_chain.rs` — the frame tree of a TF buffer row: ancestry, lowest
    common ancestor, the edges a frame pair needs, reading a row's
    transforms into the tree, and chain freshness.
  - `video_stage.rs` — the decisions of the RGB video encoder stage: the
    video cache directory and what the context records after the RGB and
    depth video stages.
  - `analysis.rs` — timestamp windowing and the gaps and spans the timing
    metrics are made of.
- `tests/` — tests run against the compiled library.
- `app/` — the I/O around the library: configuration files (serde), FFmpeg
  processes, the files the stages write, and the floating-point timing
  statistics.

Floating-point kinematics, the Polars/Arrow table plumbing and the in-process
FFmpeg bindings are not part of this crate.
