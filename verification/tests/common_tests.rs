use std::collections::HashMap;

use rebake::common::{
    DepthFrame, ImageFrame, ImageShape, extract_short_type_name, infer_image_shape_from_bytes,
    resolve_image_shape, resolve_or_infer_image_shape, topic_name_to_flat_file_stem,
    topic_name_to_relative_path,
};

fn png_bytes(width: u32, height: u32) -> Vec<u8> {
    let image = image::ImageBuffer::from_pixel(width, height, image::Rgb([12_u8, 34, 56]));
    let mut out = std::io::Cursor::new(Vec::new());
    image::DynamicImage::ImageRgb8(image).write_to(&mut out, image::ImageFormat::Png).unwrap();
    out.into_inner()
}

#[test]
fn resolve_image_shape_prefers_topic_shapes() {
    let frame_shape = ImageShape::new(10, 20, 3);
    let metadata_shape = ImageShape::new(30, 40, 3);
    let frames = vec![ImageFrame {
        index: 0,
        extension: "jpg".to_string(),
        bytes: vec![1, 2, 3],
        shape: Some(frame_shape),
    }];
    let shapes = HashMap::from([("/camera".to_string(), metadata_shape)]);

    let resolved = resolve_image_shape("/camera", Some(&frames), Some(&shapes));
    assert_eq!(resolved, Some(metadata_shape));
}

#[test]
fn resolve_image_shape_falls_back_to_first_frame_shape() {
    let frame_shape = ImageShape::new(10, 20, 3);
    let mut first = ImageFrame::new(0, "jpg", vec![1]);
    let mut second = ImageFrame::new(1, "jpg", vec![2]);
    second.set_shape(frame_shape);
    first.shape = None;
    let frames = vec![first, second];
    let shapes = HashMap::from([("/other".to_string(), ImageShape::new(1, 1, 1))]);
    assert_eq!(resolve_image_shape("/camera", Some(&frames), Some(&shapes)), Some(frame_shape));
    assert_eq!(resolve_image_shape("/camera", None, None), None);
}

#[test]
fn resolve_or_infer_image_shape_decodes_first_readable_payload() {
    let frames = vec![ImageFrame::new(0, "bin", vec![0, 1, 2]), ImageFrame::new(1, "png", png_bytes(7, 5))];
    assert_eq!(resolve_or_infer_image_shape("/camera", &frames, None, 3), Some(ImageShape::new(5, 7, 3)));
}

#[test]
fn infer_image_shape_reads_png_dimensions() {
    assert_eq!(infer_image_shape_from_bytes(&png_bytes(4, 3), 3), Some(ImageShape::new(3, 4, 3)));
    assert_eq!(infer_image_shape_from_bytes(&[1, 2, 3], 3), None);
}

#[test]
fn topic_name_to_flat_file_stem_flattens_slashes() {
    assert_eq!(topic_name_to_flat_file_stem("/camera/rgb/image_raw"), "camera__rgb__image_raw");
    assert_eq!(topic_name_to_flat_file_stem("camera/rgb/image_raw"), "camera__rgb__image_raw");
    assert_eq!(topic_name_to_flat_file_stem("/joint_states"), "joint_states");
}

#[test]
fn topic_name_to_relative_path_appends_parquet() {
    assert_eq!(topic_name_to_relative_path("/sensor_msgs/JointState"), "sensor_msgs/JointState.parquet");
    assert_eq!(topic_name_to_relative_path("//tf"), "tf.parquet");
}

#[test]
fn extract_short_type_name_keeps_last_segment() {
    assert_eq!(extract_short_type_name("sensor_msgs/JointState"), "JointState");
    assert_eq!(extract_short_type_name("sensor_msgs/msg/Image"), "Image");
    assert_eq!(extract_short_type_name("time"), "time");
}

#[test]
fn image_shape_to_vec_orders_height_width_channels() {
    assert_eq!(ImageShape::new(480, 640, 3).to_vec(), vec![480, 640, 3]);
}

#[test]
fn depth_frame_records_ros_format() {
    let mut frame = DepthFrame::new(4, "bin", vec![1, 2]);
    assert_eq!(frame.ros_format, None);
    frame.set_ros_format("16UC1; compressedDepth rvl");
    assert_eq!(frame.ros_format.as_deref(), Some("16UC1; compressedDepth rvl"));
    assert_eq!(frame.index, 4);
}

#[test]
fn infer_image_shape_from_bytes_reads_dimensions() {
    let image = image::ImageBuffer::from_pixel(4, 3, image::Rgb([12_u8, 34, 56]));
    let mut bytes = std::io::Cursor::new(Vec::new());
    image::DynamicImage::ImageRgb8(image).write_to(&mut bytes, image::ImageFormat::Png).unwrap();

    let shape = infer_image_shape_from_bytes(&bytes.into_inner(), 3).unwrap();
    assert_eq!(shape, ImageShape::new(3, 4, 3));
}

#[test]
fn resolve_or_infer_image_shape_decodes_payload_when_metadata_missing() {
    let image = image::ImageBuffer::from_pixel(7, 5, image::Rgb([12_u8, 34, 56]));
    let mut bytes = std::io::Cursor::new(Vec::new());
    image::DynamicImage::ImageRgb8(image).write_to(&mut bytes, image::ImageFormat::Jpeg).unwrap();

    let frames = vec![ImageFrame::new(0_u32, "jpg", bytes.into_inner())];

    let resolved = resolve_or_infer_image_shape("/camera", &frames, None, 3);
    assert_eq!(resolved, Some(ImageShape::new(5, 7, 3)));
}
