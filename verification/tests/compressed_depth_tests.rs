use std::io::Cursor;

use image::{DynamicImage, ImageBuffer, ImageFormat, Luma};
use rebake::common::DepthFrame;
use rebake::compressed_depth::format::CompressedDepthFormat;
use rebake::compressed_depth::{
    DecodedDepthFrame, decode_compressed_depth, decode_compressed_depth_u16, decode_depth_frame,
};

fn encode_png16_fixture(width: u32, height: u32, values: &[u16]) -> Vec<u8> {
    let image: ImageBuffer<Luma<u16>, Vec<u16>> =
        ImageBuffer::from_vec(width, height, values.to_vec()).expect("valid image size");
    let mut out = Cursor::new(Vec::new());
    DynamicImage::ImageLuma16(image).write_to(&mut out, ImageFormat::Png).expect("PNG encoding should succeed");
    out.into_inner()
}

fn wrap_png_compressed_depth_payload(png: &[u8]) -> Vec<u8> {
    let mut payload = vec![0u8; 12];
    payload.extend_from_slice(png);
    payload
}

fn encode_rvl_vle(mut value: u32, nibbles: &mut Vec<u8>) {
    loop {
        let mut nibble = (value & 0x7) as u8;
        value >>= 3;
        if value != 0 {
            nibble |= 0x8;
        }
        nibbles.push(nibble);
        if value == 0 {
            break;
        }
    }
}

fn encode_rvl_stream_fixture(values: &[u16]) -> Vec<u8> {
    let mut nibbles = Vec::new();
    let mut index = 0usize;
    let mut previous = 0i32;
    while index < values.len() {
        let zero_start = index;
        while index < values.len() && values[index] == 0 {
            index += 1;
        }
        encode_rvl_vle((index - zero_start) as u32, &mut nibbles);
        let nonzero_start = index;
        while index < values.len() && values[index] != 0 {
            index += 1;
        }
        encode_rvl_vle((index - nonzero_start) as u32, &mut nibbles);
        for &value in &values[nonzero_start..index] {
            let delta = value as i32 - previous;
            let zigzag = ((delta << 1) ^ (delta >> 31)) as u32;
            encode_rvl_vle(zigzag, &mut nibbles);
            previous = value as i32;
        }
    }
    let mut words = Vec::new();
    for chunk in nibbles.chunks(8) {
        let mut word = 0u32;
        for &nibble in chunk {
            word = (word << 4) | u32::from(nibble);
        }
        let missing = 8usize.saturating_sub(chunk.len());
        word <<= missing * 4;
        words.extend_from_slice(&word.to_le_bytes());
    }
    words
}

fn make_rvl_payload_fixture(width: u32, height: u32, values: &[u16]) -> Vec<u8> {
    let mut payload = vec![0u8; 12];
    payload.extend_from_slice(&width.to_le_bytes());
    payload.extend_from_slice(&height.to_le_bytes());
    payload.extend_from_slice(&encode_rvl_stream_fixture(values));
    payload
}

#[test]
fn parse_recognizes_rvl_and_32fc1() {
    assert_eq!(
        CompressedDepthFormat::parse("16UC1; compressedDepth rvl").unwrap(),
        CompressedDepthFormat::Depth16Rvl
    );
    assert_eq!(
        CompressedDepthFormat::parse("32FC1; compressedDepth png").unwrap(),
        CompressedDepthFormat::Depth32FPng
    );
}

#[test]
fn decode_png_u16_returns_correct_dimensions_and_values() {
    let values = [10u16, 20, 30, 40];
    let png = encode_png16_fixture(2, 2, &values);
    let payload = wrap_png_compressed_depth_payload(&png);
    let decoded = decode_compressed_depth_u16(&payload, Some("16UC1; compressedDepth png")).unwrap();
    assert_eq!(decoded.width, 2);
    assert_eq!(decoded.height, 2);
    assert_eq!(decoded.values_mm, values);
}

#[test]
fn decode_wrapper_returns_little_endian_bytes() {
    let values = [10u16, 20, 30, 40];
    let png = encode_png16_fixture(2, 2, &values);
    let payload = wrap_png_compressed_depth_payload(&png);
    let (raw, width, height) = decode_compressed_depth(&payload, Some("16UC1; compressedDepth png")).unwrap();
    assert_eq!((width, height), (2, 2));
    let decoded: Vec<u16> = raw.chunks_exact(2).map(|chunk| u16::from_le_bytes([chunk[0], chunk[1]])).collect();
    assert_eq!(decoded, values);
}

#[test]
fn decode_rejects_short_payload() {
    let data = vec![0u8; 19];
    let result = decode_compressed_depth_u16(&data, Some("16UC1; compressedDepth png"));
    assert!(result.is_err());
    assert!(result.unwrap_err().reason().contains("too short"));
}

#[test]
fn decode_rejects_invalid_png_signature() {
    let mut payload = vec![0u8; 12];
    payload.extend_from_slice(&[0x00; 8]);
    let result = decode_compressed_depth_u16(&payload, Some("16UC1; compressedDepth png"));
    assert!(result.is_err());
    assert!(result.unwrap_err().reason().contains("offset 12"));
}

#[test]
fn decode_rvl_returns_correct_dimensions_and_values() {
    let values = [0u16, 100, 100, 0, 103, 120];
    let payload = make_rvl_payload_fixture(3, 2, &values);
    let decoded = decode_compressed_depth_u16(&payload, Some("16UC1; compressedDepth rvl")).unwrap();
    assert_eq!((decoded.width, decoded.height), (3, 2));
    assert_eq!(decoded.values_mm, values);
}

#[test]
fn decode_without_format_falls_back_to_png_signature() {
    let values = [7u16, 8, 9, 10];
    let png = encode_png16_fixture(2, 2, &values);
    let payload = wrap_png_compressed_depth_payload(&png);
    let decoded = decode_compressed_depth_u16(&payload, None).unwrap();
    assert_eq!(decoded.values_mm, values);
}

#[test]
fn decode_32fc1_returns_explicit_unsupported_error() {
    let png = encode_png16_fixture(2, 2, &[10, 20, 30, 40]);
    let payload = wrap_png_compressed_depth_payload(&png);
    let err = decode_compressed_depth_u16(&payload, Some("32FC1; compressedDepth png"))
        .expect_err("32FC1 should be recognized but unsupported");
    assert!(err.reason().contains("32FC1"));
}

#[test]
fn decode_rvl_handles_large_values_runs_and_deltas() {
    let values = [65535u16, 1, 0, 0, 0, 40000, 39999, 2, 0];
    let payload = make_rvl_payload_fixture(3, 3, &values);
    let decoded = decode_compressed_depth_u16(&payload, Some("16UC1; compressedDepth rvl")).unwrap();
    assert_eq!(decoded.values_mm, values);
}

#[test]
fn decode_rvl_rejects_bad_headers_and_truncated_streams() {
    let short = vec![0u8; 19];
    let err = decode_compressed_depth_u16(&short, Some("16UC1; compressedDepth rvl")).unwrap_err();
    assert_eq!(err.reason(), "invalid data: compressedDepth RVL payload too short: 19 bytes (minimum 20)");

    let zero = make_rvl_payload_fixture(0, 2, &[]);
    let err = decode_compressed_depth_u16(&zero, Some("16UC1; compressedDepth rvl")).unwrap_err();
    assert_eq!(err.reason(), "invalid data: compressedDepth RVL has non-positive dimensions: 0x2");

    let mut truncated = make_rvl_payload_fixture(3, 2, &[0, 100, 100, 0, 103, 120]);
    truncated.truncate(20);
    let err = decode_compressed_depth_u16(&truncated, Some("16UC1; compressedDepth rvl")).unwrap_err();
    assert!(err.reason().contains("compressedDepth"));
}

#[test]
fn decode_png_rejects_eight_bit_png() {
    let image = ImageBuffer::from_pixel(2, 2, Luma([5u8]));
    let mut out = Cursor::new(Vec::new());
    DynamicImage::ImageLuma8(image).write_to(&mut out, ImageFormat::Png).unwrap();
    let payload = wrap_png_compressed_depth_payload(&out.into_inner());
    let err = decode_compressed_depth_u16(&payload, Some("16UC1; compressedDepth png")).unwrap_err();
    assert!(err.reason().contains("expected gray16 PNG"));
}

#[test]
fn decode_without_format_rejects_non_png_payload() {
    let payload = make_rvl_payload_fixture(1, 1, &[5]);
    let err = decode_compressed_depth_u16(&payload, None).unwrap_err();
    assert_eq!(
        err.reason(),
        "invalid data: compressedDepth format is missing; cannot decode non-PNG payload"
    );
}

#[test]
fn decode_depth_frame_uses_frame_format() {
    let values = [1u16, 2, 3, 4, 5, 6];
    let mut frame = DepthFrame::new(0, "bin", make_rvl_payload_fixture(2, 3, &values));
    frame.set_ros_format("16UC1; compressedDepth rvl");
    let decoded = decode_depth_frame(&frame).unwrap();
    assert_eq!((decoded.width, decoded.height), (2, 3));
    assert_eq!(decoded.values_mm, values);
}

#[test]
fn decoded_depth_frame_checks_value_count() {
    let frame = DecodedDepthFrame::new(2, 2, vec![1, 2, 3, 4]).unwrap();
    assert_eq!(frame.gray16le_bytes(), vec![1, 0, 2, 0, 3, 0, 4, 0]);
    assert_eq!(frame.into_gray16le_bytes(), vec![1, 0, 2, 0, 3, 0, 4, 0]);
    let err = DecodedDepthFrame::new(2, 2, vec![1, 2, 3]).unwrap_err();
    assert_eq!(err.reason(), "invalid data: decoded depth frame has 3 values, expected 4 for 2x2");
}

#[test]
fn parse_rejects_unknown_transports() {
    assert_eq!(
        CompressedDepthFormat::parse("16UC1; compressedDepth").unwrap(),
        CompressedDepthFormat::Depth16Png
    );
    assert!(CompressedDepthFormat::parse("16UC1; compressedDepth jpeg").is_err());
}
