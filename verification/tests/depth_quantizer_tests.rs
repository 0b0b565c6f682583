use rebake::depth_quantizer::{Q10ClipParams, q10_to_p010le, quantize_frame};

#[test]
fn quantize_zero_returns_zero() {
    let params = Q10ClipParams::new(4092);
    assert_eq!(params.quantize(0), 0);
}

#[test]
fn quantize_above_max_returns_zero() {
    let params = Q10ClipParams::new(4092);
    assert_eq!(params.quantize(4093), 0);
    assert_eq!(params.quantize(u16::MAX), 0);
}

#[test]
fn quantize_max_returns_1023() {
    let params = Q10ClipParams::new(4092);
    assert_eq!(params.quantize(4092), 1023);
}

#[test]
fn quantize_one_returns_at_least_one() {
    let params = Q10ClipParams::new(4092);
    assert!(params.quantize(1) >= 1);
}

#[test]
fn dequantize_zero_returns_zero() {
    let params = Q10ClipParams::new(4092);
    assert_eq!(params.dequantize(0), 0);
}

#[test]
fn roundtrip_error_within_step() {
    let params = Q10ClipParams::new(4092);
    let step = (params.depth_max_mm as f64 / 1023.0).ceil() as u16;
    let max_error = step;
    for depth_mm in 1..=4092u16 {
        let q10 = params.quantize(depth_mm);
        assert!((1..=1023).contains(&q10), "q10 out of range for depth {depth_mm}");
        let restored = params.dequantize(q10);
        let error = (depth_mm as i32 - restored as i32).unsigned_abs() as u16;
        assert!(error <= max_error, "roundtrip error {error}mm > max_error {max_error}mm for depth {depth_mm}mm");
    }
}

#[test]
fn quantize_frame_counts_clipped() {
    let params = Q10ClipParams::new(4092);
    let raw = vec![0, 100, 2000, 4092, 5000, 6000];
    let mut out = vec![0u16; raw.len()];
    let clipped = quantize_frame(&raw, &params, &mut out);
    assert_eq!(clipped, 2);
    assert_eq!(out[0], 0);
    assert!(out[1] > 0);
    assert!(out[3] == 1023);
    assert_eq!(out[4], 0);
    assert_eq!(out[5], 0);
}

#[test]
fn p010le_y_plane_shift() {
    let q10 = vec![100u16, 200, 300, 400];
    let p010 = q10_to_p010le(&q10, 2, 2);
    let y_values: Vec<u16> = p010[..8].chunks_exact(2).map(|c| u16::from_le_bytes([c[0], c[1]])).collect();
    assert_eq!(y_values, vec![100 << 6, 200 << 6, 300 << 6, 400 << 6]);
}

#[test]
fn p010le_uv_plane_neutral() {
    let q10 = vec![100u16, 200, 300, 400];
    let p010 = q10_to_p010le(&q10, 2, 2);
    let uv_values: Vec<u16> = p010[8..].chunks_exact(2).map(|c| u16::from_le_bytes([c[0], c[1]])).collect();
    assert!(uv_values.iter().all(|&v| v == 0x8000));
}

#[test]
fn p010le_frame_size() {
    let q10 = vec![0u16; 16];
    let p010 = q10_to_p010le(&q10, 4, 4);
    assert_eq!(p010.len(), 48);
}

#[test]
fn depth_config_serde_roundtrip() {
    let params = Q10ClipParams::new(4092);
    assert_eq!(params.depth_max_mm, 4092);
    assert_eq!(params.quantize(4092), 1023);
}

#[test]
fn quantize_and_dequantize_exact_values() {
    let params = Q10ClipParams::new(4092);
    assert_eq!(params.quantize(2046), 512);
    assert_eq!(params.dequantize(512), 2048);
    assert_eq!(params.dequantize(1023), 4092);
    let small = Q10ClipParams::new(10);
    assert_eq!(small.quantize(1), 102);
    assert_eq!(small.quantize(10), 1023);
}

#[test]
fn p010le_odd_frame_drops_last_chroma_row_and_column() {
    let p010 = q10_to_p010le(&[1, 2, 3, 4, 5, 6], 3, 2);
    assert_eq!(p010.len(), 6 * 2 + 4);
    assert_eq!(&p010[0..2], &(1u16 << 6).to_le_bytes());
}
