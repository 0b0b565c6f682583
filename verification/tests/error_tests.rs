use std::io;

use rebake::error::{OptionExt, PolarsExt, ResultExt, StageError};

#[test]
fn test_missing_error() {
    let err = StageError::missing("dataset");
    assert!(err.is_missing());
    assert!(!err.is_skip());
    assert_eq!(err.to_string(), "missing required data: dataset");
}

#[test]
fn test_invalid_error() {
    let err = StageError::invalid("value must be positive");
    assert!(!err.is_missing());
    assert_eq!(err.to_string(), "invalid data: value must be positive");
}

#[test]
fn test_skip_error() {
    let err = StageError::skip("no data to process");
    assert!(err.is_skip());
    assert!(!err.is_missing());
    assert_eq!(err.to_string(), "skipped: no data to process");
}

#[test]
fn test_io_error() {
    let io_err = io::Error::new(io::ErrorKind::NotFound, "file not found");
    let err = StageError::io("failed to open config.yaml", io_err);
    assert!(err.is_io());
    assert!(err.to_string().contains("failed to open config.yaml"));
}

#[test]
fn test_option_ext() {
    let none: Option<i32> = None;
    let result = none.or_missing("value");
    assert!(result.is_err());
    assert!(result.unwrap_err().is_missing());

    let some: Option<i32> = Some(42);
    let result = some.or_missing("value");
    assert_eq!(result.unwrap(), 42);
}

#[test]
fn test_from_io_error() {
    let io_err = io::Error::new(io::ErrorKind::PermissionDenied, "access denied");
    let stage_err: StageError = io_err.into();
    assert!(stage_err.is_io());
}

#[test]
fn test_reason_includes_source_chain() {
    let inner = io::Error::new(io::ErrorKind::NotFound, "cam.mp4 not found");
    let err = StageError::external("failed to assemble segment", inner);
    let reason = err.reason();
    assert!(reason.contains("failed to assemble segment"), "reason should contain context: {reason}");
    assert!(reason.contains("cam.mp4 not found"), "reason should contain source: {reason}");

    let io_err = io::Error::new(io::ErrorKind::PermissionDenied, "access denied");
    let err = StageError::io("failed to write output", io_err);
    let reason = err.reason();
    assert!(reason.contains("failed to write output"));
    assert!(reason.contains("access denied"));

    let err = StageError::missing("dataset");
    assert_eq!(err.reason(), err.to_string());
}

#[test]
fn test_polars_ext() {
    let err: Result<i32, &str> = Err("type mismatch");
    let result = err.or_invalid("column is not i32");
    assert!(result.is_err());
    let err_msg = result.unwrap_err().to_string();
    assert!(err_msg.contains("column is not i32"));
    assert!(err_msg.contains("type mismatch"));

    let ok: Result<i32, &str> = Ok(42);
    let result = ok.or_invalid("column is not i32");
    assert_eq!(result.unwrap(), 42);
}

#[test]
fn error_display_and_reason_texts_are_exact() {
    let err = StageError::invalid_with("bad header", io::Error::other("truncated"));
    assert_eq!(err.to_string(), "invalid data: bad header");
    assert_eq!(err.reason(), "invalid data: bad header: truncated");

    let err = StageError::io("failed to write output", io::Error::other("disk full"));
    assert_eq!(err.to_string(), "I/O error: failed to write output");
    assert_eq!(err.reason(), "I/O error: failed to write output: disk full");

    let err = StageError::external_boxed("ffmpeg failed", "exit status 1".to_string());
    assert_eq!(err.to_string(), "ffmpeg failed");
    assert_eq!(err.reason(), "ffmpeg failed: exit status 1");
    assert!(!err.is_io() && !err.is_missing() && !err.is_skip());

    let err = StageError::skip("nothing to do");
    assert_eq!(err.reason(), "skipped: nothing to do");
}

#[test]
fn from_io_error_uses_generic_context() {
    let err: StageError = io::Error::other("boom").into();
    assert_eq!(err.to_string(), "I/O error: I/O operation failed");
    assert_eq!(err.reason(), "I/O error: I/O operation failed: boom");
}

#[test]
fn io_errors_convert_to_io_stage_errors() {
    let err: StageError = io::Error::new(io::ErrorKind::PermissionDenied, "access denied").into();
    assert!(err.is_io());
    assert!(!err.is_skip());
    assert_eq!(err.to_string(), "I/O error: I/O operation failed");
    assert_eq!(err.reason(), "I/O error: I/O operation failed: access denied");
}

#[test]
fn test_result_ext() {
    let err: Result<i32, io::Error> = Err(io::Error::new(io::ErrorKind::NotFound, "not found"));
    let result = err.with_context("failed to read file");
    assert!(result.is_err());
    assert!(result.unwrap_err().to_string().contains("failed to read file"));
}

#[test]
fn result_ext_passes_success_through_and_keeps_the_cause() {
    let ok: Result<i32, io::Error> = Ok(7);
    assert_eq!(ok.with_context("unused").unwrap(), 7);
    let err: Result<i32, io::Error> = Err(io::Error::new(io::ErrorKind::NotFound, "cam.mp4 not found"));
    assert_eq!(err.with_context("failed to open").unwrap_err().reason(), "failed to open: cam.mp4 not found");
}
