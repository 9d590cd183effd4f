use mindbender::error::ApplicationError;
use mindbender::pipeline::compression::{compress, decompress, frame, starts_with_marker, unframe};

#[test]
fn test_compress_decompress() {
    let original_data = b"Hello, world!";
    let compressed_data = compress(original_data).expect("Compression failed");
    let decompressed_data = decompress(&compressed_data).expect("Decompression failed");

    assert_eq!(original_data.to_vec(), decompressed_data);
}

#[test]
fn test_compression_error_handling() {
    let empty_data: &[u8] = &[];
    let compressed_data = compress(empty_data);
    assert!(compressed_data.is_ok());
}

#[test]
fn test_decompression_error_handling() {
    let invalid_data = b"This is not compressed!";
    let decompressed_data = decompress(invalid_data);
    assert!(decompressed_data.is_err());
}

#[test]
fn compression_changes_repetitive_data() {
    let data = "Large message!".repeat(1000);
    let compressed = compress(data.as_bytes()).unwrap();
    assert!(compressed.len() < data.len() / 10);
    assert_eq!(decompress(&compressed).unwrap(), data.as_bytes());
}

#[test]
fn frame_starts_with_the_marker_and_unframes_back() {
    let data = "Large message!".repeat(1000);
    let framed = frame(data.as_bytes()).unwrap();
    assert!(framed.starts_with("COMPRESSED:"));
    assert!(starts_with_marker(framed.as_bytes()));
    assert_eq!(unframe(&framed).unwrap(), data.as_bytes());
}

#[test]
fn empty_payload_frames_and_unframes() {
    let framed = frame(&[]).unwrap();
    assert!(framed.len() > "COMPRESSED:".len());
    assert_eq!(unframe(&framed).unwrap(), Vec::<u8>::new());
}

#[test]
fn binary_payload_frames_and_unframes() {
    let data: Vec<u8> = (0..=255u8).chain((0..=255u8).rev()).collect();
    let framed = frame(&data).unwrap();
    assert_eq!(unframe(&framed).unwrap(), data);
}

#[test]
fn unframe_without_marker_is_a_framing_mismatch() {
    let result = unframe("Not compressed at all");
    match result {
        Err(ApplicationError::DecodingError(m)) => {
            assert_eq!(m, "Decompression expected, but message is not compressed")
        }
        _ => panic!("expected a decoding error"),
    }
    assert!(matches!(unframe(""), Err(ApplicationError::DecodingError(_))));
    assert!(matches!(unframe("COMPRESSED"), Err(ApplicationError::DecodingError(_))));
}

#[test]
fn unframe_with_bad_body() {
    assert!(matches!(unframe("COMPRESSED:@@@@"), Err(ApplicationError::DecodingError(_))));
    // Valid base64 of bytes that are not a zlib stream.
    assert!(matches!(unframe("COMPRESSED:aGVsbG8="), Err(ApplicationError::IoError(_))));
}

#[test]
fn marker_is_checked_verbatim() {
    assert!(starts_with_marker(b"COMPRESSED:"));
    assert!(starts_with_marker(b"COMPRESSED:abc"));
    assert!(!starts_with_marker(b"compressed:abc"));
    assert!(!starts_with_marker(b"COMPRESSED"));
    assert!(!starts_with_marker(b" COMPRESSED:"));
}
