use mtls_echo::errors::FrameError;
use mtls_echo::frame::{FrameCodec, RequestFrame, ResponseFrame, FRAME_VERSION};

#[test]
fn round_trip_hello() {
    let codec = FrameCodec::new(1024);
    let frame = RequestFrame { message: b"hello1".to_vec() };
    let bytes = codec.encode_request(&frame);
    assert_eq!(bytes.len(), 11);
    assert_eq!(bytes[0], FRAME_VERSION);
    assert_eq!(&bytes[1..5], &[0, 0, 0, 6]);
    assert_eq!(&bytes[5..], b"hello1");
    let back = codec.decode_request(&bytes).unwrap();
    assert_eq!(back.message, b"hello1".to_vec());
}

#[test]
fn round_trip_empty_message() {
    let codec = FrameCodec::new(16);
    let frame = ResponseFrame { message: Vec::new() };
    let bytes = codec.encode_response(&frame);
    assert_eq!(bytes, vec![FRAME_VERSION, 0, 0, 0, 0]);
    let back = codec.decode_response(&bytes).unwrap();
    assert!(back.message.is_empty());
}

#[test]
fn length_prefix_is_big_endian() {
    let codec = FrameCodec::new(1000);
    let frame = RequestFrame { message: vec![7u8; 300] };
    let bytes = codec.encode_request(&frame);
    assert_eq!(&bytes[1..5], &[0, 0, 1, 44]);
    let back = codec.decode_request(&bytes).unwrap();
    assert_eq!(back.message.len(), 300);
}

#[test]
fn short_buffer_is_truncated() {
    let codec = FrameCodec::new(64);
    let bytes = vec![FRAME_VERSION, 0, 0, 0];
    assert_eq!(codec.decode_request(&bytes), Err(FrameError::Truncated));
}

#[test]
fn missing_payload_is_truncated() {
    let codec = FrameCodec::new(64);
    let bytes = vec![FRAME_VERSION, 0, 0, 0, 10, 1, 2, 3];
    assert_eq!(codec.decode_request(&bytes), Err(FrameError::Truncated));
}

#[test]
fn wrong_version_is_schema_mismatch() {
    let codec = FrameCodec::new(64);
    let bytes = vec![FRAME_VERSION + 1, 0, 0, 0, 0];
    assert_eq!(codec.decode_request(&bytes), Err(FrameError::SchemaMismatch));
}

#[test]
fn trailing_bytes_are_schema_mismatch() {
    let codec = FrameCodec::new(64);
    let mut bytes = codec.encode_request(&RequestFrame { message: b"hi".to_vec() });
    bytes.push(0);
    assert_eq!(codec.decode_request(&bytes), Err(FrameError::SchemaMismatch));
}

#[test]
fn oversized_length_is_refused() {
    let small = FrameCodec::new(4);
    let large = FrameCodec::new(64);
    let bytes = large.encode_request(&RequestFrame { message: b"hello" .to_vec() });
    assert_eq!(small.decode_request(&bytes), Err(FrameError::SizeLimitExceeded));
    assert!(large.decode_request(&bytes).is_ok());
}

#[test]
fn header_alone_is_enough_to_refuse() {
    let codec = FrameCodec::new(4);
    let header = vec![FRAME_VERSION, 0, 0, 0, 5];
    assert_eq!(codec.frame_payload_len(&header), Err(FrameError::SizeLimitExceeded));
    let good = vec![FRAME_VERSION, 0, 0, 0, 3];
    assert_eq!(codec.frame_payload_len(&good), Ok(3));
    let bad = vec![9, 0, 0, 0, 3];
    assert_eq!(codec.frame_payload_len(&bad), Err(FrameError::SchemaMismatch));
}
