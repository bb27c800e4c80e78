use rust_chat::frame::{decode_frame, encode_frame, encode_len, payload_len, FrameError, MAX_FRAME_LEN};

#[test]
fn frame_starts_with_little_endian_length() {
    let f = encode_frame(b"abc").unwrap();
    assert_eq!(f, vec![3, 0, 0, 0, b'a', b'b', b'c']);
    let big = vec![7u8; 0x0102];
    let f = encode_frame(&big).unwrap();
    assert_eq!(&f[..4], &[0x02, 0x01, 0, 0]);
    assert_eq!(f.len() - 4, 0x0102);
}

#[test]
fn length_bytes() {
    assert_eq!(encode_len(0x0403_0201), [1, 2, 3, 4]);
    assert_eq!(encode_len(0), [0, 0, 0, 0]);
}

#[test]
fn frame_round_trip_with_trailing_bytes() {
    let payload = vec![0u8, 255, 17, 42];
    let mut stream = encode_frame(&payload).unwrap();
    stream.extend_from_slice(&[9, 9, 9]);
    let (p, used) = decode_frame(&stream).unwrap();
    assert_eq!(p, payload);
    assert_eq!(used, 8);
    let (rest, used2) = decode_frame(&encode_frame(&[]).unwrap()).unwrap();
    assert!(rest.is_empty());
    assert_eq!(used2, 4);
}

#[test]
fn short_header_means_closed() {
    assert_eq!(decode_frame(&[]), Err(FrameError::ConnectionClosed));
    assert_eq!(decode_frame(&[1, 0, 0]), Err(FrameError::ConnectionClosed));
    assert_eq!(payload_len(&[5, 0]), Err(FrameError::ConnectionClosed));
}

#[test]
fn short_payload_is_read_failure() {
    assert_eq!(decode_frame(&[5, 0, 0, 0, 1, 2]), Err(FrameError::ReadFailed));
}

#[test]
fn oversized_length_is_refused() {
    assert_eq!(decode_frame(&[0xff, 0xff, 0xff, 0xff, 1]), Err(FrameError::TooLarge));
    let over = (MAX_FRAME_LEN + 1).to_le_bytes();
    assert_eq!(payload_len(&over), Err(FrameError::TooLarge));
    let at = MAX_FRAME_LEN.to_le_bytes();
    assert_eq!(payload_len(&at), Ok(MAX_FRAME_LEN as usize));
    let too_big = vec![0u8; MAX_FRAME_LEN as usize + 1];
    assert_eq!(encode_frame(&too_big), Err(FrameError::TooLarge));
}
