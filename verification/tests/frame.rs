use indtp::{CryptoKeys, Error, Flags, Frame, Mode, SwCryptoEngine, SwIntegrityEngine, HEADER_SIZE};

#[test]
fn test_frame_creation() {
    let buffer = [0_u8; 128];
    let _ = Frame::new(
        &mut buffer.to_vec(),
        0xAB,
        0x00,
        0x06,
        Flags::new()
            .with_mode(Mode::Lite)
            .with_batch(true)
            .with_encryption(true)
            .with_priority(false)
            .build(),
    )
    .unwrap();
}

#[test]
fn test_frame_creation_failed() {
    let buffer = [0_u8; 3];
    let frame = Frame::new_lite(&mut buffer.to_vec(), 0xAB, 0x00, 0x06);
    assert!(frame.is_err());
}

/// Auxiliary function for creating INDTP frame for tests.
fn create_test_frame(buffer: &[u8]) -> Frame {
    Frame::new_lite(&mut buffer.to_vec(), 0xAB, 0x00, 0x06).unwrap()
}

#[test]
fn frame_test_indtp_set_and_get_mode() {
    let buffer = [0_u8; 128];
    let mut frame = create_test_frame(&buffer);

    let mode = Mode::Lite;
    frame.set_mode(mode);
    assert_eq!(mode, frame.mode().unwrap());

    let mode = Mode::Verified;
    frame.set_mode(mode);
    assert_eq!(mode, frame.mode().unwrap());

    let mode = Mode::Trusted;
    frame.set_mode(mode);
    assert_eq!(mode, frame.mode().unwrap());

    let mode = Mode::Critical;
    frame.set_mode(mode);
    assert_eq!(mode, frame.mode().unwrap());
}

#[test]
fn frame_test_indtp_set_and_get_batch() {
    let buffer = [0_u8; 128];
    let mut frame = create_test_frame(&buffer);

    let state = true;
    frame.set_batch(state);
    assert_eq!(state, frame.is_batch());

    let state = false;
    frame.set_batch(state);
    assert_eq!(state, frame.is_batch());
}

#[test]
fn frame_test_indtp_set_and_get_encrypted() {
    let buffer = [0_u8; 128];
    let mut frame = create_test_frame(&buffer);

    let state = true;
    frame.set_encrypted(state);
    assert_eq!(state, frame.is_encrypted());

    let state = false;
    frame.set_encrypted(state);
    assert_eq!(state, frame.is_encrypted());
}

#[test]
fn frame_test_indtp_set_and_get_priority() {
    let buffer = [0_u8; 128];
    let mut frame = create_test_frame(&buffer);

    let state = true;
    frame.set_priority(state);
    assert_eq!(state, frame.is_high_priority());

    let state = false;
    frame.set_priority(state);
    assert_eq!(state, frame.is_high_priority());
}

/// Builds a packed frame in `buffer` with the given mode and payload.
fn create_valid_frame_buffer(buffer: &mut [u8], mode: Mode, payload: &[u8]) {
    let flags = Flags::new().with_mode(mode).build();

    let mut frame = Frame::new(&mut buffer.to_vec(), 0xAB, 0x00, payload.len(), flags)
        .expect("Failed to create frame skeleton");

    frame
        .set_payload_raw(payload, 0x7F)
        .expect("Failed to set payload");

    let keys = CryptoKeys::new([0x42; 16], [0x55; 32]);

    frame
        .pack::<SwIntegrityEngine, SwCryptoEngine>(Some(&keys))
        .expect("Failed to pack frame");

    buffer.copy_from_slice(frame.as_bytes());
}

#[test]
fn test_parse_success_lite_mode() {
    let payload_data = [0xDE, 0xAD, 0xBE, 0xEF];
    let mut buffer = [0_u8; 128];
    create_valid_frame_buffer(&mut buffer, Mode::Lite, &payload_data);

    let frame = Frame::parse::<SwIntegrityEngine, SwCryptoEngine>(&mut buffer.to_vec(), None)
        .expect("Parsing valid frame failed");

    assert_eq!(frame.mode().unwrap(), Mode::Lite);
    assert_eq!(frame.payload().unwrap(), &payload_data);
    assert_eq!(frame.payload_len(), 4);
    assert_eq!(frame.trailer_len(), 0);
}

#[test]
fn test_parse_invalid_header_crc() {
    let payload_data = [0x01, 0x02];
    let mut buffer = [0_u8; 128];
    create_valid_frame_buffer(&mut buffer, Mode::Lite, &payload_data);

    buffer[6] ^= 0xFF;
    let res = Frame::parse::<SwIntegrityEngine, SwCryptoEngine>(&mut buffer.to_vec(), None);

    assert!(res.is_err());
    assert_eq!(res.unwrap_err(), Error::IncorrectCrc);
}

#[test]
fn test_parse_invalid_trailer_mac() {
    let payload_data = [0xAA, 0xBB, 0xCC];
    let mut buffer = [0_u8; 128];

    // Checking Verified mode.
    create_valid_frame_buffer(&mut buffer, Mode::Verified, &payload_data);
    let res = Frame::parse::<SwIntegrityEngine, SwCryptoEngine>(&mut buffer.to_vec(), None);
    assert!(res.is_ok());

    let p_start = HEADER_SIZE;
    buffer[p_start] ^= 0x01;

    let res = Frame::parse::<SwIntegrityEngine, SwCryptoEngine>(&mut buffer.to_vec(), None);
    assert!(res.is_err());
    assert_eq!(res.unwrap_err(), Error::IncorrectCrc);

    let keys = CryptoKeys::new([0x42; 16], [0x55; 32]);

    // Checking Trusted mode.
    create_valid_frame_buffer(&mut buffer, Mode::Trusted, &payload_data);
    let res = Frame::parse::<SwIntegrityEngine, SwCryptoEngine>(&mut buffer.to_vec(), Some(&keys));
    assert!(res.is_ok());

    let p_start = HEADER_SIZE;
    buffer[p_start] ^= 0x01;

    let res = Frame::parse::<SwIntegrityEngine, SwCryptoEngine>(&mut buffer.to_vec(), Some(&keys));
    assert!(res.is_err());
    assert_eq!(res.unwrap_err(), Error::AuthFailed);

    // Checking Critical mode.
    create_valid_frame_buffer(&mut buffer, Mode::Critical, &payload_data);
    let res = Frame::parse::<SwIntegrityEngine, SwCryptoEngine>(&mut buffer.to_vec(), Some(&keys));
    assert!(res.is_ok());

    let p_start = HEADER_SIZE;
    buffer[p_start] ^= 0x01;

    let res = Frame::parse::<SwIntegrityEngine, SwCryptoEngine>(&mut buffer.to_vec(), Some(&keys));
    assert!(res.is_err());
    assert_eq!(res.unwrap_err(), Error::AuthFailed);
}
