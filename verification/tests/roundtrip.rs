use indtp::{
    is_sequence_correct, CryptoKeys, Error, Flags, Frame, Header, Mode, PayloadType, SwCryptoEngine, SwIntegrityEngine,
    HEADER_SIZE, INDTP_VERSION, PAYLOAD_MAX_SIZE, STANDARD_PAYLOAD_RANGE, VENDOR_PAYLOAD_RANGE,
};

fn packed(mode: Mode, payload: &[u8], keys: Option<&CryptoKeys>) -> Vec<u8> {
    let flags = Flags::new().with_mode(mode).with_priority(true).build();
    let mut frame = Frame::new(&mut vec![0u8; 80], 0x33, 0x05, payload.len(), flags).unwrap();
    frame.set_payload_raw(payload, 0x05).unwrap();
    frame.pack::<SwIntegrityEngine, SwCryptoEngine>(keys).unwrap();
    frame.into_bytes()
}

#[test]
fn pack_then_parse_every_mode() {
    let keys = CryptoKeys::new([0x11; 16], [0x22; 32]);
    for mode in [Mode::Lite, Mode::Verified, Mode::Trusted, Mode::Critical] {
        let bytes = packed(mode, &[1, 2, 3, 4, 5], Some(&keys));
        let frame = Frame::parse::<SwIntegrityEngine, SwCryptoEngine>(&mut bytes.clone(), Some(&keys))
            .unwrap();
        assert_eq!(frame.mode(), Ok(mode));
        assert!(frame.is_high_priority());
        assert_eq!(frame.payload().unwrap(), &[1, 2, 3, 4, 5]);
        assert_eq!(frame.as_bytes(), &bytes[..]);
        let header = frame.header();
        assert_eq!(header.device_id, 0x33);
        assert_eq!(header.payload_type, 0x05);
        assert_eq!(header.payload_len, 5);
        assert_eq!(header.version, INDTP_VERSION);
    }
}

#[test]
fn parse_with_wrong_keys_fails_authentication() {
    let keys = CryptoKeys::new([0x11; 16], [0x22; 32]);
    let other = CryptoKeys::new([0x12; 16], [0x23; 32]);
    for mode in [Mode::Trusted, Mode::Critical] {
        let mut bytes = packed(mode, &[1, 2, 3], Some(&keys));
        assert_eq!(
            Frame::parse::<SwIntegrityEngine, SwCryptoEngine>(&mut bytes.clone(), Some(&other))
                .unwrap_err(),
            Error::AuthFailed
        );
        assert_eq!(
            Frame::parse::<SwIntegrityEngine, SwCryptoEngine>(&mut bytes, None).unwrap_err(),
            Error::MissingKeys
        );
    }
}

#[test]
fn parse_rejects_undefined_flag_bits() {
    let mut header = Header::new();
    header.flags = 0x80;
    let mut bytes = header.pack::<SwIntegrityEngine>().unwrap().to_vec();
    bytes.extend_from_slice(&[0u8; 16]);
    assert_eq!(
        Frame::parse::<SwIntegrityEngine, SwCryptoEngine>(&mut bytes, None).unwrap_err(),
        Error::ParseError
    );
}

#[test]
fn parse_rejects_short_buffers() {
    assert_eq!(
        Frame::parse::<SwIntegrityEngine, SwCryptoEngine>(&mut vec![0u8; 5], None).unwrap_err(),
        Error::BufferUnderflow
    );
    // A valid header that announces more payload than the buffer holds.
    let mut header = Header::new();
    header.payload_len = 40;
    let mut bytes = header.pack::<SwIntegrityEngine>().unwrap().to_vec();
    bytes.extend_from_slice(&[0u8; 10]);
    assert_eq!(
        Frame::parse::<SwIntegrityEngine, SwCryptoEngine>(&mut bytes, None).unwrap_err(),
        Error::ParseError
    );
}

#[test]
fn frame_new_checks_sizes() {
    assert_eq!(
        Frame::new_lite(&mut vec![0u8; 2000], 1, 1, PAYLOAD_MAX_SIZE + 1).unwrap_err(),
        Error::BufferOverflow
    );
    assert_eq!(
        Frame::new_critical(&mut vec![0u8; HEADER_SIZE + 10 + 31], 1, 1, 10).unwrap_err(),
        Error::BufferUnderflow
    );
    let frame = Frame::new_critical(&mut vec![0u8; HEADER_SIZE + 10 + 32], 1, 1, 10).unwrap();
    assert_eq!(frame.size(), HEADER_SIZE + 10 + 32);
    assert_eq!(frame.trailer_len(), 32);
}

#[test]
fn set_payload_raw_rejects_oversized_payload() {
    let mut frame = Frame::new_lite(&mut vec![0u8; 32], 1, 1, 4).unwrap();
    let big = vec![0u8; PAYLOAD_MAX_SIZE + 1];
    assert_eq!(frame.set_payload_raw(&big, 9), Err(Error::BufferOverflow));
    assert_eq!(frame.header().payload_type, 1);
}

#[test]
fn payload_mut_writes_into_frame() {
    let mut frame = Frame::new_lite(&mut vec![0u8; 32], 1, 1, 4).unwrap();
    frame.payload_mut().unwrap().copy_from_slice(&[5, 6, 7, 8]);
    assert_eq!(frame.payload().unwrap(), &[5, 6, 7, 8]);
    let mut frame = Frame::new_verified(&mut vec![0u8; 32], 1, 1, 2).unwrap();
    frame.trailer_mut().unwrap()[0] = 0xEE;
    assert_eq!(frame.trailer().unwrap(), &[0xEE, 0, 0, 0]);
}

#[test]
fn payload_type_conversions() {
    assert_eq!(u8::from(PayloadType::Imu6), 0x03);
    assert_eq!(PayloadType::from(0x06), PayloadType::ImuQuat);
    assert_eq!(PayloadType::from(0x42), PayloadType::Reserved(0x42));
    assert_eq!(PayloadType::Reserved(0x42).as_u8(), 0x42);
    for value in 0..=255u8 {
        assert_eq!(u8::from(PayloadType::from(value)), value);
    }
    assert!(PayloadType::Imu3Acc.is_standard());
    assert!(!PayloadType::Imu3Acc.is_vendor());
    assert!(PayloadType::Reserved(0x80).is_vendor());
    assert!(PayloadType::Reserved(0xFF).is_vendor());
    assert!(PayloadType::Reserved(0xFE).is_vendor());
    assert!(!PayloadType::Reserved(0x7F).is_vendor());
    assert!(!PayloadType::Reserved(0xFF).is_standard());
    assert!(STANDARD_PAYLOAD_RANGE.contains(&0x7F));
    assert!(!VENDOR_PAYLOAD_RANGE.contains(&0xFF));
}

#[test]
fn mode_and_flags_conversions() {
    assert_eq!(Mode::try_from(2u8), Ok(Mode::Trusted));
    assert_eq!(Mode::try_from(4u8), Err(Error::ParseError));
    assert_eq!(u8::from(Mode::Critical), 3);
    assert_eq!(Flags::from(Mode::Verified).bits(), 1);
    assert_eq!(Mode::try_from(Flags::from_bits_truncate(0xFE)), Ok(Mode::Trusted));
    assert_eq!(Flags::from_bits(0x20), None);
    assert_eq!(Flags::from_bits(0x1F).map(|f| f.bits()), Some(0x1F));
    let flags = Flags::new()
        .with_mode(Mode::Critical)
        .with_batch(true)
        .with_encryption(true)
        .with_priority(true)
        .build();
    assert_eq!(flags.bits(), 0x1F);
    let flags = flags.with_mode(Mode::Lite).with_encryption(false);
    assert_eq!(flags.bits(), 0x14);
}

#[test]
fn header_flag_setters_keep_other_flags() {
    let mut header = Header::new();
    header.set_mode(Mode::Critical);
    header.set_batch(true);
    header.set_priority(true);
    header.set_encrypted(true);
    header.set_encrypted(false);
    assert_eq!(header.mode(), Ok(Mode::Critical));
    assert!(header.is_batch());
    assert!(header.is_high_priority());
    assert!(!header.is_encrypted());
    assert_eq!(header.get_flags().bits(), 0x17);
}

#[test]
fn sequence_laws_on_examples() {
    // Antisymmetry.
    assert!(is_sequence_correct(10, Some(5)) && !is_sequence_correct(5, Some(10)));
    // Shift invariance.
    assert_eq!(
        is_sequence_correct(10u16.wrapping_add(65530), Some(5u16.wrapping_add(65530))),
        is_sequence_correct(10, Some(5))
    );
    // Half window.
    assert!(is_sequence_correct(32767, Some(0)));
    assert!(!is_sequence_correct(32768, Some(0)));
}

#[test]
fn set_header_rewrites_header_only() {
    let mut frame = Frame::new_verified(&mut vec![0xAAu8; 40], 0x01, 0x02, 4).unwrap();
    frame.set_payload_raw(&[9, 8, 7, 6], 0x02).unwrap();
    let mut header = frame.header();
    header.device_id = 0x7E;
    header.sequence = 0x1234;
    frame.set_header(header);
    let read = frame.header();
    assert_eq!(read, header);
    assert_eq!(frame.as_bytes()[6], 0x7E);
    assert_eq!(&frame.as_bytes()[8..10], &[0x34, 0x12]);
    assert_eq!(frame.payload().unwrap(), &[9, 8, 7, 6]);
    assert_eq!(frame.payload_len(), 4);
}

/// A packed frame whose header carries the given sequence number.
fn packed_with_sequence(mode: Mode, sequence: u16, keys: Option<&CryptoKeys>) -> Vec<u8> {
    let flags = Flags::new().with_mode(mode).build();
    let mut frame = Frame::new(&mut vec![0u8; 80], 0x21, 0x03, 4, flags).unwrap();
    frame.set_payload_raw(&[5, 6, 7, 8], 0x03).unwrap();
    let mut header = frame.header();
    header.sequence = sequence;
    frame.set_header(header);
    frame.pack::<SwIntegrityEngine, SwCryptoEngine>(keys).unwrap();
    frame.into_bytes()
}

#[test]
fn parse_keeps_received_sequence_number() {
    let keys = CryptoKeys::new([0x11; 16], [0x22; 32]);
    for mode in [Mode::Lite, Mode::Verified, Mode::Trusted, Mode::Critical] {
        let bytes = packed_with_sequence(mode, 5, Some(&keys));
        let frame =
            Frame::parse::<SwIntegrityEngine, SwCryptoEngine>(&mut bytes.clone(), Some(&keys))
                .unwrap();
        assert_eq!(frame.header().sequence, 5);
        assert_eq!(frame.as_bytes(), &bytes[..]);
        assert!(is_sequence_correct(frame.header().sequence, Some(4)));
        assert!(!is_sequence_correct(frame.header().sequence, Some(5)));
    }
}

#[test]
fn tampered_sequence_number_fails_authentication() {
    let keys = CryptoKeys::new([0x11; 16], [0x22; 32]);
    let mut bytes = packed_with_sequence(Mode::Trusted, 7, Some(&keys));
    // Change the sequence number and fix up the header CRC so that only the
    // trailer can tell.
    bytes[8] = 8;
    let header = Header::from_bytes(&bytes).unwrap();
    let packed = header.pack::<SwIntegrityEngine>().unwrap();
    bytes[12] = packed[12];
    bytes[13] = packed[13];
    assert_eq!(
        Frame::parse::<SwIntegrityEngine, SwCryptoEngine>(&mut bytes, Some(&keys)).unwrap_err(),
        Error::AuthFailed
    );
}

#[test]
fn failed_construction_leaves_buffer_alone() {
    let mut buffer = vec![0x5Au8; 20];
    assert_eq!(
        Frame::new_critical(&mut buffer, 1, 1, 10).unwrap_err(),
        Error::BufferUnderflow
    );
    assert_eq!(buffer, vec![0x5Au8; 20]);
    let mut received = vec![0x5Au8; 20];
    assert!(Frame::parse::<SwIntegrityEngine, SwCryptoEngine>(&mut received, None).is_err());
    assert_eq!(received, vec![0x5Au8; 20]);
    let mut buffer = vec![0u8; 20];
    let frame = Frame::new_lite(&mut buffer, 1, 1, 2).unwrap();
    assert!(buffer.is_empty());
    assert_eq!(frame.into_bytes().len(), 20);
}

#[test]
fn set_mode_resizes_trailer() {
    let mut frame = Frame::new_lite(&mut vec![0u8; 64], 1, 1, 4).unwrap();
    assert_eq!(frame.trailer_len(), 0);
    assert_eq!(frame.set_mode(Mode::Verified), Ok(()));
    assert_eq!(frame.trailer().unwrap().len(), 4);
    assert_eq!(frame.set_mode(Mode::Trusted), Ok(()));
    assert_eq!(frame.trailer_len(), 8);
    assert_eq!(frame.set_mode(Mode::Critical), Ok(()));
    assert_eq!(frame.trailer_len(), 32);
    assert_eq!(frame.size(), HEADER_SIZE + 4 + 32);
    assert_eq!(frame.set_mode(Mode::Lite), Ok(()));
    assert_eq!(frame.trailer_len(), 0);
    frame.set_mode(Mode::Verified).unwrap();
    assert_eq!(frame.pack::<SwIntegrityEngine, SwCryptoEngine>(None), Ok(HEADER_SIZE + 4 + 4));
    let bytes = frame.into_bytes();
    let parsed = Frame::parse::<SwIntegrityEngine, SwCryptoEngine>(&mut bytes.clone(), None).unwrap();
    assert_eq!(parsed.mode(), Ok(Mode::Verified));
}

#[test]
fn set_mode_without_room_changes_nothing() {
    let mut frame = Frame::new_lite(&mut vec![0u8; HEADER_SIZE + 4 + 8], 1, 1, 4).unwrap();
    frame.set_batch(true);
    assert_eq!(frame.set_mode(Mode::Critical), Err(Error::BufferUnderflow));
    assert_eq!(frame.mode(), Ok(Mode::Lite));
    assert_eq!(frame.trailer_len(), 0);
    assert_eq!(frame.set_mode(Mode::Trusted), Ok(()));
    assert!(frame.is_batch());
    assert_eq!(frame.trailer_len(), 8);
}
