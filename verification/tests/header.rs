use indtp::{Error, Header, Mode, SwIntegrityEngine, INDTP_VERSION};

#[test]
fn header_test_indtp_set_and_get_mode() {
    let mut header = Header::new();

    let mode = Mode::Lite;
    header.set_mode(mode);
    assert_eq!(mode, header.mode().unwrap());

    let mode = Mode::Verified;
    header.set_mode(mode);
    assert_eq!(mode, header.mode().unwrap());

    let mode = Mode::Trusted;
    header.set_mode(mode);
    assert_eq!(mode, header.mode().unwrap());

    let mode = Mode::Critical;
    header.set_mode(mode);
    assert_eq!(mode, header.mode().unwrap());
}

#[test]
fn header_test_indtp_set_and_get_batch() {
    let mut header = Header::new();

    let state = true;
    header.set_batch(state);
    assert_eq!(state, header.is_batch());

    let state = false;
    header.set_batch(state);
    assert_eq!(state, header.is_batch());
}

#[test]
fn header_test_indtp_set_and_get_encrypted() {
    let mut header = Header::new();

    let state = true;
    header.set_encrypted(state);
    assert_eq!(state, header.is_encrypted());

    let state = false;
    header.set_encrypted(state);
    assert_eq!(state, header.is_encrypted());
}

#[test]
fn header_test_indtp_set_and_get_priority() {
    let mut header = Header::new();

    let state = true;
    header.set_priority(state);
    assert_eq!(state, header.is_high_priority());

    let state = false;
    header.set_priority(state);
    assert_eq!(state, header.is_high_priority());
}

#[test]
fn header_test_indtp_payload_type() {
    let mut header = Header::new();

    header.payload_type = 0x00;
    assert!(header.is_standard_payload());

    header.payload_type = 0x12;
    assert!(header.is_standard_payload());

    header.payload_type = 0x7E;
    assert!(header.is_standard_payload());

    header.payload_type = 0x7F;
    assert!(header.is_standard_payload());

    header.payload_type = 0x80;
    assert!(!header.is_standard_payload());

    header.payload_type = 0x9F;
    assert!(!header.is_standard_payload());

    header.payload_type = 0xFF;
    assert!(!header.is_standard_payload());
}

/// Auxiliary function for creating INDTP header for tests.
fn create_test_header() -> Header {
    Header {
        preamble: Header::PREAMBLE,
        version: INDTP_VERSION,
        flags: Mode::Trusted.into(),
        device_id: 0xAB,
        payload_type: 0x03,
        sequence: 0x1234,
        payload_len: 0x0020,
        crc: 0,
    }
}

#[test]
fn header_test_compute_crc_consistency() {
    let header = create_test_header();

    let crc1 = header
        .compute_crc::<SwIntegrityEngine>()
        .expect("Failed to compute CRC 1");
    let crc2 = header
        .compute_crc::<SwIntegrityEngine>()
        .expect("Failed to compute CRC 2");

    assert_eq!(crc1, crc2);
    assert_ne!(crc1, 0);
}

#[test]
fn header_test_compute_crc_changes_with_data() {
    let header1 = create_test_header();
    let mut header2 = create_test_header();

    header2.device_id = 0xFF;

    let crc1 = header1
        .compute_crc::<SwIntegrityEngine>()
        .expect("Failed to compute CRC 1");
    let crc2 = header2
        .compute_crc::<SwIntegrityEngine>()
        .expect("Failed to compute CRC 2");

    assert_ne!(crc1, crc2);
}

#[test]
fn header_test_pack_success() {
    let header = create_test_header();
    let buffer = header.pack::<SwIntegrityEngine>().expect("Error to pack");

    assert_eq!(buffer.len(), Header::SIZE);
    assert_eq!(&buffer[0..4], &[0x49, 0x4E, 0x44, 0x54]);

    let crc_val = u16::from_le_bytes([buffer[12], buffer[13]]);
    assert_ne!(crc_val, 0);

    assert_eq!(buffer[4], INDTP_VERSION);
    assert_eq!(buffer[5], 0x02);
    assert_eq!(buffer[6], 0xAB);
    assert_eq!(buffer[7], 0x03);
    assert_eq!(&buffer[8..10], &[0x34, 0x12]);
    assert_eq!(&buffer[10..12], &[0x20, 0x00]);
}

#[test]
fn header_test_header_from_bytes() {
    let header = create_test_header();
    let buffer = header.pack::<SwIntegrityEngine>().expect("Error to pack");
    assert!(Header::validate::<SwIntegrityEngine>(&buffer).is_ok());

    let parsed = Header::from_bytes(&buffer).expect("Conversion failed");

    assert_eq!(parsed.preamble, header.preamble);
    assert_eq!(parsed.version, header.version);
    assert_eq!(parsed.flags, header.flags);
    assert_eq!(parsed.device_id, header.device_id);
    assert_eq!(parsed.sequence, header.sequence);
}

#[test]
fn header_test_pack_into_success() {
    let header = create_test_header();
    let mut buffer = [0u8; Header::SIZE];

    let res = header.pack_into::<SwIntegrityEngine>(&mut buffer);
    assert!(res.is_ok());

    let expected = header
        .pack::<SwIntegrityEngine>()
        .expect("Reference pack failed");
    assert_eq!(buffer, expected);
}

#[test]
fn header_test_pack_into_buffer_underflow() {
    let header = create_test_header();
    let mut buffer = [0u8; Header::SIZE - 1];

    let res = header.pack_into::<SwIntegrityEngine>(&mut buffer);

    assert!(res.is_err());
    assert_eq!(res.unwrap_err(), Error::BufferUnderflow);
}

#[test]
fn header_test_pack_into_partial_write_check() {
    let header = create_test_header();
    let mut buffer = [0xFFu8; Header::SIZE];

    header
        .pack_into::<SwIntegrityEngine>(&mut buffer)
        .expect("Pack failed");

    assert_ne!(buffer[0], 0xFF);
    assert_ne!(buffer[1], 0xFF);
    assert!(Header::validate::<SwIntegrityEngine>(&buffer).is_ok());
}

#[test]
fn header_test_size_method() {
    let header = Header::new();
    assert_eq!(header.size(), Header::SIZE);
}

#[test]
fn header_test_header_validation_correct_data() {
    let header = Header::new();
    let buf = header.pack::<SwIntegrityEngine>().unwrap();
    let res = Header::validate::<SwIntegrityEngine>(&buf);

    assert!(res.is_ok());
}

#[test]
fn header_test_header_validation_incorrect_data() {
    let header = Header::new();
    let mut buf = header.pack::<SwIntegrityEngine>().unwrap();
    buf[10] ^= 0x01;
    let res = Header::validate::<SwIntegrityEngine>(&buf);

    assert!(res.is_err());
}

#[test]
fn header_test_header_validation_incorrect_buffer_size() {
    let buf = [0_u8; Header::SIZE - 1];
    let res = Header::validate::<SwIntegrityEngine>(&buf);
    assert!(res.is_err());
}

#[test]
fn header_test_header_validation_incorrect_preamble() {
    let header = Header::new();
    let mut buf = header.pack::<SwIntegrityEngine>().unwrap();
    buf[0] = 0x12;

    let res = Header::validate::<SwIntegrityEngine>(&buf);
    assert!(res.is_err());
}
