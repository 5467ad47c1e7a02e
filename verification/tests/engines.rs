use ctr::cipher::{KeyIvInit, StreamCipher};
use cmac::{Cmac, Mac};
use hmac::Hmac;
use indtp::{
    CryptoKeys, CryptographyEngine, Error, Flags, Frame, IntegrityEngine, Mode, SwCryptoEngine,
    SwIntegrityEngine, HEADER_SIZE,
};

#[test]
fn crc16_check_value() {
    // CRC-16/MCRF4XX check value of "123456789".
    assert_eq!(SwIntegrityEngine::compute_crc16(b"123456789"), 0x6F91);
}

#[test]
fn crc32_check_value() {
    // CRC-32/AUTOSAR check value of "123456789".
    assert_eq!(SwIntegrityEngine::compute_crc32(b"123456789"), 0x1697D06A);
}

#[test]
fn cmac_is_truncated_tag() {
    let key = [0x42u8; 16];
    let data = b"inertial navigation";
    let mut out = [0u8; 8];
    SwCryptoEngine::compute_cmac(&key, data, &mut out).unwrap();
    let mut mac = <Cmac<aes::Aes128> as Mac>::new_from_slice(&key).unwrap();
    mac.update(data);
    let full = mac.finalize().into_bytes();
    assert_eq!(&out[..], &full[0..8]);
}

#[test]
fn hmac_is_full_tag() {
    let key = [0x55u8; 32];
    let data = b"inertial navigation";
    let mut out = [0u8; 32];
    SwCryptoEngine::compute_hmac(&key, data, &mut out).unwrap();
    let mut mac = <Hmac<sha2::Sha256> as Mac>::new_from_slice(&key).unwrap();
    mac.update(data);
    let full = mac.finalize().into_bytes();
    assert_eq!(&out[..], &full[..]);
    assert_ne!(&out[..], &data[..]);
}

#[test]
fn aes_ctr_with_twelve_byte_nonce() {
    let key = [0x42u8; 16];
    let nonce = [7u8; 12];
    let plain = [1u8, 2, 3, 4, 5, 6, 7, 8, 9, 10, 11, 12, 13, 14, 15, 16, 17, 18];
    let mut data = plain;
    SwCryptoEngine::compute_aes_ctr(&key, &nonce, &mut data).unwrap();
    assert_ne!(data, plain);
    let mut iv = [0u8; 16];
    iv[..12].copy_from_slice(&nonce);
    let mut expected = plain;
    let mut cipher = ctr::Ctr128BE::<aes::Aes128>::new(&key.into(), &iv.into());
    cipher.apply_keystream(&mut expected);
    assert_eq!(data, expected);
    SwCryptoEngine::compute_aes_ctr(&key, &nonce, &mut data).unwrap();
    assert_eq!(data, plain);
}

#[test]
fn aes_ctr_rejects_other_nonce_lengths() {
    let key = [0x42u8; 16];
    let mut data = [1u8, 2, 3, 4];
    assert_eq!(
        SwCryptoEngine::compute_aes_ctr(&key, &[0u8; 16], &mut data),
        Err(Error::CryptoError)
    );
    assert_eq!(
        SwCryptoEngine::compute_aes_ctr(&key, &[0u8; 11], &mut data),
        Err(Error::CryptoError)
    );
    assert_eq!(data, [1, 2, 3, 4]);
}

#[test]
fn verified_trailer_is_crc32_of_header_and_payload() {
    let mut frame = Frame::new_verified(&mut vec![0u8; 64], 0x01, 0x02, 3).unwrap();
    frame.set_payload_raw(&[9, 8, 7], 0x02).unwrap();
    let size = frame
        .pack::<SwIntegrityEngine, SwCryptoEngine>(None)
        .unwrap();
    assert_eq!(size, HEADER_SIZE + 3 + 4);
    let auth = frame.authenticated_data().unwrap().to_vec();
    let crc = SwIntegrityEngine::compute_crc32(&auth);
    assert_eq!(frame.trailer().unwrap(), &crc.to_le_bytes());
}

#[test]
fn trusted_pack_needs_keys() {
    let flags = Flags::new().with_mode(Mode::Trusted).build();
    let mut frame = Frame::new(&mut vec![0u8; 64], 0x01, 0x02, 3, flags).unwrap();
    assert_eq!(
        frame.pack::<SwIntegrityEngine, SwCryptoEngine>(None),
        Err(Error::MissingKeys)
    );
    let keys = CryptoKeys::new([1; 16], [2; 32]);
    assert_eq!(
        frame.pack::<SwIntegrityEngine, SwCryptoEngine>(Some(&keys)),
        Ok(HEADER_SIZE + 3 + 8)
    );
}
