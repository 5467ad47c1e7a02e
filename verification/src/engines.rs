//! Integrity checking and cryptography engines.
//!
//! The frame logic is generic over two engines: one that computes the
//! checksums (CRC-16 of the header, CRC-32 of header and payload) and one that
//! computes message authentication codes and the payload cipher. Each engine
//! states its results as spec functions of its inputs, so that everything the
//! frame logic proves holds for any engine that meets these contracts. The
//! software engines below meet them by calling the `crc`, `cmac`, `hmac`,
//! `sha2`, `aes` and `ctr` crates.

use vstd::prelude::*;

use aes::Aes128;
use cmac::{Cmac, Mac};
use crc::{Crc, CRC_16_MCRF4XX, CRC_32_AUTOSAR};
use ctr::cipher::{KeyIvInit, StreamCipher};
use ctr::Ctr128BE;
use hmac::Hmac;
use sha2::Sha256;

use crate::types::{AesKey, Error, HmacKey};

verus! {

/// Integrity checking engine, in software or hardware-assisted.
pub trait IntegrityEngine {
    /// The CRC-16 that the engine computes over `data`.
    spec fn spec_crc16(data: Seq<u8>) -> u16;

    /// The CRC-32 that the engine computes over `data`.
    spec fn spec_crc32(data: Seq<u8>) -> u32;

    /// Calculates the CRC-16 of `data`.
    fn compute_crc16(data: &[u8]) -> (crc: u16)
        ensures
            crc == Self::spec_crc16(data@),
    ;

    /// Calculates the CRC-32 of `data`.
    fn compute_crc32(data: &[u8]) -> (crc: u32)
        ensures
            crc == Self::spec_crc32(data@),
    ;
}

/// Cryptography engine, in software or hardware-assisted.
pub trait CryptographyEngine {
    /// The outcome of `compute_cmac`: the 8-byte truncated CMAC-AES-128 tag,
    /// or the error the engine reports.
    spec fn spec_cmac(key: Seq<u8>, data: Seq<u8>) -> Result<Seq<u8>, Error>;

    /// The outcome of `compute_hmac`: the 32-byte HMAC-SHA256 tag, or the
    /// error the engine reports.
    spec fn spec_hmac(key: Seq<u8>, data: Seq<u8>) -> Result<Seq<u8>, Error>;

    /// The outcome of `compute_aes_ctr`: the transformed data, or the error
    /// the engine reports.
    spec fn spec_aes_ctr(key: Seq<u8>, nonce: Seq<u8>, data: Seq<u8>) -> Result<Seq<u8>, Error>;

    /// Calculates CMAC-AES-128 truncated to 8 bytes into `out`.
    fn compute_cmac(key: &AesKey, data: &[u8], out: &mut [u8; 8]) -> (res: Result<(), Error>)
        ensures
            match Self::spec_cmac(key@, data@) {
                Ok(tag) => res is Ok && final(out)@ == tag,
                Err(e) => res == Err::<(), Error>(e) && *final(out) == *old(out),
            },
    ;

    /// Calculates HMAC-SHA256 into `out`.
    fn compute_hmac(key: &HmacKey, data: &[u8], out: &mut [u8; 32]) -> (res: Result<(), Error>)
        ensures
            match Self::spec_hmac(key@, data@) {
                Ok(tag) => res is Ok && final(out)@ == tag,
                Err(e) => res == Err::<(), Error>(e) && *final(out) == *old(out),
            },
    ;

    /// Encrypts or decrypts `data` in place using AES-128 in CTR mode with
    /// the given nonce.
    fn compute_aes_ctr(key: &AesKey, nonce: &[u8], data: &mut [u8]) -> (res: Result<(), Error>)
        ensures
            match Self::spec_aes_ctr(key@, nonce@, old(data)@) {
                Ok(out) => res is Ok && final(data)@ == out,
                Err(e) => res == Err::<(), Error>(e) && final(data)@ == old(data)@,
            },
    ;
}

/// `n` bit steps of a reflected CRC-16 register with the reflected
/// polynomial 0x8408 (0x1021 bit-reversed).
pub open spec fn crc16_shift(c: u16, n: nat) -> u16
    decreases n,
{
    if n == 0 {
        c
    } else {
        crc16_shift(if c & 1 == 1 { (c >> 1u16) ^ 0x8408u16 } else { c >> 1u16 }, (n - 1) as nat)
    }
}

/// Register of the reflected CRC-16 after `data`, started at 0xFFFF.
pub open spec fn crc16_register(data: Seq<u8>) -> u16
    decreases data.len(),
{
    if data.len() == 0 {
        0xFFFFu16
    } else {
        crc16_shift(crc16_register(data.drop_last()) ^ (data.last() as u16), 8)
    }
}

/// CRC-16/MCRF4XX of `data`: polynomial 0x1021, reflected input and output,
/// initial value 0xFFFF, no final XOR.
pub open spec fn crc16_mcrf4xx(data: Seq<u8>) -> u16 {
    crc16_register(data)
}

/// `n` bit steps of a reflected CRC-32 register with the reflected
/// polynomial 0xC8DF352F (0xF4ACFB13 bit-reversed).
pub open spec fn crc32_shift(c: u32, n: nat) -> u32
    decreases n,
{
    if n == 0 {
        c
    } else {
        crc32_shift(
            if c & 1 == 1 { (c >> 1u32) ^ 0xC8DF352Fu32 } else { c >> 1u32 },
            (n - 1) as nat,
        )
    }
}

/// Register of the reflected CRC-32 after `data`, started at 0xFFFFFFFF.
pub open spec fn crc32_register(data: Seq<u8>) -> u32
    decreases data.len(),
{
    if data.len() == 0 {
        0xFFFF_FFFFu32
    } else {
        crc32_shift(crc32_register(data.drop_last()) ^ (data.last() as u32), 8)
    }
}

/// CRC-32/AUTOSAR of `data`: polynomial 0xF4ACFB13, reflected input and
/// output, initial value and final XOR 0xFFFFFFFF.
pub open spec fn crc32_autosar(data: Seq<u8>) -> u32 {
    crc32_register(data) ^ 0xFFFF_FFFFu32
}

/// The 16-byte CMAC-AES-128 tag of `data` under `key`, as the `cmac` crate
/// computes it.
pub uninterp spec fn cmac_aes128(key: Seq<u8>, data: Seq<u8>) -> Seq<u8>;

/// The 32-byte HMAC-SHA256 tag of `data` under `key`, as the `hmac` and
/// `sha2` crates compute it.
pub uninterp spec fn hmac_sha256(key: Seq<u8>, data: Seq<u8>) -> Seq<u8>;

/// `data` XORed with the AES-128-CTR keystream (128-bit big-endian counter)
/// for `key` and the 16-byte initial counter block `iv`, as the `ctr` and
/// `aes` crates compute it.
pub uninterp spec fn aes128_ctr(key: Seq<u8>, iv: Seq<u8>, data: Seq<u8>) -> Seq<u8>;

/// Calls `crc::Crc::<u16>::checksum` with the CRC-16/MCRF4XX parameters.
/// Claims that the result is that CRC of the bytes, as `crc16_mcrf4xx`
/// states it bit by bit (the crate computes it with a table).
#[verifier::external_body]
fn crc16_checksum(data: &[u8]) -> (crc: u16)
    ensures
        crc == crc16_mcrf4xx(data@),
{
    Crc::<u16>::new(&CRC_16_MCRF4XX).checksum(data)
}

/// Calls `crc::Crc::<u32>::checksum` with the CRC-32/AUTOSAR parameters.
/// Claims that the result is that CRC of the bytes, as `crc32_autosar`
/// states it bit by bit (the crate computes it with a table).
#[verifier::external_body]
fn crc32_checksum(data: &[u8]) -> (crc: u32)
    ensures
        crc == crc32_autosar(data@),
{
    Crc::<u32>::new(&CRC_32_AUTOSAR).checksum(data)
}

/// Calls `Cmac::<Aes128>::new_from_slice`, `update` and `finalize`.
/// Claims that key setup succeeds (it fails only for a key whose length is
/// not 16, and the key is a 16-byte array) and that the tag is the named
/// function of key and data.
#[verifier::external_body]
fn cmac_aes128_tag(key: &AesKey, data: &[u8]) -> (tag: Option<[u8; 16]>)
    ensures
        tag is Some,
        tag matches Some(t) ==> t@ == cmac_aes128(key@, data@),
{
    match <Cmac<Aes128> as Mac>::new_from_slice(key) {
        Ok(mut mac) => {
            mac.update(data);
            Some(mac.finalize().into_bytes().into())
        },
        Err(_) => None,
    }
}

/// Calls `Hmac::<Sha256>::new_from_slice`, `update` and `finalize`.
/// Claims that key setup succeeds (the `hmac` crate accepts keys of any
/// length) and that the tag is the named function of key and data.
#[verifier::external_body]
fn hmac_sha256_tag(key: &HmacKey, data: &[u8]) -> (tag: Option<[u8; 32]>)
    ensures
        tag is Some,
        tag matches Some(t) ==> t@ == hmac_sha256(key@, data@),
{
    match <Hmac<Sha256> as Mac>::new_from_slice(key) {
        Ok(mut mac) => {
            mac.update(data);
            Some(mac.finalize().into_bytes().into())
        },
        Err(_) => None,
    }
}

/// Calls `Ctr128BE::<Aes128>::new` with the key and the 16-byte initial
/// counter block, then `apply_keystream` on `data`. Claims that `data` is
/// replaced by the named function of key, counter block and data. The
/// counter of a fresh cipher starts at zero, so the keystream it may still
/// produce does not fit a `usize` and `apply_keystream` does not panic.
#[verifier::external_body]
fn aes128_ctr_apply(key: &AesKey, iv: &[u8; 16], data: &mut [u8])
    ensures
        final(data)@ == aes128_ctr(key@, iv@, old(data)@),
{
    let mut cipher = Ctr128BE::<Aes128>::new(key.into(), iv.into());
    cipher.apply_keystream(data);
}

/// Software implementation of the integrity checking engine: CRC-16/MCRF4XX
/// and CRC-32/AUTOSAR.
#[derive(Default)]
pub struct SwIntegrityEngine;

impl IntegrityEngine for SwIntegrityEngine {
    open spec fn spec_crc16(data: Seq<u8>) -> u16 {
        crc16_mcrf4xx(data)
    }

    open spec fn spec_crc32(data: Seq<u8>) -> u32 {
        crc32_autosar(data)
    }

    fn compute_crc16(data: &[u8]) -> (crc: u16) {
        crc16_checksum(data)
    }

    fn compute_crc32(data: &[u8]) -> (crc: u32) {
        crc32_checksum(data)
    }
}

/// Software implementation of the cryptography engine: CMAC-AES-128,
/// HMAC-SHA256 and AES-128-CTR.
#[derive(Default)]
pub struct SwCryptoEngine;

/// The nonce length that `compute_aes_ctr` accepts.
pub const AES_CTR_NONCE_LEN: usize = 12;

/// The initial counter block for a nonce: the 12 nonce bytes followed by a
/// 32-bit block counter that starts at zero.
pub open spec fn ctr_initial_block(nonce: Seq<u8>) -> Seq<u8> {
    nonce + seq![0u8, 0u8, 0u8, 0u8]
}

impl CryptographyEngine for SwCryptoEngine {
    open spec fn spec_cmac(key: Seq<u8>, data: Seq<u8>) -> Result<Seq<u8>, Error> {
        Ok(cmac_aes128(key, data).take(8))
    }

    open spec fn spec_hmac(key: Seq<u8>, data: Seq<u8>) -> Result<Seq<u8>, Error> {
        Ok(hmac_sha256(key, data))
    }

    /// A 12-byte nonce is accepted and the data transformed with the counter
    /// block that it starts; any other nonce length is a `CryptoError`.
    open spec fn spec_aes_ctr(key: Seq<u8>, nonce: Seq<u8>, data: Seq<u8>) -> Result<Seq<u8>, Error> {
        if nonce.len() == AES_CTR_NONCE_LEN {
            Ok(aes128_ctr(key, ctr_initial_block(nonce), data))
        } else {
            Err(Error::CryptoError)
        }
    }

    fn compute_cmac(key: &AesKey, data: &[u8], out: &mut [u8; 8]) -> (res: Result<(), Error>) {
        match cmac_aes128_tag(key, data) {
            Some(t) => {
                let truncated = [t[0], t[1], t[2], t[3], t[4], t[5], t[6], t[7]];
                assert(truncated@ =~= t@.take(8));
                *out = truncated;
                Ok(())
            },
            None => Err(Error::CryptoError),
        }
    }

    fn compute_hmac(key: &HmacKey, data: &[u8], out: &mut [u8; 32]) -> (res: Result<(), Error>) {
        match hmac_sha256_tag(key, data) {
            Some(t) => {
                *out = t;
                Ok(())
            },
            None => Err(Error::CryptoError),
        }
    }

    fn compute_aes_ctr(key: &AesKey, nonce: &[u8], data: &mut [u8]) -> (res: Result<(), Error>) {
        if nonce.len() != AES_CTR_NONCE_LEN {
            return Err(Error::CryptoError);
        }
        let iv = [
            nonce[0],
            nonce[1],
            nonce[2],
            nonce[3],
            nonce[4],
            nonce[5],
            nonce[6],
            nonce[7],
            nonce[8],
            nonce[9],
            nonce[10],
            nonce[11],
            0u8,
            0u8,
            0u8,
            0u8,
        ];
        assert(iv@ =~= ctr_initial_block(nonce@));
        aes128_ctr_apply(key, &iv, data);
        Ok(())
    }
}

} // verus!
