//! Payload type identifiers.

use vstd::prelude::*;
use vstd::std_specs::convert::FromSpecImpl;

verus! {

/// Standard payload type range.
pub const STANDARD_PAYLOAD_RANGE: core::ops::Range<u8> = 0x00..0x80;

/// Vendor-specific payload type identifiers, which run from `0x80` up to and
/// including `0xFF`. A half-open range of bytes cannot hold `0xFF`, so the
/// vendor check goes by the range's start alone.
pub const VENDOR_PAYLOAD_RANGE: core::ops::Range<u8> = 0x80..0xFF;

/// Whether a payload type identifier lies in the standard range `0x00..0x80`.
pub open spec fn is_standard_type(t: u8) -> bool {
    STANDARD_PAYLOAD_RANGE.start <= t && t < STANDARD_PAYLOAD_RANGE.end
}

/// Whether a payload type identifier is vendor-specific (`0x80` to `0xFF`).
pub open spec fn is_vendor_type(t: u8) -> bool {
    VENDOR_PAYLOAD_RANGE.start <= t
}

/// Standard payload types.
#[derive(Debug, Copy, Clone, PartialEq, Eq, Structural)]
pub enum PayloadType {
    /// Accelerometer only (for 3-axis sensor).
    Imu3Acc,
    /// Gyroscope only (for 3-axis sensor).
    Imu3Gyr,
    /// Magnetometer only (for 3-axis sensor).
    Imu3Mag,
    /// Accelerometer + Gyroscope readings (for 6-axis sensor).
    Imu6,
    /// Accelerometer + Gyroscope + Magnetometer readings (for 9-axis sensor).
    Imu9,
    /// Accelerometer + Gyroscope + Magnetometer + Barometer readings
    /// (for 10-axis sensor).
    Imu10,
    /// Attitude as a normalized Hamiltonian quaternion (w, x, y, z).
    ImuQuat,
    /// Other types, identified by their byte.
    Reserved(u8),
}

/// Identifier byte of a payload type.
pub open spec fn payload_type_byte(t: PayloadType) -> u8 {
    match t {
        PayloadType::Imu3Acc => 0x00,
        PayloadType::Imu3Gyr => 0x01,
        PayloadType::Imu3Mag => 0x02,
        PayloadType::Imu6 => 0x03,
        PayloadType::Imu9 => 0x04,
        PayloadType::Imu10 => 0x05,
        PayloadType::ImuQuat => 0x06,
        PayloadType::Reserved(value) => value,
    }
}

/// Payload type named by an identifier byte.
pub open spec fn payload_type_of(value: u8) -> PayloadType {
    if value == 0x00 {
        PayloadType::Imu3Acc
    } else if value == 0x01 {
        PayloadType::Imu3Gyr
    } else if value == 0x02 {
        PayloadType::Imu3Mag
    } else if value == 0x03 {
        PayloadType::Imu6
    } else if value == 0x04 {
        PayloadType::Imu9
    } else if value == 0x05 {
        PayloadType::Imu10
    } else if value == 0x06 {
        PayloadType::ImuQuat
    } else {
        PayloadType::Reserved(value)
    }
}

impl PayloadType {
    /// Whether the payload type is standard (identifier in `0x00..0x80`).
    pub fn is_standard(&self) -> (yes: bool)
        ensures
            yes == is_standard_type(payload_type_byte(*self)),
    {
        let t = self.as_u8();
        STANDARD_PAYLOAD_RANGE.contains(&t)
    }

    /// Whether the payload type is vendor-specific (identifier in
    /// `0x80..0xFF`).
    pub fn is_vendor(&self) -> (yes: bool)
        ensures
            yes == is_vendor_type(payload_type_byte(*self)),
    {
        let t = self.as_u8();
        VENDOR_PAYLOAD_RANGE.start <= t
    }

    /// Identifier byte of the payload type.
    pub fn as_u8(self) -> (value: u8)
        ensures
            value == payload_type_byte(self),
    {
        match self {
            PayloadType::Imu3Acc => 0x00,
            PayloadType::Imu3Gyr => 0x01,
            PayloadType::Imu3Mag => 0x02,
            PayloadType::Imu6 => 0x03,
            PayloadType::Imu9 => 0x04,
            PayloadType::Imu10 => 0x05,
            PayloadType::ImuQuat => 0x06,
            PayloadType::Reserved(value) => value,
        }
    }
}

impl From<PayloadType> for u8 {
    fn from(payload_type: PayloadType) -> (value: u8) {
        payload_type.as_u8()
    }
}

impl FromSpecImpl<PayloadType> for u8 {
    open spec fn obeys_from_spec() -> bool {
        true
    }

    open spec fn from_spec(payload_type: PayloadType) -> u8 {
        payload_type_byte(payload_type)
    }
}

impl From<u8> for PayloadType {
    fn from(value: u8) -> (payload_type: PayloadType) {
        match value {
            0x00 => PayloadType::Imu3Acc,
            0x01 => PayloadType::Imu3Gyr,
            0x02 => PayloadType::Imu3Mag,
            0x03 => PayloadType::Imu6,
            0x04 => PayloadType::Imu9,
            0x05 => PayloadType::Imu10,
            0x06 => PayloadType::ImuQuat,
            _ => PayloadType::Reserved(value),
        }
    }
}

impl FromSpecImpl<u8> for PayloadType {
    open spec fn obeys_from_spec() -> bool {
        true
    }

    open spec fn from_spec(value: u8) -> PayloadType {
        payload_type_of(value)
    }
}

/// Converting an identifier byte to a payload type and back gives the byte.
pub proof fn lemma_byte_roundtrip(value: u8)
    ensures
        payload_type_byte(payload_type_of(value)) == value,
{
}

/// A payload type other than `Reserved` survives the conversion to its byte
/// and back; a `Reserved` one does when its byte names no standard type.
pub proof fn lemma_type_roundtrip(t: PayloadType)
    requires
        t matches PayloadType::Reserved(v) ==> v > 0x06,
    ensures
        payload_type_of(payload_type_byte(t)) == t,
{
}

/// Every payload type identifier is either standard (below 128) or
/// vendor-specific (128 and above), and none is both.
pub proof fn lemma_standard_vendor_disjoint(t: u8)
    ensures
        !(is_standard_type(t) && is_vendor_type(t)),
        is_standard_type(t) <==> t < 128,
        is_vendor_type(t) <==> t >= 128,
        is_standard_type(t) || is_vendor_type(t),
{
}

} // verus!
