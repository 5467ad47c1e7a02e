//! Protocol flags and operating modes.

use vstd::prelude::*;
use vstd::std_specs::convert::{FromSpecImpl, TryFromSpecImpl};

use crate::types::Error;

verus! {

/// Protocol operating mode. Each mode dictates the integrity check algorithm
/// and the structure of the frame trailer:
///
/// - `Lite`: header protected by CRC-16 only; no trailer.
/// - `Verified`: header and payload protected by CRC-32; 4-byte trailer.
/// - `Trusted`: header and payload authenticated by CMAC-AES-128 truncated
///   to 8 bytes; 8-byte trailer.
/// - `Critical`: header and payload authenticated by HMAC-SHA256; 32-byte
///   trailer.
#[derive(Debug, PartialEq, Eq, Copy, Clone, Structural)]
pub enum Mode {
    /// Minimum latency and overhead, for trusted internal channels.
    Lite,
    /// Protection against accidental corruption in noisy environments.
    Verified,
    /// Protection against spoofing and replay on unsecured channels.
    Trusted,
    /// Maximum security for critical commands and configuration changes.
    Critical,
}

/// Wire value of a mode (the two low bits of the flags byte).
pub open spec fn mode_bits(mode: Mode) -> u8 {
    match mode {
        Mode::Lite => 0,
        Mode::Verified => 1,
        Mode::Trusted => 2,
        Mode::Critical => 3,
    }
}

/// Mode of a wire value, if it names one.
pub open spec fn mode_from_bits(value: u8) -> Option<Mode> {
    if value == 0 {
        Some(Mode::Lite)
    } else if value == 1 {
        Some(Mode::Verified)
    } else if value == 2 {
        Some(Mode::Trusted)
    } else if value == 3 {
        Some(Mode::Critical)
    } else {
        None
    }
}

/// Trailer length in bytes that a mode prescribes.
pub open spec fn mode_trailer_len(mode: Mode) -> nat {
    match mode {
        Mode::Lite => 0,
        Mode::Verified => 4,
        Mode::Trusted => 8,
        Mode::Critical => 32,
    }
}

/// Bit mask of the two mode bits.
pub const MODE_MASK_BITS: u8 = 0x03;

/// Bit of the batching flag.
pub const BATCH_BIT: u8 = 0x04;

/// Bit of the encryption flag.
pub const ENCRYPT_BIT: u8 = 0x08;

/// Bit of the priority flag.
pub const PRIORITY_BIT: u8 = 0x10;

/// All bits that have a meaning in the flags byte.
pub const ALL_BITS: u8 = 0x1f;

/// Protocol flags: the mode in the two low bits, then the batching,
/// encryption and priority flags. Only the five low bits are ever set.
#[derive(Debug, PartialEq, Eq, Clone, Copy, Structural)]
pub struct Flags {
    bits: u8,
}

impl View for Flags {
    type V = u8;

    closed spec fn view(&self) -> u8 {
        self.bits
    }
}

/// Flags byte with the bits of `bit` set or cleared.
pub open spec fn set_bit(bits: u8, bit: u8, enabled: bool) -> u8 {
    if enabled {
        bits | bit
    } else {
        bits & !bit
    }
}

/// Flags byte with its mode bits replaced by those of `mode`.
pub open spec fn with_mode_bits(bits: u8, mode: Mode) -> u8 {
    (bits & !MODE_MASK_BITS) | mode_bits(mode)
}

impl Flags {
    /// An empty set of flags (`Lite` mode, no flag set).
    pub fn new() -> (flags: Flags)
        ensures
            flags@ == 0,
    {
        Flags::empty()
    }

    /// An empty set of flags.
    pub fn empty() -> (flags: Flags)
        ensures
            flags@ == 0,
    {
        Flags { bits: 0 }
    }

    /// Raw byte of the flags.
    pub fn bits(&self) -> (bits: u8)
        ensures
            bits == self@,
    {
        self.bits
    }

    /// Flags of a byte, or `None` when the byte sets an undefined bit.
    pub fn from_bits(bits: u8) -> (flags: Option<Flags>)
        ensures
            flags is Some <==> bits < 32,
            flags matches Some(f) ==> f@ == bits,
    {
        assert(bits & !0x1fu8 == 0 <==> bits < 32) by (bit_vector);
        if bits & !ALL_BITS == 0 {
            Some(Flags { bits })
        } else {
            None
        }
    }

    /// Flags of a byte, with undefined bits dropped.
    pub fn from_bits_truncate(bits: u8) -> (flags: Flags)
        ensures
            flags@ == bits & ALL_BITS,
    {
        Flags { bits: bits & ALL_BITS }
    }

    /// Whether all bits of `other` are set in `self`.
    pub fn contains(&self, other: Flags) -> (yes: bool)
        ensures
            yes == (self@ & other@ == other@),
    {
        self.bits & other.bits == other.bits
    }

    /// Sets the bits of `other`.
    pub fn insert(&mut self, other: Flags)
        ensures
            final(self)@ == old(self)@ | other@,
    {
        self.bits = self.bits | other.bits;
    }

    /// Clears the bits of `other`.
    pub fn remove(&mut self, other: Flags)
        ensures
            final(self)@ == old(self)@ & !other@,
    {
        self.bits = self.bits & !other.bits;
    }

    /// Sets or clears the bits of `other`.
    pub fn set(&mut self, other: Flags, value: bool)
        ensures
            final(self)@ == set_bit(old(self)@, other@, value),
    {
        if value {
            self.insert(other);
        } else {
            self.remove(other);
        }
    }

    /// The flags that hold only the mode bits.
    fn mode_mask() -> (flags: Flags)
        ensures
            flags@ == MODE_MASK_BITS,
    {
        Flags { bits: MODE_MASK_BITS }
    }

    /// Flags of a byte, undefined bits kept.
    pub fn from_bits_retain(bit: u8) -> (flags: Flags)
        ensures
            flags@ == bit,
    {
        Flags { bits: bit }
    }

    /// Sets the protocol operating mode.
    pub fn with_mode(self, mode: Mode) -> (flags: Flags)
        ensures
            flags@ == with_mode_bits(self@, mode),
    {
        let mut flags = self;
        flags.remove(Flags::mode_mask());
        flags.insert(Flags::from(mode));
        flags
    }

    /// Enables or disables the batching flag.
    pub fn with_batch(self, enabled: bool) -> (flags: Flags)
        ensures
            flags@ == set_bit(self@, BATCH_BIT, enabled),
    {
        let mut flags = self;
        flags.set(Flags::from_bits_retain(BATCH_BIT), enabled);
        flags
    }

    /// Enables or disables the encryption flag.
    pub fn with_encryption(self, enabled: bool) -> (flags: Flags)
        ensures
            flags@ == set_bit(self@, ENCRYPT_BIT, enabled),
    {
        let mut flags = self;
        flags.set(Flags::from_bits_retain(ENCRYPT_BIT), enabled);
        flags
    }

    /// Enables or disables the priority flag.
    pub fn with_priority(self, enabled: bool) -> (flags: Flags)
        ensures
            flags@ == set_bit(self@, PRIORITY_BIT, enabled),
    {
        let mut flags = self;
        flags.set(Flags::from_bits_retain(PRIORITY_BIT), enabled);
        flags
    }

    /// Finalizes the build.
    pub fn build(self) -> (flags: Flags)
        ensures
            flags == self,
    {
        self
    }
}

impl From<Mode> for u8 {
    fn from(mode: Mode) -> (value: u8) {
        match mode {
            Mode::Lite => 0,
            Mode::Verified => 1,
            Mode::Trusted => 2,
            Mode::Critical => 3,
        }
    }
}

impl FromSpecImpl<Mode> for u8 {
    open spec fn obeys_from_spec() -> bool {
        true
    }

    open spec fn from_spec(mode: Mode) -> u8 {
        mode_bits(mode)
    }
}

impl TryFrom<u8> for Mode {
    type Error = Error;

    fn try_from(value: u8) -> (mode: Result<Mode, Error>) {
        match value {
            0 => Ok(Mode::Lite),
            1 => Ok(Mode::Verified),
            2 => Ok(Mode::Trusted),
            3 => Ok(Mode::Critical),
            _ => Err(Error::ParseError),
        }
    }
}

impl TryFromSpecImpl<u8> for Mode {
    open spec fn obeys_try_from_spec() -> bool {
        true
    }

    open spec fn try_from_spec(value: u8) -> Result<Mode, Error> {
        match mode_from_bits(value) {
            Some(mode) => Ok(mode),
            None => Err(Error::ParseError),
        }
    }
}

impl From<Mode> for Flags {
    fn from(mode: Mode) -> (flags: Flags) {
        match mode {
            Mode::Lite => Flags { bits: 0 },
            Mode::Verified => Flags { bits: 1 },
            Mode::Trusted => Flags { bits: 2 },
            Mode::Critical => Flags { bits: 3 },
        }
    }
}

impl FromSpecImpl<Mode> for Flags {
    open spec fn obeys_from_spec() -> bool {
        true
    }

    closed spec fn from_spec(mode: Mode) -> Flags {
        Flags { bits: mode_bits(mode) }
    }
}

impl TryFrom<Flags> for Mode {
    type Error = Error;

    fn try_from(flags: Flags) -> (mode: Result<Mode, Error>) {
        match flags.bits & MODE_MASK_BITS {
            0 => Ok(Mode::Lite),
            1 => Ok(Mode::Verified),
            2 => Ok(Mode::Trusted),
            3 => Ok(Mode::Critical),
            _ => Err(Error::ParseError),
        }
    }
}

impl TryFromSpecImpl<Flags> for Mode {
    open spec fn obeys_try_from_spec() -> bool {
        true
    }

    open spec fn try_from_spec(flags: Flags) -> Result<Mode, Error> {
        match mode_from_bits(flags@ & MODE_MASK_BITS) {
            Some(mode) => Ok(mode),
            None => Err(Error::ParseError),
        }
    }
}

/// The mode bits of any flags byte always name a mode.
pub proof fn lemma_mode_bits_total(bits: u8)
    ensures
        mode_from_bits(bits & MODE_MASK_BITS) is Some,
        mode_bits(mode_from_bits(bits & MODE_MASK_BITS)->Some_0) == bits & MODE_MASK_BITS,
{
    assert(bits & 0x03u8 <= 3) by (bit_vector);
}

} // verus!
