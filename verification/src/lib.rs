//! Inertial Navigation Data Transfer Protocol (INDTP): a lightweight binary
//! application-layer protocol for inertial navigation systems and autonomous
//! platforms. A frame has a fixed-size header, a payload that may aggregate
//! several timestamped samples, and a trailer whose content the operating
//! mode dictates (none, CRC-32, truncated CMAC-AES-128 or HMAC-SHA256).

pub mod batch;
pub mod codec;
pub mod engines;
pub mod flags;
pub mod frame;
pub mod header;
pub mod payload;
pub mod types;
pub mod utils;

pub use batch::{Batch, BatchIterator};
pub use engines::{CryptographyEngine, IntegrityEngine, SwCryptoEngine, SwIntegrityEngine};
pub use flags::{Flags, Mode};
pub use frame::{Frame, MAX_TRAILER_SIZE, MTU_SIZE, PAYLOAD_MAX_SIZE};
pub use header::{Header, HEADER_SIZE, INDTP_VERSION};
pub use payload::{PayloadType, STANDARD_PAYLOAD_RANGE, VENDOR_PAYLOAD_RANGE};
pub use types::{AesKey, CryptoKeys, Error, HmacKey};
pub use utils::is_sequence_correct;
