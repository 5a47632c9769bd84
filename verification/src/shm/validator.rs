//! Integrity checks of IPC payloads: size limits, CRC32 checksums and the
//! leading type tag.

use vstd::prelude::*;

use vstd::string::StringExecFns;

use crate::error::SharedMemoryError;
use crate::text::{decimal, decimal_string};
use crate::shm::codec::{crc32, crc32_hash, le_u32, u32_from_le};

verus! {

/// Largest payload that may be written: 16 MB.
pub const MAX_PAYLOAD_SIZE: usize = 16777216;

/// Checks applied to payloads before they are written and after they are read.
pub struct PayloadValidator;

/// What the header of a structured payload says.
#[derive(Debug, Clone)]
pub struct PayloadInfo {
    /// Type tag: the first four bytes, little-endian.
    pub payload_type: u32,
    /// Where the data starts.
    pub data_offset: usize,
    /// How many bytes of data follow the tag.
    pub data_length: usize,
}

impl PayloadValidator {
    /// Accept a payload for writing: non-empty and at most 16 MB.
    pub fn validate_for_write(payload: &[u8]) -> (res: Result<(), SharedMemoryError>)
        ensures
            res is Ok <==> 0 < payload@.len() <= MAX_PAYLOAD_SIZE,
            payload@.len() > MAX_PAYLOAD_SIZE ==> res == Err::<(), SharedMemoryError>(
                SharedMemoryError::PayloadTooLarge { size: payload@.len() as usize, max: MAX_PAYLOAD_SIZE },
            ),
            payload@.len() == 0 ==> (res matches Err(SharedMemoryError::InvalidBufferState { reason })
                && reason@ == "Cannot write empty payload"@),
    {
        proof {
            reveal_strlit("Cannot write empty payload");
        }
        if payload.len() > MAX_PAYLOAD_SIZE {
            return Err(SharedMemoryError::PayloadTooLarge { size: payload.len(), max: MAX_PAYLOAD_SIZE });
        }
        if payload.len() == 0 {
            return Err(
                SharedMemoryError::InvalidBufferState {
                    reason: "Cannot write empty payload".to_string(),
                },
            );
        }
        Ok(())
    }

    /// The CRC32 checksum of a payload.
    pub fn calculate_checksum(payload: &[u8]) -> (r: u32)
        ensures
            r == crc32(payload@),
    {
        crc32_hash(payload)
    }

    /// Accept a payload read back only if its checksum is `expected`.
    pub fn validate_checksum(payload: &[u8], expected: u32) -> (res: Result<(), SharedMemoryError>)
        ensures
            res is Ok <==> crc32(payload@) == expected,
            res is Err ==> res == Err::<(), SharedMemoryError>(
                SharedMemoryError::ChecksumMismatch { expected, actual: crc32(payload@) },
            ),
    {
        let actual = Self::calculate_checksum(payload);
        if actual != expected {
            return Err(SharedMemoryError::ChecksumMismatch { expected, actual });
        }
        Ok(())
    }

    /// Read the type tag of a structured payload: its first four bytes.
    pub fn validate_structure(payload: &[u8]) -> (res: Result<PayloadInfo, SharedMemoryError>)
        ensures
            res is Ok <==> payload@.len() >= 4,
            match res {
                Ok(info) => info.payload_type == le_u32(payload@[0], payload@[1], payload@[2], payload@[3])
                    && info.data_offset == 4 && info.data_length == payload@.len() - 4,
                Err(e) => e matches SharedMemoryError::InvalidBufferState { reason }
                    && reason@ == "Payload too short for header"@,
            },
    {
        proof {
            reveal_strlit("Payload too short for header");
        }
        if payload.len() < 4 {
            return Err(
                SharedMemoryError::InvalidBufferState {
                    reason: "Payload too short for header".to_string(),
                },
            );
        }
        let payload_type = u32_from_le(payload[0], payload[1], payload[2], payload[3]);
        Ok(PayloadInfo { payload_type, data_offset: 4, data_length: payload.len() - 4 })
    }
}

/// Kinds of IPC messages.
#[derive(Debug, Clone, Copy, PartialEq, Eq, Structural)]
pub enum PayloadType {
    /// Function invocation request (tag 1).
    InvokeRequest,
    /// Function invocation response (tag 2).
    InvokeResponse,
    /// Health check ping (tag 3).
    HealthPing,
    /// Health check pong (tag 4).
    HealthPong,
    /// Shutdown signal (tag 5).
    Shutdown,
}

/// The wire tag of each payload type.
pub open spec fn payload_type_tag(t: PayloadType) -> u32 {
    match t {
        PayloadType::InvokeRequest => 1,
        PayloadType::InvokeResponse => 2,
        PayloadType::HealthPing => 3,
        PayloadType::HealthPong => 4,
        PayloadType::Shutdown => 5,
    }
}

/// The payload type with a given tag, if there is one.
pub open spec fn payload_type_of_tag(v: u32) -> Option<PayloadType> {
    if v == 1 {
        Some(PayloadType::InvokeRequest)
    } else if v == 2 {
        Some(PayloadType::InvokeResponse)
    } else if v == 3 {
        Some(PayloadType::HealthPing)
    } else if v == 4 {
        Some(PayloadType::HealthPong)
    } else if v == 5 {
        Some(PayloadType::Shutdown)
    } else {
        None
    }
}

impl PayloadType {
    /// The wire tag of this payload type.
    pub fn tag(&self) -> (r: u32)
        ensures
            r == payload_type_tag(*self),
    {
        match self {
            PayloadType::InvokeRequest => 1,
            PayloadType::InvokeResponse => 2,
            PayloadType::HealthPing => 3,
            PayloadType::HealthPong => 4,
            PayloadType::Shutdown => 5,
        }
    }
}

impl TryFrom<u32> for PayloadType {
    type Error = SharedMemoryError;

    fn try_from(value: u32) -> (res: Result<PayloadType, SharedMemoryError>)
        ensures
            match res {
                Ok(t) => payload_type_of_tag(value) == Some(t),
                Err(e) => payload_type_of_tag(value) is None && (e matches SharedMemoryError::InvalidBufferState {
                    reason,
                } && reason@ == "Unknown payload type: "@ + decimal(value as nat)),
            },
    {
        match value {
            1 => Ok(PayloadType::InvokeRequest),
            2 => Ok(PayloadType::InvokeResponse),
            3 => Ok(PayloadType::HealthPing),
            4 => Ok(PayloadType::HealthPong),
            5 => Ok(PayloadType::Shutdown),
            _ => {
                let mut reason = "Unknown payload type: ".to_string();
                reason.append(decimal_string(value as u64).as_str());
                Err(SharedMemoryError::InvalidBufferState { reason })
            },
        }
    }
}

impl vstd::std_specs::convert::TryFromSpecImpl<u32> for PayloadType {
    /// The error's reason is a `String`, which a specification cannot build,
    /// so no exact result is claimed through the trait; `try_from`'s own
    /// contract states the result, reason included.
    open spec fn obeys_try_from_spec() -> bool {
        false
    }

    open spec fn try_from_spec(v: u32) -> Result<PayloadType, SharedMemoryError> {
        match payload_type_of_tag(v) {
            Some(t) => Ok(t),
            None => Err(SharedMemoryError::InvalidBufferState { reason: arbitrary() }),
        }
    }
}

/// Tags and types correspond one to one: a type's tag reads back as that
/// type, and a tag that reads as a type is that type's tag.
pub proof fn law_payload_tag_roundtrip(t: PayloadType, v: u32)
    ensures
        payload_type_of_tag(payload_type_tag(t)) == Some(t),
        payload_type_of_tag(v) == Some(t) ==> payload_type_tag(t) == v,
{
}

/// The wire tags: InvokeRequest 1, InvokeResponse 2, HealthPing 3,
/// HealthPong 4, Shutdown 5; every other value names no payload type.
pub proof fn law_payload_tags()
    ensures
        payload_type_tag(PayloadType::InvokeRequest) == 1,
        payload_type_tag(PayloadType::InvokeResponse) == 2,
        payload_type_tag(PayloadType::HealthPing) == 3,
        payload_type_tag(PayloadType::HealthPong) == 4,
        payload_type_tag(PayloadType::Shutdown) == 5,
        payload_type_of_tag(1) == Some(PayloadType::InvokeRequest),
        payload_type_of_tag(2) == Some(PayloadType::InvokeResponse),
        payload_type_of_tag(3) == Some(PayloadType::HealthPing),
        payload_type_of_tag(4) == Some(PayloadType::HealthPong),
        payload_type_of_tag(5) == Some(PayloadType::Shutdown),
        forall|v: u32| (v == 0 || v > 5) ==> #[trigger] payload_type_of_tag(v) is None,
{
}

} // verus!
