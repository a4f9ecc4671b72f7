//! Decisions of a device session: what its identifier is, and what to do
//! with each temperature response.
use vstd::prelude::*;

use vstd::string::*;

use crate::codec::{
    decode_serial, decode_temperature, serial_decode_spec, temp_decode_spec, DecodeError,
    TempFrame,
};

verus! {

/// How many times a reading is requested again while the device reports
/// that it is still calculating.
pub const MAX_TEMP_RETRIES: u32 = 4;

/// What the session does after a temperature response.
#[derive(PartialEq, Eq, Structural, Clone, Copy, Debug)]
pub enum ReadStep {
    /// The reading: bit pattern of the temperature in kelvin.
    Value(u32),
    /// The read gives no value.
    NoValue,
    /// Request the reading again.
    Retry,
    /// The response cannot be interpreted safely; stop the run.
    Halt,
}

pub open spec fn read_step_spec(retries: u32, frame: Seq<u8>) -> ReadStep {
    match temp_decode_spec(frame) {
        Ok(TempFrame::Kelvin(k)) => ReadStep::Value(k),
        Ok(TempFrame::Calculating) => if retries < MAX_TEMP_RETRIES {
            ReadStep::Retry
        } else {
            ReadStep::NoValue
        },
        Err(DecodeError::Rejected) => ReadStep::NoValue,
        Err(DecodeError::Unsafe) => ReadStep::Halt,
    }
}

/// Decides what follows a temperature response, `retries` being how many
/// times the reading has already been requested again.
pub fn temperature_step(retries: u32, frame: &[u8]) -> (r: ReadStep)
    ensures
        r == read_step_spec(retries, frame@),
{
    match decode_temperature(frame) {
        Ok(TempFrame::Kelvin(k)) => ReadStep::Value(k),
        Ok(TempFrame::Calculating) => if retries < MAX_TEMP_RETRIES {
            ReadStep::Retry
        } else {
            ReadStep::NoValue
        },
        Err(DecodeError::Rejected) => ReadStep::NoValue,
        Err(DecodeError::Unsafe) => ReadStep::Halt,
    }
}

/// The identifier a device reported when its session was opened.
pub enum DeviceIdentity {
    /// A well-formed response carrying a non-empty identifier.
    Reported(String),
    /// A well-formed response with an empty identifier.
    Silent,
    /// A malformed response.
    Malformed,
}

pub open spec fn unknown_serial() -> Seq<char> {
    "unknown"@
}

pub open spec fn invalid_serial() -> Seq<char> {
    "Invalid device!"@
}

impl DeviceIdentity {
    pub open spec fn serial_spec(&self) -> Seq<char> {
        match self {
            DeviceIdentity::Reported(s) => s@,
            DeviceIdentity::Silent => unknown_serial(),
            DeviceIdentity::Malformed => invalid_serial(),
        }
    }

    /// The identity that a serial-number response establishes, or `Unsafe`
    /// where the response must not be interpreted.
    pub fn from_response(frame: &[u8]) -> (r: Result<DeviceIdentity, DecodeError>)
        ensures
            match serial_decode_spec(frame@) {
                Ok(s) => r matches Ok(id) && if s.len() == 0 {
                    id is Silent
                } else {
                    id matches DeviceIdentity::Reported(t) && t@ == s
                },
                Err(DecodeError::Rejected) => r matches Ok(id) && id is Malformed,
                Err(DecodeError::Unsafe) => r == Err::<DeviceIdentity, DecodeError>(
                    DecodeError::Unsafe,
                ),
            },
    {
        match decode_serial(frame) {
            Ok(s) => if s.as_str().unicode_len() == 0 {
                Ok(DeviceIdentity::Silent)
            } else {
                Ok(DeviceIdentity::Reported(s))
            },
            Err(DecodeError::Rejected) => Ok(DeviceIdentity::Malformed),
            Err(DecodeError::Unsafe) => Err(DecodeError::Unsafe),
        }
    }

    /// The cached identifier: `"unknown"` when the device reported none, and
    /// `"Invalid device!"` when its response was malformed. It depends on the
    /// identity alone, so successive calls return the same text.
    pub fn serial(&self) -> (r: &str)
        ensures
            r@ == self.serial_spec(),
    {
        match self {
            DeviceIdentity::Reported(s) => s.as_str(),
            DeviceIdentity::Silent => "unknown",
            DeviceIdentity::Malformed => "Invalid device!",
        }
    }

    /// Whether the device reported a usable identifier.
    pub fn is_known(&self) -> (r: bool)
        ensures
            r == (self is Reported),
    {
        match self {
            DeviceIdentity::Reported(_) => true,
            _ => false,
        }
    }
}

} // verus!
