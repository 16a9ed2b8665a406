//! The error taxonomy and the mapping from raw device status codes.
//!
//! A response's 16-bit status code is mapped first through the standard
//! status-code table (the all-clear code yields no error), then through a
//! fallback table for the application's own codes: the panic code, the
//! device-locked code, and a contiguous syscall range keyed by offset.

use vstd::prelude::*;

verus! {

/// Sub-errors for status codes inside the syscall range, keyed by the code's
/// offset from the range's base.
#[derive(Clone, Copy, Debug, PartialEq, Eq, Structural)]
pub enum SyscallError {
    InvalidParameter,
    Overflow,
    Security,
    InvalidCrc,
    InvalidChecksum,
    InvalidCounter,
    NotSupported,
    InvalidState,
    Timeout,
    Unspecified,
}

/// Everything that can go wrong while talking to the device.
#[derive(Clone, Copy, Debug, PartialEq, Eq, Structural)]
pub enum LedgerError {
    /// A status code outside every table.
    Unknown,
    /// The device's application panicked.
    DevicePanic,
    /// No device could be found on the host.
    DeviceNotFound,
    /// The device is locked and refuses to answer.
    DeviceLocked,
    /// A status code inside the syscall range.
    Syscall(SyscallError),
    /// A standard status code other than the all-clear code; the raw code is
    /// kept.
    APDUError(u16),
    /// The blocks protocol was violated by the device.
    BlocksProtocolFailed,
    /// The underlying channel failed.
    TransportError,
    /// A response body (or a request payload) could not be (de)serialized.
    Serialization,
    /// A timeout, such as failing to acquire the device lock.
    Timeout,
}

/// The all-clear status code.
pub const STATUS_OK: u16 = 0x9000;

/// The codes of the standard status-code table.
pub open spec fn is_standard_status(rc: u16) -> bool {
    ||| rc == 0x9000
    ||| rc == 0x6400
    ||| rc == 0x6700
    ||| rc == 0x6982
    ||| rc == 0x6983
    ||| rc == 0x6984
    ||| rc == 0x6985
    ||| rc == 0x6986
    ||| rc == 0x6A80
    ||| rc == 0x6B00
    ||| rc == 0x6D00
    ||| rc == 0x6E00
    ||| rc == 0x6F00
    ||| rc == 0x6F01
}

/// The syscall sub-error named by an offset into the syscall range.
pub open spec fn spec_syscall_error(offset: u16) -> SyscallError {
    if offset == 2 {
        SyscallError::InvalidParameter
    } else if offset == 3 {
        SyscallError::Overflow
    } else if offset == 4 {
        SyscallError::Security
    } else if offset == 5 {
        SyscallError::InvalidCrc
    } else if offset == 6 {
        SyscallError::InvalidChecksum
    } else if offset == 7 {
        SyscallError::InvalidCounter
    } else if offset == 8 {
        SyscallError::NotSupported
    } else if offset == 9 {
        SyscallError::InvalidState
    } else if offset == 10 {
        SyscallError::Timeout
    } else {
        SyscallError::Unspecified
    }
}

/// The typed error a raw status code maps to: none for the all-clear code,
/// the raw code for every other standard code, then the fallback table.
pub open spec fn spec_status_error(rc: u16) -> Option<LedgerError> {
    if rc == STATUS_OK {
        None
    } else if is_standard_status(rc) {
        Some(LedgerError::APDUError(rc))
    } else if rc == 0xe000 {
        Some(LedgerError::DevicePanic)
    } else if rc == 0x5515 {
        Some(LedgerError::DeviceLocked)
    } else if 0x6800 <= rc && rc <= 0x680b {
        Some(LedgerError::Syscall(spec_syscall_error((rc - 0x6800) as u16)))
    } else {
        Some(LedgerError::Unknown)
    }
}

/// Relies on ledger_transport's `APDUErrorCode::try_from<u16>`: it succeeds
/// exactly on the codes of the standard status-code table.
#[verifier::external_body]
fn standard_status_recognized(rc: u16) -> (r: bool)
    ensures
        r == is_standard_status(rc),
{
    ledger_transport::APDUErrorCode::try_from(rc).is_ok()
}

impl LedgerError {
    /// Map a raw status code to its typed error; the all-clear code yields
    /// no error.
    pub fn get_error(rc: u16) -> (r: Option<LedgerError>)
        ensures
            r == spec_status_error(rc),
    {
        if rc == STATUS_OK {
            return None;
        }
        if standard_status_recognized(rc) {
            return Some(LedgerError::APDUError(rc));
        }
        let e = if rc == 0xe000 {
            LedgerError::DevicePanic
        } else if rc == 0x5515 {
            LedgerError::DeviceLocked
        } else if 0x6800 <= rc && rc <= 0x680b {
            let offset = rc - 0x6800;
            let syscall_error = if offset == 2 {
                SyscallError::InvalidParameter
            } else if offset == 3 {
                SyscallError::Overflow
            } else if offset == 4 {
                SyscallError::Security
            } else if offset == 5 {
                SyscallError::InvalidCrc
            } else if offset == 6 {
                SyscallError::InvalidChecksum
            } else if offset == 7 {
                SyscallError::InvalidCounter
            } else if offset == 8 {
                SyscallError::NotSupported
            } else if offset == 9 {
                SyscallError::InvalidState
            } else if offset == 10 {
                SyscallError::Timeout
            } else {
                SyscallError::Unspecified
            };
            LedgerError::Syscall(syscall_error)
        } else {
            LedgerError::Unknown
        };
        Some(e)
    }
}

} // verus!
