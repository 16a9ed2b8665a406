use iota_ledger::errors::{LedgerError, SyscallError};

#[test]
fn all_clear_code_yields_no_error() {
    assert_eq!(LedgerError::get_error(0x9000), None);
}

#[test]
fn panic_code_yields_device_panic() {
    assert_eq!(LedgerError::get_error(0xe000), Some(LedgerError::DevicePanic));
}

#[test]
fn locked_code_yields_device_locked() {
    assert_eq!(LedgerError::get_error(0x5515), Some(LedgerError::DeviceLocked));
}

#[test]
fn syscall_range_yields_offset_keyed_sub_error() {
    assert_eq!(
        LedgerError::get_error(0x6804),
        Some(LedgerError::Syscall(SyscallError::Security))
    );
    assert_eq!(
        LedgerError::get_error(0x6802),
        Some(LedgerError::Syscall(SyscallError::InvalidParameter))
    );
    assert_eq!(
        LedgerError::get_error(0x680a),
        Some(LedgerError::Syscall(SyscallError::Timeout))
    );
    // offsets outside the named ones fall back to "unspecified"
    assert_eq!(
        LedgerError::get_error(0x6800),
        Some(LedgerError::Syscall(SyscallError::Unspecified))
    );
    assert_eq!(
        LedgerError::get_error(0x680b),
        Some(LedgerError::Syscall(SyscallError::Unspecified))
    );
}

#[test]
fn standard_codes_map_to_typed_apdu_errors() {
    assert_eq!(LedgerError::get_error(0x6700), Some(LedgerError::APDUError(0x6700)));
    assert_eq!(LedgerError::get_error(0x6985), Some(LedgerError::APDUError(0x6985)));
    assert_eq!(LedgerError::get_error(0x6e00), Some(LedgerError::APDUError(0x6e00)));
    // the table in the transport crate agrees
    assert!(ledger_transport::APDUErrorCode::try_from(0x6700u16).is_ok());
    assert!(ledger_transport::APDUErrorCode::try_from(0x1234u16).is_err());
}

#[test]
fn unmapped_code_yields_unknown() {
    assert_eq!(LedgerError::get_error(0x1234), Some(LedgerError::Unknown));
    assert_eq!(LedgerError::get_error(0x0000), Some(LedgerError::Unknown));
    // one past the syscall range
    assert_eq!(LedgerError::get_error(0x680c), Some(LedgerError::Unknown));
}
