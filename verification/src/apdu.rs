//! Command frames and the instruction set.
//!
//! A command frame is `{class, instruction, p1, p2, data}`; a response is a
//! status code and a body. Building frames is pure; exchanging them with a
//! device happens outside the library.

use vstd::prelude::*;

use crate::codec::{ByteReader, Unpackable};
use crate::errors::{spec_status_error, LedgerError};

verus! {

/// A hardened derivation index has this bit set.
pub const HARDENED: u32 = 0x80000000;

/// The class byte of the application's own commands.
pub const APDU_CLA: u8 = 0x00;

/// The p1 byte of the application's own commands.
pub const APDU_P1: u8 = 0x00;

/// The p2 byte of the application's own commands.
pub const APDU_P2: u8 = 0x00;

/// The class byte of dashboard commands answered by the device's own OS.
pub const APDU_BOLOS_CLA_B0: u8 = 0xb0;

/// The class byte of the dashboard's open-app command.
pub const APDU_BOLOS_CLA_E0: u8 = 0xe0;

/// The instructions of the signing application.
#[derive(Clone, Copy, Debug, PartialEq, Eq, Structural)]
pub enum APDUInstructions {
    GetVersion,
    VerifyAddress,
    GetPublicKey,
    SignTransaction,
    GetAppConfig,
    SetAccount,
    Exit,
}

impl APDUInstructions {
    /// The instruction's wire byte.
    pub open spec fn spec_byte(self) -> u8 {
        match self {
            APDUInstructions::GetVersion => 0x00,
            APDUInstructions::VerifyAddress => 0x01,
            APDUInstructions::GetPublicKey => 0x02,
            APDUInstructions::SignTransaction => 0x03,
            APDUInstructions::GetAppConfig => 0x10,
            APDUInstructions::SetAccount => 0x11,
            APDUInstructions::Exit => 0xff,
        }
    }

    pub fn as_byte(self) -> (b: u8)
        ensures
            b == self.spec_byte(),
    {
        match self {
            APDUInstructions::GetVersion => 0x00,
            APDUInstructions::VerifyAddress => 0x01,
            APDUInstructions::GetPublicKey => 0x02,
            APDUInstructions::SignTransaction => 0x03,
            APDUInstructions::GetAppConfig => 0x10,
            APDUInstructions::SetAccount => 0x11,
            APDUInstructions::Exit => 0xff,
        }
    }
}

/// The instructions answered by the device's own OS.
#[derive(Clone, Copy, Debug, PartialEq, Eq, Structural)]
pub enum APDUInstructionsBolos {
    GetAppVersionB0,
    AppExitB0,
    OpenAppE0,
}

impl APDUInstructionsBolos {
    /// The instruction's wire byte.
    pub open spec fn spec_byte(self) -> u8 {
        match self {
            APDUInstructionsBolos::GetAppVersionB0 => 0x01,
            APDUInstructionsBolos::AppExitB0 => 0xa7,
            APDUInstructionsBolos::OpenAppE0 => 0xd8,
        }
    }

    pub fn as_byte(self) -> (b: u8)
        ensures
            b == self.spec_byte(),
    {
        match self {
            APDUInstructionsBolos::GetAppVersionB0 => 0x01,
            APDUInstructionsBolos::AppExitB0 => 0xa7,
            APDUInstructionsBolos::OpenAppE0 => 0xd8,
        }
    }
}

/// One command frame, sent to the device in a single physical exchange.
pub struct CommandFrame {
    pub cla: u8,
    pub ins: u8,
    pub p1: u8,
    pub p2: u8,
    pub data: Vec<u8>,
}

impl CommandFrame {
    /// A frame of the application's command set, with the fixed class and
    /// parameter bytes.
    pub fn app_frame(ins: u8, data: Vec<u8>) -> (r: CommandFrame)
        ensures
            r.cla == APDU_CLA,
            r.ins == ins,
            r.p1 == APDU_P1,
            r.p2 == APDU_P2,
            r.data@ == data@,
    {
        CommandFrame { cla: APDU_CLA, ins, p1: APDU_P1, p2: APDU_P2, data }
    }
}


/// Decode one raw response: the status code is mapped first (the all-clear
/// code yields no error and triggers decode of the body); a body that does
/// not decode is a serialization failure.
pub fn decode_response<T: Unpackable>(status: u16, data: Vec<u8>) -> (r: Result<T, LedgerError>)
    ensures
        match spec_status_error(status) {
            Some(e) => r == Err::<T, LedgerError>(e),
            None => match T::spec_unpack(data@) {
                Ok(vu) => r matches Ok(v) && v@ == vu.0,
                Err(_) => r == Err::<T, LedgerError>(LedgerError::Serialization),
            },
        },
{
    if let Some(e) = LedgerError::get_error(status) {
        return Err(e);
    }
    let mut reader = ByteReader::new(data);
    match T::unpack(&mut reader) {
        Ok(v) => Ok(v),
        Err(_) => Err(LedgerError::Serialization),
    }
}

} // verus!
