//! Host-side protocol engine for a hardware signing device.
//!
//! The library verifies the logic that prepares, frames, and decodes the
//! traffic between a blockchain client and a ledger device: a binary codec,
//! an APDU status mapper, a chunked hash-verified transfer protocol, and the
//! typed command set built on top of them. Channel I/O itself stays outside.

use vstd::prelude::*;

pub mod codec;
pub mod errors;
pub mod apdu;
pub mod store;
pub mod blocks;
pub mod path;
pub mod get_version;
pub mod get_public_key;
pub mod sign_transaction;
pub mod bolos_app_get_name;
pub mod bolos_app_open;
pub mod bolos_app_exit;
pub mod signer;

verus! {

/// The kinds of channel a transport can open: the loopback TCP simulator,
/// or a native device discovered through the host's HID layer. Opening the
/// channel, and the process-wide lock around it, live outside the library.
#[derive(Clone, Copy, Debug, PartialEq, Eq, Structural)]
pub enum TransportTypes {
    TCP,
    NativeHID,
}

} // verus!
