//! The key derivation commands: the packed derivation path through the
//! blocks engine, with one instruction for silent derivation and another
//! for on-device display and confirmation.

use vstd::prelude::*;

use crate::apdu;
use crate::apdu::{APDUInstructions, CommandFrame};
use crate::blocks::{chain_all, start_data, BlocksExchange};
use crate::codec;
use crate::codec::{pack_to_vec, ByteReader, Packable, Unpackable};
use crate::errors::LedgerError;
use crate::path::DerivationPath;

verus! {

/// The byte length of a raw public key.
pub const PUBLIC_KEY_LEN: usize = 32;

/// The byte length of a derived address.
pub const ADDRESS_LEN: usize = 32;

/// The abstract contents of a `PublicKeyResult`.
pub struct PublicKeyResultV {
    pub public_key: Seq<u8>,
    pub address: Seq<u8>,
}

/// A derived public key and its address, each length-checked raw bytes; the
/// curve math behind them is a collaborator's business.
pub struct PublicKeyResult {
    pub public_key: Vec<u8>,
    pub address: Vec<u8>,
}

impl View for PublicKeyResult {
    type V = PublicKeyResultV;

    open spec fn view(&self) -> PublicKeyResultV {
        PublicKeyResultV { public_key: self.public_key@, address: self.address@ }
    }
}

impl Unpackable for PublicKeyResult {
    /// A 1-byte length that must announce exactly a key's length, the key,
    /// then the same for the address.
    open spec fn spec_unpack(data: Seq<u8>) -> Result<(PublicKeyResultV, int), codec::Error> {
        if data.len() < 1 {
            Err(codec::Error::Io)
        } else if data[0] != PUBLIC_KEY_LEN as u8 {
            Err(codec::Error::InvalidAnnouncedLen)
        } else if data.len() < 1 + PUBLIC_KEY_LEN {
            Err(codec::Error::Io)
        } else if data.len() < 2 + PUBLIC_KEY_LEN {
            Err(codec::Error::Io)
        } else if data[1 + PUBLIC_KEY_LEN] != ADDRESS_LEN as u8 {
            Err(codec::Error::InvalidAnnouncedLen)
        } else if data.len() < 2 + PUBLIC_KEY_LEN + ADDRESS_LEN {
            Err(codec::Error::Io)
        } else {
            Ok(
                (
                    PublicKeyResultV {
                        public_key: data.subrange(1, 1 + PUBLIC_KEY_LEN),
                        address: data.subrange(
                            2 + PUBLIC_KEY_LEN,
                            2 + PUBLIC_KEY_LEN + ADDRESS_LEN,
                        ),
                    },
                    2 + PUBLIC_KEY_LEN + ADDRESS_LEN,
                ),
            )
        }
    }

    fn unpack(r: &mut ByteReader) -> (res: Result<PublicKeyResult, codec::Error>)
    {
        let key_len = match r.read_byte() {
            Ok(b) => b,
            Err(e) => {
                return Err(e);
            },
        };
        if key_len as usize != PUBLIC_KEY_LEN {
            return Err(codec::Error::InvalidAnnouncedLen);
        }
        let public_key = match r.read_exact(PUBLIC_KEY_LEN) {
            Ok(v) => v,
            Err(e) => {
                return Err(e);
            },
        };
        let addr_len = match r.read_byte() {
            Ok(b) => b,
            Err(e) => {
                return Err(e);
            },
        };
        if addr_len as usize != ADDRESS_LEN {
            return Err(codec::Error::InvalidAnnouncedLen);
        }
        let address = match r.read_exact(ADDRESS_LEN) {
            Ok(v) => v,
            Err(e) => {
                return Err(e);
            },
        };
        proof {
            let data = old(r).remaining();
            assert(public_key@ =~= data.subrange(1, 1 + PUBLIC_KEY_LEN));
            assert(address@ =~= data.subrange(2 + PUBLIC_KEY_LEN, 2 + PUBLIC_KEY_LEN + ADDRESS_LEN));
        }
        Ok(PublicKeyResult { public_key, address })
    }
}

/// Start a key derivation: the packed path is the single payload, and the
/// instruction selects silent derivation or on-device display.
pub fn begin(path: &DerivationPath, show: bool) -> (r: (BlocksExchange, CommandFrame))
    ensures
        ({
            let ins = if show {
                APDUInstructions::VerifyAddress.spec_byte()
            } else {
                APDUInstructions::GetPublicKey.spec_byte()
            };
            let pviews = seq![path.spec_packed()];
            &&& r.0.ins_byte() == ins
            &&& r.0.store_view() == chain_all(
                Map::<Seq<u8>, Seq<u8>>::empty(),
                pviews,
                1,
            )
            &&& r.0.result_view() == Seq::<u8>::empty()
            &&& !r.0.is_done()
            &&& r.1.cla == apdu::APDU_CLA
            &&& r.1.ins == ins
            &&& r.1.p1 == apdu::APDU_P1
            &&& r.1.p2 == apdu::APDU_P2
            &&& r.1.data@ == start_data(pviews, 1)
        }),
{
    let packed = match pack_to_vec(path) {
        Ok(v) => v,
        Err(_) => Vec::new(),
    };
    let mut payloads: Vec<Vec<u8>> = Vec::new();
    payloads.push(packed);
    let ins = if show {
        APDUInstructions::VerifyAddress
    } else {
        APDUInstructions::GetPublicKey
    };
    let r = BlocksExchange::begin(ins.as_byte(), &payloads, None);
    proof {
        let pviews = payloads@.map_values(|p: Vec<u8>| p@);
        assert(pviews =~= seq![path.spec_packed()]);
    }
    r
}

/// Decode the concatenated result bytes of a key derivation.
pub fn finish(result: Vec<u8>) -> (r: Result<PublicKeyResult, LedgerError>)
    ensures
        match PublicKeyResult::spec_unpack(result@) {
            Ok(vu) => r matches Ok(v) && v@ == vu.0,
            Err(_) => r == Err::<PublicKeyResult, LedgerError>(LedgerError::Serialization),
        },
{
    let mut reader = ByteReader::new(result);
    match PublicKeyResult::unpack(&mut reader) {
        Ok(v) => Ok(v),
        Err(_) => Err(LedgerError::Serialization),
    }
}

} // verus!
