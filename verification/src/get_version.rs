//! The version query: an empty payload through the blocks engine; the
//! result is three version bytes followed by an ignored app-name tail.

use vstd::prelude::*;

use crate::apdu;
use crate::apdu::{APDUInstructions, CommandFrame};
use crate::blocks;
use crate::blocks::{start_data, BlocksExchange};
use crate::codec;
use crate::codec::{ByteReader, Unpackable};
use crate::errors::LedgerError;

verus! {

/// The application's semantic version, as the device reports it.
#[derive(Clone, Copy, Debug, PartialEq, Eq, Structural)]
pub struct Version {
    pub major: u8,
    pub minor: u8,
    pub patch: u8,
}

impl View for Version {
    type V = Version;

    open spec fn view(&self) -> Version {
        *self
    }
}

impl Unpackable for Version {
    /// Three version bytes; everything after them (the app-name tail) is
    /// consumed and discarded.
    open spec fn spec_unpack(data: Seq<u8>) -> Result<(Version, int), codec::Error> {
        if data.len() >= 3 {
            Ok((Version { major: data[0], minor: data[1], patch: data[2] }, data.len() as int))
        } else {
            Err(codec::Error::Io)
        }
    }

    fn unpack(r: &mut ByteReader) -> (res: Result<Version, codec::Error>)
    {
        let major = match r.read_byte() {
            Ok(b) => b,
            Err(e) => {
                return Err(e);
            },
        };
        let minor = match r.read_byte() {
            Ok(b) => b,
            Err(e) => {
                return Err(e);
            },
        };
        let patch = match r.read_byte() {
            Ok(b) => b,
            Err(e) => {
                return Err(e);
            },
        };
        let _tail = r.read_to_end();
        Ok(Version { major, minor, patch })
    }
}

/// Start the version query. The single payload is empty, so the store stays
/// empty and the initial frame carries the start marker and one zero root
/// digest.
pub fn begin() -> (r: (BlocksExchange, CommandFrame))
    ensures
        r.0.ins_byte() == APDUInstructions::GetVersion.spec_byte(),
        r.0.store_view() == Map::<Seq<u8>, Seq<u8>>::empty(),
        r.0.result_view() == Seq::<u8>::empty(),
        !r.0.is_done(),
        r.1.cla == apdu::APDU_CLA,
        r.1.ins == APDUInstructions::GetVersion.spec_byte(),
        r.1.p1 == apdu::APDU_P1,
        r.1.p2 == apdu::APDU_P2,
        r.1.data@ == seq![blocks::HostToLedger::Start.spec_byte()] + blocks::zero_digest(),
{
    let mut payloads: Vec<Vec<u8>> = Vec::new();
    payloads.push(Vec::new());
    let r = BlocksExchange::begin(APDUInstructions::GetVersion.as_byte(), &payloads, None);
    proof {
        let pviews = payloads@.map_values(|p: Vec<u8>| p@);
        assert(pviews.len() == 1 && pviews[0] == Seq::<u8>::empty());
        let chunks = blocks::spec_chunks(Seq::<u8>::empty());
        assert(chunks.len() == 0);
        assert(blocks::chain_all(Map::<Seq<u8>, Seq<u8>>::empty(), pviews, 0)
            == Map::<Seq<u8>, Seq<u8>>::empty());
        assert(blocks::chain_all(Map::<Seq<u8>, Seq<u8>>::empty(), pviews, 1)
            == blocks::chain_store(Map::<Seq<u8>, Seq<u8>>::empty(), chunks, 0));
        assert(blocks::chain_digest(chunks, 0) == blocks::zero_digest());
        assert(start_data(pviews, 1) == start_data(pviews, 0) + blocks::chain_digest(chunks, 0));
    }
    r
}

/// Decode the concatenated result bytes of the version query.
pub fn finish(result: Vec<u8>) -> (r: Result<Version, LedgerError>)
    ensures
        result@.len() >= 3 ==> (r matches Ok(v) && v.major == result@[0] && v.minor == result@[1]
            && v.patch == result@[2]),
        result@.len() < 3 ==> r == Err::<Version, LedgerError>(LedgerError::Serialization),
{
    let mut reader = ByteReader::new(result);
    match Version::unpack(&mut reader) {
        Ok(v) => Ok(v),
        Err(_) => Err(LedgerError::Serialization),
    }
}

} // verus!
