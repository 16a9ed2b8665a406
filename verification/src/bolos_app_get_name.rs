//! Querying the name of the running app from the device's own OS.
//!
//! The answer is a format byte, the app name and its version as
//! length-prefixed strings, then a device-dependent tail that is ignored.
//! When the dashboard is open, the reported name is the OS's own.

use vstd::prelude::*;

use crate::apdu;
use crate::apdu::{APDUInstructionsBolos, CommandFrame};
use crate::codec;
use crate::codec::{ByteReader, Unpackable};

verus! {

/// The name of the signing application, as the device reports it.
pub open spec fn spec_app_name() -> Seq<char> {
    "IOTA"@
}

/// The abstract contents of a `Response`.
pub struct ResponseV {
    pub app: Seq<char>,
    pub version: Seq<char>,
}

/// The running app's name and version.
pub struct Response {
    pub app: String,
    pub version: String,
}

impl View for Response {
    type V = ResponseV;

    open spec fn view(&self) -> ResponseV {
        ResponseV { app: self.app@, version: self.version@ }
    }
}

impl Unpackable for Response {
    /// A format byte (not insisted on), the two strings, and an ignored
    /// tail.
    open spec fn spec_unpack(data: Seq<u8>) -> Result<(ResponseV, int), codec::Error> {
        if data.len() < 1 {
            Err(codec::Error::Io)
        } else {
            match String::spec_unpack(data.skip(1)) {
                Err(e) => Err(e),
                Ok(app) => match String::spec_unpack(data.skip(1 + app.1)) {
                    Err(e) => Err(e),
                    Ok(version) => Ok(
                        (ResponseV { app: app.0, version: version.0 }, data.len() as int),
                    ),
                },
            }
        }
    }

    fn unpack(r: &mut ByteReader) -> (res: Result<Response, codec::Error>)
    {
        let _format_id = match r.read_byte() {
            Ok(b) => b,
            Err(e) => {
                return Err(e);
            },
        };
        proof {
            assert(r.remaining() =~= old(r).remaining().skip(1));
        }
        let ghost mid = r.pos;
        let app = match String::unpack(r) {
            Ok(s) => s,
            Err(e) => {
                return Err(e);
            },
        };
        proof {
            assert(r.remaining() =~= old(r).remaining().skip(
                1 + (r.pos - mid),
            ));
        }
        let version = match String::unpack(r) {
            Ok(s) => s,
            Err(e) => {
                return Err(e);
            },
        };
        let _tail = r.read_to_end();
        Ok(Response { app, version })
    }
}

/// The frame that asks the device's OS for the running app's name.
pub fn frame() -> (r: CommandFrame)
    ensures
        r.cla == apdu::APDU_BOLOS_CLA_B0,
        r.ins == APDUInstructionsBolos::GetAppVersionB0.spec_byte(),
        r.p1 == 0,
        r.p2 == 0,
        r.data@ == Seq::<u8>::empty(),
{
    CommandFrame {
        cla: apdu::APDU_BOLOS_CLA_B0,
        ins: APDUInstructionsBolos::GetAppVersionB0.as_byte(),
        p1: 0,
        p2: 0,
        data: Vec::new(),
    }
}

/// True exactly when the reported app is the signing application.
pub fn is_signing_app(resp: &Response) -> (b: bool)
    ensures
        b == (resp.app@ == spec_app_name()),
{
    let target = "IOTA".to_owned();
    let b = resp.app == target;
    b
}

} // verus!
