//! Asking the device's OS to open an app by name. Only works while the
//! dashboard is open.

use vstd::prelude::*;
use vstd::utf8::encode_utf8;

use crate::apdu;
use crate::apdu::{APDUInstructionsBolos, CommandFrame};
use crate::codec;
use crate::codec::{pack_to_vec, Packable};
use crate::blocks::subvec;

verus! {

/// The open-app request: just the app's name.
pub struct Request {
    pub app: String,
}

impl View for Request {
    type V = Seq<char>;

    open spec fn view(&self) -> Seq<char> {
        self.app@
    }
}

impl Packable for Request {
    open spec fn spec_pack_ok(&self) -> bool {
        self.app.spec_pack_ok()
    }

    open spec fn spec_packed(&self) -> Seq<u8> {
        self.app.spec_packed()
    }

    open spec fn spec_pack_err(&self) -> codec::Error {
        self.app.spec_pack_err()
    }

    fn packed_len(&self) -> (n: usize)
    {
        self.app.packed_len()
    }

    fn pack(&self, out: &mut Vec<u8>) -> (r: Result<(), codec::Error>)
    {
        self.app.pack(out)
    }
}

/// Build the open-app frame. The string codec writes a leading length byte
/// that is unwanted here: the frame's own length field stands for it, so
/// that byte is stripped and the data is the name's UTF-8 bytes alone. A
/// name whose encoding does not fit the codec's length prefix is rejected.
pub fn frame(app: String) -> (r: Result<CommandFrame, codec::Error>)
    ensures
        r is Ok <==> encode_utf8(app@).len() <= 255,
        r matches Ok(f) ==> f.cla == apdu::APDU_BOLOS_CLA_E0 && f.ins
            == APDUInstructionsBolos::OpenAppE0.spec_byte() && f.p1 == 0 && f.p2 == 0 && f.data@
            == encode_utf8(app@),
        r is Err ==> r == Err::<CommandFrame, codec::Error>(codec::Error::StringTooLong),
{
    let req = Request { app };
    let packed = match pack_to_vec(&req) {
        Ok(v) => v,
        Err(e) => {
            return Err(e);
        },
    };
    let data = subvec(&packed, 1, packed.len());
    proof {
        assert(data@ =~= encode_utf8(req.app@));
    }
    Ok(
        CommandFrame {
            cla: apdu::APDU_BOLOS_CLA_E0,
            ins: APDUInstructionsBolos::OpenAppE0.as_byte(),
            p1: 0,
            p2: 0,
            data,
        },
    )
}

} // verus!
