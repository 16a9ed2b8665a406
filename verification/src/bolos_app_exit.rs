//! Asking the device's OS to close the running app. Only works while an
//! app is open.

use vstd::prelude::*;

use crate::apdu;
use crate::apdu::{APDUInstructionsBolos, CommandFrame};

verus! {

/// The frame that exits the running app; it carries no data.
pub fn frame() -> (r: CommandFrame)
    ensures
        r.cla == apdu::APDU_BOLOS_CLA_B0,
        r.ins == APDUInstructionsBolos::AppExitB0.spec_byte(),
        r.p1 == 0,
        r.p2 == 0,
        r.data@ == Seq::<u8>::empty(),
{
    CommandFrame {
        cla: apdu::APDU_BOLOS_CLA_B0,
        ins: APDUInstructionsBolos::AppExitB0.as_byte(),
        p1: 0,
        p2: 0,
        data: Vec::new(),
    }
}

} // verus!
