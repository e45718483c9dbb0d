//! A native battery reader for the Audeze Maxwell, talking to its dongle
//! directly over hidraw.
//!
//! HeadsetControl supports the Maxwell, but reads its battery unreliably: it
//! replays a twenty-packet sequence and expects the battery answer to sit in
//! the buffer of a *different* request, one frame later. When the dongle is a
//! few milliseconds late the answer is missed. It also scans for `d6 0c 00 00`
//! anywhere in the dongle's report, leftovers included - hence stray `0%` and
//! `44%` readings, and a level reported for a headset that is switched off.
//!
//! # The report
//!
//! The dongle's input report is a stream of small messages, oldest first, and
//! its second byte counts the bytes written since the report was last fetched;
//! whatever lies beyond is left over from earlier exchanges.
//!
//! ```text
//! 05 <type> <len> 00 <payload; len bytes>
//!
//! 05 5b 03 00  d6 0c 00                   acknowledgement of request d6 0c
//! 05 5d 05 00  d6 0c 00 00 5b             answer to d6 0c: 0x5b = 91 %
//! 05 5d 0e 00  b1 2c 00 02 01 01 <addr>…  link event: 01 = headset linked
//! 05 5d 0e 00  b1 2c 00 02 00 01 <addr>…  link event: 00 = headset gone
//! ```
//!
//! The answers are only available through a `GET_REPORT` control transfer
//! (`HIDIOCGINPUT`); the dongle never pushes them on the interrupt endpoint.
//!
//! # Listen, do not ask
//!
//! The dongle announces the headset's link state on its own, and volunteers the
//! battery level when the headset connects. So the reader is passive: it
//! fetches the report about once a second - a control transfer to the dongle,
//! nothing goes over the air - and only *asks* for the level while the headset
//! is known to be linked, plus a handful of times per opened node - the first after
//! listening for a few seconds - to learn where things stand.
//!
//! That restraint is not politeness. A daemon that kept sending a request every
//! ten seconds to a headset that was switched off left the dongle's command
//! channel dead after an hour or so: audio still worked, but it answered no
//! request at all, not even those addressed to the dongle itself, and only a
//! power cycle brought it back. The likeliest explanation is that requests for
//! an absent headset pile up in the dongle; whatever the cause, not sending
//! them is the cure. As a second line of defence the reader stops asking when
//! a headset that is supposed to be linked stops answering.
//!
//! The dongle also re-enumerates on USB a second or two after every link
//! change, so its hidraw node vanishes and comes back; the reader reopens it.
//!
//! # Charging
//!
//! Nothing the dongle answers changes when the headset is charging: every
//! register it exposes to a read was compared plugged and unplugged, and only
//! the level moved. What does change is the USB bus. Plugged into the computer,
//! the headset enumerates as a device of its own (`3329:4b1e`) next to the
//! dongle. Its presence is what this module reports as charging; a headset on a
//! wall charger is invisible, and keeps reading as discharging.

use vstd::prelude::*;

pub mod dongle;
pub mod frame;
pub mod listening;
pub mod reader;
pub mod session;
pub mod watch;

pub use crate::maxwell::reader::Reader;

verus! {

/// Audeze's USB vendor ID.
pub const VENDOR_ID: u16 = 0x3329;

/// Product IDs this module knows how to talk to: the Maxwell dongle and the
/// Maxwell Xbox dongle.
pub const PRODUCT_IDS: [u16; 2] = [0x4b19, 0x4b18];

/// Whether the IDs are those of a Maxwell dongle.
pub open spec fn is_supported(vendor_id: u16, product_id: u16) -> bool {
    vendor_id == VENDOR_ID && PRODUCT_IDS@.contains(product_id)
}

/// Whether this module handles the given USB device.
#[must_use]
pub fn supports(vendor_id: u16, product_id: u16) -> (yes: bool)
    ensures
        yes == is_supported(vendor_id, product_id),
        yes == (vendor_id == 0x3329 && (product_id == 0x4b18 || product_id == 0x4b19)),
{
    proof {
        let ids = PRODUCT_IDS@;
        assert(ids[0] == 0x4b19 && ids[1] == 0x4b18);
    }
    vendor_id == VENDOR_ID && (product_id == PRODUCT_IDS[0] || product_id == PRODUCT_IDS[1])
}

/// Two products of one vendor are handled, and nothing else.
pub proof fn law_two_dongles_are_supported(vendor_id: u16, product_id: u16)
    ensures
        is_supported(vendor_id, product_id) <==> (vendor_id == 0x3329 && (product_id == 0x4b18
            || product_id == 0x4b19)),
{
    let ids = PRODUCT_IDS@;
    assert(ids[0] == 0x4b19 && ids[1] == 0x4b18);
}

} // verus!
