//! Publishes the battery level of a wireless headset to UPower.
//!
//! Desktop environments read peripheral battery levels from UPower, and UPower
//! only knows about devices the kernel exposes under
//! `/sys/class/power_supply`. There is no way for a third-party daemon to add
//! a device to UPower over D-Bus, so this crate takes the other route: it
//! creates a virtual HID device through `/dev/uhid` whose report descriptor
//! declares a battery. The kernel's `hid-input` driver then registers the
//! `power_supply` object itself, UPower picks it up like any other peripheral
//! battery, and KDE's Power & Battery applet lists the headset.
//!
//! The battery values come from the HeadsetControl binary, which knows the
//! vendor protocol of a few hundred headsets - or, for the Audeze Maxwell, from
//! a native reader that is markedly more reliable (see [`maxwell`]).
//!
//! The library decides and the program around it acts. Nothing in here opens a
//! device, runs a process or reads a clock: it is told what was read, what came
//! of the last action and what time it is, and answers with bytes, texts and
//! the next action. That is what makes its behaviour provable.

pub mod bridge;
pub mod cli;
pub mod headset;
pub mod headsetcontrol;
pub mod maxwell;
pub mod source;
pub mod systemd;
pub mod text;
pub mod time;
pub mod uhid;
