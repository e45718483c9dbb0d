//! The events exchanged with the kernel's `/dev/uhid` character device.
//!
//! `uhid` lets a userspace process create a virtual HID device. The kernel then
//! parses the report descriptor it is handed exactly as if the device were
//! physically plugged in. That is the whole trick behind this crate: a report
//! descriptor that declares nothing but a battery makes `hid-input` register a
//! `power_supply` object in sysfs, which UPower picks up on its own.
//!
//! The ABI is a single `struct uhid_event` written to (and read from) the
//! character device. It is `__packed`, has a fixed size, and has been stable
//! since Linux 3.18, so the offsets are hard-coded here. Everything in this
//! module is about the bytes of that structure; moving them in and out of the
//! device is up to whoever holds it open.

use vstd::prelude::*;
use vstd::utf8::*;
use crate::text;

verus! {

/// Default path of the uhid character device.
pub const DEV_UHID: &'static str = "/dev/uhid";

/// `BUS_VIRTUAL` from `linux/input.h`.
///
/// Using the virtual bus (rather than `BUS_USB`) keeps device-specific kernel
/// HID drivers away from our fake device: they all match on a physical bus, so
/// only `hid-generic` binds to it.
pub const BUS_VIRTUAL: u16 = 0x06;

// Event types, from `linux/uhid.h`.
pub const UHID_DESTROY: u32 = 1;

pub const UHID_START: u32 = 2;

pub const UHID_STOP: u32 = 3;

pub const UHID_OPEN: u32 = 4;

pub const UHID_CLOSE: u32 = 5;

pub const UHID_OUTPUT: u32 = 6;

pub const UHID_GET_REPORT: u32 = 9;

pub const UHID_GET_REPORT_REPLY: u32 = 10;

pub const UHID_CREATE2: u32 = 11;

pub const UHID_INPUT2: u32 = 12;

pub const UHID_SET_REPORT: u32 = 13;

pub const UHID_SET_REPORT_REPLY: u32 = 14;

// Field offsets inside `struct uhid_event`. The 4-byte `type` comes first, then
// the union of request structures.
pub const OFF_TYPE: usize = 0;

pub const OFF_CREATE_NAME: usize = 4;

pub const LEN_NAME: usize = 128;

pub const OFF_CREATE_PHYS: usize = OFF_CREATE_NAME + LEN_NAME;

pub const LEN_PHYS: usize = 64;

pub const OFF_CREATE_UNIQ: usize = OFF_CREATE_PHYS + LEN_PHYS;

pub const LEN_UNIQ: usize = 64;

pub const OFF_CREATE_RD_SIZE: usize = OFF_CREATE_UNIQ + LEN_UNIQ;

pub const OFF_CREATE_BUS: usize = OFF_CREATE_RD_SIZE + 2;

pub const OFF_CREATE_VENDOR: usize = OFF_CREATE_BUS + 2;

pub const OFF_CREATE_PRODUCT: usize = OFF_CREATE_VENDOR + 4;

pub const OFF_CREATE_VERSION: usize = OFF_CREATE_PRODUCT + 4;

pub const OFF_CREATE_COUNTRY: usize = OFF_CREATE_VERSION + 4;

pub const OFF_CREATE_RD_DATA: usize = OFF_CREATE_COUNTRY + 4;

/// `HID_MAX_DESCRIPTOR_SIZE`: the largest report descriptor the kernel accepts.
pub const RD_DATA_MAX: usize = 4096;

/// `UHID_DATA_MAX`: the largest report payload.
pub const DATA_MAX: usize = 4096;

/// Size of `struct uhid_event`: the type tag plus its largest union member
/// (`struct uhid_create2_req`).
pub const EVENT_SIZE: usize = OFF_CREATE_RD_DATA + RD_DATA_MAX;

// `struct uhid_input2_req`: size, then data.
pub const OFF_INPUT_SIZE: usize = 4;

pub const OFF_INPUT_DATA: usize = 6;

// `struct uhid_get_report_req`: id, rnum, rtype.
pub const OFF_GET_REPORT_ID: usize = 4;

pub const OFF_GET_REPORT_RNUM: usize = 8;

// `struct uhid_get_report_reply_req`: id, err, size, data.
pub const OFF_GET_REPLY_ID: usize = 4;

pub const OFF_GET_REPLY_ERR: usize = 8;

pub const OFF_GET_REPLY_SIZE: usize = 10;

pub const OFF_GET_REPLY_DATA: usize = 12;

// `struct uhid_set_report_req` shares its first fields with the get variant.
pub const OFF_SET_REPORT_ID: usize = 4;

// `struct uhid_set_report_reply_req`: id, err.
pub const OFF_SET_REPLY_ID: usize = 4;

pub const OFF_SET_REPLY_ERR: usize = 8;

/// Report ID carried by the battery input report.
pub const REPORT_ID: u8 = 0x01;

/// Number of bytes in a battery input report, report ID included.
pub const REPORT_LEN: usize = 3;

/// Number of bytes in the report descriptor.
pub const DESCRIPTOR_LEN: usize = 45;

/// Report descriptor of the virtual battery device.
///
/// Three things matter here, all checked against `drivers/hid/hid-input.c`:
///
/// * The top-level collection has to be an *input application*
///   (`IS_INPUT_APPLICATION`: generic desktop, digitizer, consumer control...).
///   `hidinput_connect()` returns before looking at a single field otherwise,
///   and the device ends up with a hidraw node and nothing else. Consumer
///   Control is the honest choice for a headset - it is what the real dongle
///   declares too.
/// * `Battery Strength` (Generic Device Controls, usage `0x20`) is what makes
///   `hidinput_setup_battery()` register the `power_supply`, and `Charging`
///   (Battery System page, usage `0x44`) is what flips it between
///   `Charging` and `Discharging`.
/// * `hidinput_connect()` tears the battery back down when a device ends up
///   with no input capability at all ("No inputs registered, leaving"). The
///   trailing vendor-defined one-bit field exists solely to avoid that: an
///   unknown usage that is one bit wide is mapped to `BTN_MISC`, which is
///   enough to keep the input device alive. `BTN_MISC` is outside every range
///   systemd's `input_id` builtin looks at, so the node stays untagged: udev
///   does not advertise it as a keyboard or a pointer, and UPower keeps
///   reporting the device as a plain battery. We never set that bit.
///
/// The vendor page is `0xff21`, picked because the kernel special-cases
/// `0xff00`, `0xff01`, `0xff09`, `0xff31`, `0xff43`, `0xff7f`, `0xffa0`,
/// `0xffbc` and `0xffd1`, and ignores their usages instead of mapping them.
pub const REPORT_DESCRIPTOR: [u8; DESCRIPTOR_LEN] = [
    0x05, 0x0c,  //       Usage Page (Consumer)
    0x09, 0x01,  //       Usage (Consumer Control)
    0xa1, 0x01,  //       Collection (Application)
    0x85, REPORT_ID,  //    Report ID (1)
    0x05, 0x06,  //         Usage Page (Generic Device Controls)
    0x09, 0x20,  //         Usage (Battery Strength)
    0x15, 0x00,  //         Logical Minimum (0)
    0x26, 0x64, 0x00,  //   Logical Maximum (100)
    0x75, 0x08,  //         Report Size (8)
    0x95, 0x01,  //         Report Count (1)
    0x81, 0x02,  //         Input (Data, Variable, Absolute)
    0x05, 0x85,  //         Usage Page (Battery System)
    0x09, 0x44,  //         Usage (Charging)
    0x25, 0x01,  //         Logical Maximum (1)
    0x75, 0x01,  //         Report Size (1)
    0x81, 0x02,  //         Input (Data, Variable, Absolute)
    0x06, 0x21, 0xff,  //   Usage Page (Vendor Defined 0xff21)
    0x09, 0x02,  //         Usage (0x02) -> BTN_MISC, never reported
    0x81, 0x02,  //         Input (Data, Variable, Absolute)
    0x75, 0x06,  //         Report Size (6)
    0x81, 0x03,  //         Input (Constant) - padding
    0xc0,  //             End Collection
];

/// The order in which the machine keeps the bytes of a number.
#[derive(Debug, Clone, Copy, PartialEq, Eq, Structural)]
pub enum ByteOrder {
    /// Lowest byte first.
    Little,
    /// Highest byte first.
    Big,
}

/// The bytes of a 16-bit number.
pub open spec fn u16_bytes(order: ByteOrder, value: u16) -> Seq<u8> {
    let low = (value % 256) as u8;
    let high = (value / 256) as u8;
    match order {
        ByteOrder::Little => seq![low, high],
        ByteOrder::Big => seq![high, low],
    }
}

/// The bytes of a 32-bit number.
pub open spec fn u32_bytes(order: ByteOrder, value: u32) -> Seq<u8> {
    let b0 = (value % 0x100) as u8;
    let b1 = (value / 0x100 % 0x100) as u8;
    let b2 = (value / 0x1_0000 % 0x100) as u8;
    let b3 = (value / 0x100_0000) as u8;
    match order {
        ByteOrder::Little => seq![b0, b1, b2, b3],
        ByteOrder::Big => seq![b3, b2, b1, b0],
    }
}

/// The 32-bit number those four bytes stand for.
pub open spec fn u32_value(order: ByteOrder, bytes: Seq<u8>) -> int {
    match order {
        ByteOrder::Little => bytes[0] + bytes[1] * 0x100 + bytes[2] * 0x1_0000 + bytes[3]
            * 0x100_0000,
        ByteOrder::Big => bytes[3] + bytes[2] * 0x100 + bytes[1] * 0x1_0000 + bytes[0] * 0x100_0000,
    }
}

/// `buf` with `bytes` written over it, starting at `offset`.
pub open spec fn placed(buf: Seq<u8>, offset: int, bytes: Seq<u8>) -> Seq<u8> {
    Seq::new(
        buf.len(),
        |i: int|
            if offset <= i < offset + bytes.len() {
                bytes[i - offset]
            } else {
                buf[i]
            },
    )
}

/// That many NUL bytes.
pub open spec fn zeros(count: int) -> Seq<u8> {
    Seq::new(count as nat, |i: int| 0u8)
}

/// `bytes`, filled up with NULs to `len` of them.
pub open spec fn padded(bytes: Seq<u8>, len: int) -> Seq<u8> {
    bytes + zeros(len - bytes.len())
}

/// A text field of `len` bytes: as much of `value` as leaves room for one NUL,
/// cut between two characters, and NULs from there on.
pub open spec fn str_field(value: Seq<char>, len: int) -> Seq<u8> {
    padded(encode_utf8(text::fitting(value, (len - 1) as nat)), len)
}

/// The value of `u16::to_ne_bytes`: the bytes of `value` in the order this
/// machine keeps them, which is one of the two there are. Which one, nothing
/// here says.
#[verifier::external_body]
fn ne_bytes(value: u16) -> (bytes: [u8; 2])
    ensures
        bytes@ == u16_bytes(ByteOrder::Little, value) || bytes@ == u16_bytes(
            ByteOrder::Big,
            value,
        ),
{
    value.to_ne_bytes()
}

/// The byte order in which `bytes` hold the number one.
pub fn order_of_one(bytes: [u8; 2]) -> (order: ByteOrder)
    ensures
        order == (if bytes@[0] == 1 {
            ByteOrder::Little
        } else {
            ByteOrder::Big
        }),
        bytes@ == u16_bytes(ByteOrder::Little, 1) ==> order == ByteOrder::Little,
        bytes@ == u16_bytes(ByteOrder::Big, 1) ==> order == ByteOrder::Big,
{
    if bytes[0] == 1 {
        ByteOrder::Little
    } else {
        ByteOrder::Big
    }
}

/// Whether `order` is the one this machine keeps its numbers in: the bytes that
/// `u16::to_ne_bytes` gives for the number one are those of that order.
pub closed spec fn is_native(order: ByteOrder) -> bool {
    exists|bytes: [u8; 2]| #[trigger]
        call_ensures(ne_bytes, (1u16,), bytes) && bytes@ == u16_bytes(order, 1)
}

/// Writes `bytes` over `buf`, starting at `offset`.
pub fn put_bytes(buf: &mut Vec<u8>, offset: usize, bytes: &[u8])
    requires
        offset + bytes@.len() <= old(buf).len(),
    ensures
        final(buf)@ == placed(old(buf)@, offset as int, bytes@),
{
    let ghost before = buf@;
    let mut at: usize = 0;
    assert(placed(before, offset as int, bytes@.take(0)) =~= before);
    while at < bytes.len()
        invariant
            at <= bytes@.len(),
            offset + bytes@.len() <= buf.len(),
            buf@ == placed(before, offset as int, bytes@.take(at as int)),
        decreases bytes.len() - at,
    {
        buf[offset + at] = bytes[at];
        at = at + 1;
        assert(buf@ =~= placed(before, offset as int, bytes@.take(at as int)));
    }
    assert(bytes@.take(at as int) =~= bytes@);
}

/// Copies `value` into a fixed-size, NUL-padded field, cutting it between two
/// characters so the kernel never sees a partial UTF-8 sequence.
pub fn put_str(buf: &mut Vec<u8>, offset: usize, len: usize, value: &str)
    requires
        len >= 1,
        offset + len <= old(buf).len(),
    ensures
        final(buf)@ == placed(
            old(buf)@,
            offset as int,
            encode_utf8(text::fitting(value@, (len - 1) as nat)),
        ),
{
    let cut = text::fit(value, len - 1);
    proof {
        text::lemma_fitting(value@, (len - 1) as nat);
    }
    put_bytes(buf, offset, cut.as_bytes());
}

/// Writes a 16-bit number.
pub fn put_u16(order: ByteOrder, buf: &mut Vec<u8>, offset: usize, value: u16)
    requires
        offset + 2 <= old(buf).len(),
    ensures
        final(buf)@ == placed(old(buf)@, offset as int, u16_bytes(order, value)),
{
    let low: u8 = (value % 256) as u8;
    let high: u8 = (value / 256) as u8;
    match order {
        ByteOrder::Little => {
            buf[offset] = low;
            buf[offset + 1] = high;
        },
        ByteOrder::Big => {
            buf[offset] = high;
            buf[offset + 1] = low;
        },
    }
    assert(buf@ =~= placed(old(buf)@, offset as int, u16_bytes(order, value)));
}

/// Writes a 32-bit number.
pub fn put_u32(order: ByteOrder, buf: &mut Vec<u8>, offset: usize, value: u32)
    requires
        offset + 4 <= old(buf).len(),
    ensures
        final(buf)@ == placed(old(buf)@, offset as int, u32_bytes(order, value)),
{
    let b0: u8 = (value % 0x100) as u8;
    let b1: u8 = (value / 0x100 % 0x100) as u8;
    let b2: u8 = (value / 0x1_0000 % 0x100) as u8;
    let b3: u8 = (value / 0x100_0000) as u8;
    match order {
        ByteOrder::Little => {
            buf[offset] = b0;
            buf[offset + 1] = b1;
            buf[offset + 2] = b2;
            buf[offset + 3] = b3;
        },
        ByteOrder::Big => {
            buf[offset] = b3;
            buf[offset + 1] = b2;
            buf[offset + 2] = b1;
            buf[offset + 3] = b0;
        },
    }
    assert(buf@ =~= placed(old(buf)@, offset as int, u32_bytes(order, value)));
}

/// Reads a 32-bit number.
pub fn get_u32(order: ByteOrder, buf: &[u8], offset: usize) -> (value: u32)
    requires
        offset + 4 <= buf.len(),
    ensures
        value == u32_value(order, buf@.subrange(offset as int, offset + 4)),
{
    let a: u32 = buf[offset] as u32;
    let b: u32 = buf[offset + 1] as u32;
    let c: u32 = buf[offset + 2] as u32;
    let d: u32 = buf[offset + 3] as u32;
    match order {
        ByteOrder::Little => a + b * 0x100 + c * 0x1_0000 + d * 0x100_0000,
        ByteOrder::Big => d + c * 0x100 + b * 0x1_0000 + a * 0x100_0000,
    }
}

/// A number reads back as it was written, whichever way round the machine keeps
/// its bytes.
pub proof fn law_numbers_survive(order: ByteOrder, buf: Seq<u8>, offset: int, value: u32)
    requires
        0 <= offset,
        offset + 4 <= buf.len(),
    ensures
        u32_value(
            order,
            placed(buf, offset, u32_bytes(order, value)).subrange(offset, offset + 4),
        ) == value,
{
    let bytes = u32_bytes(order, value);
    assert(placed(buf, offset, bytes).subrange(offset, offset + 4) =~= bytes);
    assert(value == value / 0x100_0000 * 0x100_0000 + value / 0x1_0000 % 0x100 * 0x1_0000 + value
        / 0x100 % 0x100 * 0x100 + value % 0x100);
}

/// Everything the kernel needs to instantiate the virtual device.
#[derive(Debug, Clone)]
pub struct CreateParams {
    /// Device name. It reaches UPower as `POWER_SUPPLY_MODEL_NAME`, which is
    /// the label KDE shows, so this should be the headset's marketing name.
    pub name: String,
    /// Physical path, free-form.
    pub phys: String,
    /// Unique identifier. The kernel names the sysfs power supply
    /// `hid-<uniq>-battery`, so it must be unique and filesystem-safe.
    pub uniq: String,
    /// Vendor ID, mirrored from the real headset.
    pub vendor: u32,
    /// Product ID, mirrored from the real headset.
    pub product: u32,
}

/// An event received from the kernel.
#[derive(Debug, Clone, Copy, PartialEq, Eq, Structural)]
pub enum Event {
    /// The kernel finished setting up the device.
    Start,
    /// The device is being torn down.
    Stop,
    /// A userspace process opened the device node.
    Open,
    /// The last reader closed the device node.
    Close,
    /// An output report was sent to us; we have nothing to do with it.
    Output,
    /// The kernel wants the current value of a report.
    GetReport {
        /// Request identifier to echo back in the reply.
        id: u32,
        /// Report number being requested.
        rnum: u8,
    },
    /// The kernel wants to set a report; we always acknowledge.
    SetReport {
        /// Request identifier to echo back in the reply.
        id: u32,
    },
    /// An event this crate does not handle.
    Other(u32),
}

/// Why an event cannot be sent, or was not sent whole.
#[derive(Debug, Clone, Copy, PartialEq, Eq, Structural)]
pub enum UhidError {
    /// The report descriptor is larger than the kernel accepts.
    DescriptorTooLarge,
    /// The input report is larger than an event can carry.
    InputTooLarge,
    /// The report reply is larger than an event can carry.
    ReplyTooLarge,
    /// The device took only part of the event.
    ShortWrite {
        /// Bytes it took.
        written: usize,
        /// Bytes there were.
        expected: usize,
    },
}

/// What came of reading from the device.
#[derive(Debug)]
pub enum ReadOutcome<E> {
    /// That many bytes were read.
    Read(usize),
    /// Nothing is queued.
    Again,
    /// A signal landed first.
    Interrupted,
    /// The read failed.
    Failed(E),
}

/// The event that creates a device.
pub open spec fn create_layout(order: ByteOrder, params: CreateParams, descriptor: Seq<u8>) -> Seq<
    u8,
> {
    u32_bytes(order, UHID_CREATE2) + str_field(params.name@, LEN_NAME as int) + str_field(
        params.phys@,
        LEN_PHYS as int,
    ) + str_field(params.uniq@, LEN_UNIQ as int) + u16_bytes(order, descriptor.len() as u16)
        + u16_bytes(order, BUS_VIRTUAL) + u32_bytes(order, params.vendor) + u32_bytes(
        order,
        params.product,
    ) + u32_bytes(order, 0) + u32_bytes(order, 0) + padded(descriptor, RD_DATA_MAX as int)
}

/// The event that destroys a device.
pub open spec fn destroy_layout(order: ByteOrder) -> Seq<u8> {
    padded(u32_bytes(order, UHID_DESTROY), EVENT_SIZE as int)
}

/// The event that carries an input report.
pub open spec fn input_layout(order: ByteOrder, data: Seq<u8>) -> Seq<u8> {
    padded(
        u32_bytes(order, UHID_INPUT2) + u16_bytes(order, data.len() as u16) + data,
        EVENT_SIZE as int,
    )
}

/// The event that answers a request for a report.
pub open spec fn get_reply_layout(order: ByteOrder, id: u32, data: Seq<u8>) -> Seq<u8> {
    padded(
        u32_bytes(order, UHID_GET_REPORT_REPLY) + u32_bytes(order, id) + u16_bytes(order, 0)
            + u16_bytes(order, data.len() as u16) + data,
        EVENT_SIZE as int,
    )
}

/// The event that acknowledges a report being set.
pub open spec fn set_reply_layout(order: ByteOrder, id: u32) -> Seq<u8> {
    padded(
        u32_bytes(order, UHID_SET_REPORT_REPLY) + u32_bytes(order, id) + u16_bytes(order, 0),
        EVENT_SIZE as int,
    )
}

/// What an event read from the kernel says.
pub open spec fn decoded(order: ByteOrder, buf: Seq<u8>) -> Event {
    let kind = u32_value(order, buf.subrange(OFF_TYPE as int, OFF_TYPE + 4)) as u32;
    let id = u32_value(order, buf.subrange(4, 8)) as u32;
    if kind == UHID_START {
        Event::Start
    } else if kind == UHID_STOP {
        Event::Stop
    } else if kind == UHID_OPEN {
        Event::Open
    } else if kind == UHID_CLOSE {
        Event::Close
    } else if kind == UHID_OUTPUT {
        Event::Output
    } else if kind == UHID_GET_REPORT {
        Event::GetReport { id, rnum: buf[OFF_GET_REPORT_RNUM as int] }
    } else if kind == UHID_SET_REPORT {
        Event::SetReport { id }
    } else {
        Event::Other(kind)
    }
}

/// The battery report: its ID, the level, and whether the battery is charging.
pub open spec fn report_bytes(percent: u8, charging: bool) -> Seq<u8> {
    seq![
        REPORT_ID,
        if percent <= 100 {
            percent
        } else {
            100
        },
        if charging {
            1
        } else {
            0
        },
    ]
}

/// Writing the next field of an event that is blank from there on.
proof fn lemma_next(done: Seq<u8>, bytes: Seq<u8>, left: int)
    requires
        bytes.len() <= left,
    ensures
        placed(done + zeros(left), done.len() as int, bytes) == done + bytes + zeros(
            left - bytes.len(),
        ),
{
    assert(placed(done + zeros(left), done.len() as int, bytes) =~= done + bytes + zeros(
        left - bytes.len(),
    ));
}

/// Writing the next text field of an event that is blank from there on.
proof fn lemma_next_str(done: Seq<u8>, value: Seq<char>, len: int, left: int)
    requires
        1 <= len <= left,
    ensures
        placed(
            done + zeros(left),
            done.len() as int,
            encode_utf8(text::fitting(value, (len - 1) as nat)),
        ) == done + str_field(value, len) + zeros(left - len),
        str_field(value, len).len() == len,
{
    let bytes = encode_utf8(text::fitting(value, (len - 1) as nat));
    text::lemma_fitting(value, (len - 1) as nat);
    lemma_next(done, bytes, left);
    assert(done + bytes + zeros(left - bytes.len()) =~= done + str_field(value, len) + zeros(
        left - len,
    ));
}

/// An event with nothing in it yet.
fn blank() -> (event: Vec<u8>)
    ensures
        event@ == Seq::<u8>::empty() + zeros(EVENT_SIZE as int),
{
    let event = vec![0u8; EVENT_SIZE];
    assert(event@ =~= Seq::<u8>::empty() + zeros(EVENT_SIZE as int));
    event
}

/// An open handle on `/dev/uhid`, optionally backing one virtual device.
///
/// `F` is whatever the bytes go through.
#[derive(Debug)]
pub struct Uhid<F> {
    /// The open character device.
    pub fd: F,
    /// The byte order the kernel speaks.
    pub order: ByteOrder,
}

impl<F> Uhid<F> {
    /// Adopts an already open descriptor, for example one passed by systemd. The
    /// byte order is the machine's own, which is the kernel's too.
    pub fn from_fd(fd: F) -> (handle: Uhid<F>)
        ensures
            handle.fd == fd,
            is_native(handle.order),
    {
        let bytes = ne_bytes(1);
        assert(call_ensures(ne_bytes, (1u16,), bytes));
        Uhid { fd, order: order_of_one(bytes) }
    }

    /// The event that creates the virtual HID device.
    ///
    /// # Errors
    ///
    /// Fails if the descriptor is too large.
    pub fn create(&self, params: &CreateParams, descriptor: &[u8]) -> (event: Result<
        Vec<u8>,
        UhidError,
    >)
        ensures
            match event {
                Ok(bytes) => descriptor@.len() <= RD_DATA_MAX && bytes@ == create_layout(
                    self.order,
                    *params,
                    descriptor@,
                ) && bytes@.len() == EVENT_SIZE,
                Err(error) => descriptor@.len() > RD_DATA_MAX && error
                    == UhidError::DescriptorTooLarge,
            },
    {
        if descriptor.len() > RD_DATA_MAX {
            return Err(UhidError::DescriptorTooLarge);
        }
        let order = self.order;
        let ghost size: int = EVENT_SIZE as int;
        let mut event = blank();

        proof {
            lemma_next(Seq::empty(), u32_bytes(order, UHID_CREATE2), size);
        }
        put_u32(order, &mut event, OFF_TYPE, UHID_CREATE2);
        let ghost done = Seq::<u8>::empty() + u32_bytes(order, UHID_CREATE2);

        proof {
            lemma_next_str(done, params.name@, LEN_NAME as int, size - done.len());
        }
        put_str(&mut event, OFF_CREATE_NAME, LEN_NAME, params.name.as_str());
        let ghost done = done + str_field(params.name@, LEN_NAME as int);

        proof {
            lemma_next_str(done, params.phys@, LEN_PHYS as int, size - done.len());
        }
        put_str(&mut event, OFF_CREATE_PHYS, LEN_PHYS, params.phys.as_str());
        let ghost done = done + str_field(params.phys@, LEN_PHYS as int);

        proof {
            lemma_next_str(done, params.uniq@, LEN_UNIQ as int, size - done.len());
        }
        put_str(&mut event, OFF_CREATE_UNIQ, LEN_UNIQ, params.uniq.as_str());
        let ghost done = done + str_field(params.uniq@, LEN_UNIQ as int);

        let rd_size: u16 = descriptor.len() as u16;
        proof {
            lemma_next(done, u16_bytes(order, rd_size), size - done.len());
        }
        put_u16(order, &mut event, OFF_CREATE_RD_SIZE, rd_size);
        let ghost done = done + u16_bytes(order, rd_size);

        proof {
            lemma_next(done, u16_bytes(order, BUS_VIRTUAL), size - done.len());
        }
        put_u16(order, &mut event, OFF_CREATE_BUS, BUS_VIRTUAL);
        let ghost done = done + u16_bytes(order, BUS_VIRTUAL);

        proof {
            lemma_next(done, u32_bytes(order, params.vendor), size - done.len());
        }
        put_u32(order, &mut event, OFF_CREATE_VENDOR, params.vendor);
        let ghost done = done + u32_bytes(order, params.vendor);

        proof {
            lemma_next(done, u32_bytes(order, params.product), size - done.len());
        }
        put_u32(order, &mut event, OFF_CREATE_PRODUCT, params.product);
        let ghost done = done + u32_bytes(order, params.product);

        proof {
            lemma_next(done, u32_bytes(order, 0), size - done.len());
        }
        put_u32(order, &mut event, OFF_CREATE_VERSION, 0);
        let ghost done = done + u32_bytes(order, 0);

        proof {
            lemma_next(done, u32_bytes(order, 0), size - done.len());
        }
        put_u32(order, &mut event, OFF_CREATE_COUNTRY, 0);
        let ghost done = done + u32_bytes(order, 0);

        proof {
            lemma_next(done, descriptor@, size - done.len());
        }
        put_bytes(&mut event, OFF_CREATE_RD_DATA, descriptor);
        assert(event@ =~= create_layout(order, *params, descriptor@));
        Ok(event)
    }

    /// The event that destroys the virtual device, leaving the handle reusable.
    pub fn destroy(&self) -> (event: Vec<u8>)
        ensures
            event@ == destroy_layout(self.order),
            event@.len() == EVENT_SIZE,
    {
        let mut event = blank();
        proof {
            lemma_next(Seq::empty(), u32_bytes(self.order, UHID_DESTROY), EVENT_SIZE as int);
        }
        put_u32(self.order, &mut event, OFF_TYPE, UHID_DESTROY);
        assert(event@ =~= destroy_layout(self.order));
        event
    }

    /// The event that feeds an input report to the kernel.
    ///
    /// # Errors
    ///
    /// Fails if the payload is too large.
    pub fn send_input(&self, data: &[u8]) -> (event: Result<Vec<u8>, UhidError>)
        ensures
            match event {
                Ok(bytes) => data@.len() <= DATA_MAX && bytes@ == input_layout(self.order, data@)
                    && bytes@.len() == EVENT_SIZE,
                Err(error) => data@.len() > DATA_MAX && error == UhidError::InputTooLarge,
            },
    {
        if data.len() > DATA_MAX {
            return Err(UhidError::InputTooLarge);
        }
        let order = self.order;
        let ghost size: int = EVENT_SIZE as int;
        let len: u16 = data.len() as u16;
        let mut event = blank();
        proof {
            lemma_next(Seq::empty(), u32_bytes(order, UHID_INPUT2), size);
        }
        put_u32(order, &mut event, OFF_TYPE, UHID_INPUT2);
        let ghost done = Seq::<u8>::empty() + u32_bytes(order, UHID_INPUT2);
        proof {
            lemma_next(done, u16_bytes(order, len), size - done.len());
        }
        put_u16(order, &mut event, OFF_INPUT_SIZE, len);
        let ghost done = done + u16_bytes(order, len);
        proof {
            lemma_next(done, data@, size - done.len());
        }
        put_bytes(&mut event, OFF_INPUT_DATA, data);
        assert(event@ =~= input_layout(order, data@));
        Ok(event)
    }

    /// The event that answers a [`Event::GetReport`] request.
    ///
    /// The kernel expects the report ID as the first byte of `data`, the same
    /// convention `hid_hw_raw_request()` uses.
    ///
    /// # Errors
    ///
    /// Fails if the payload is too large.
    pub fn reply_get_report(&self, id: u32, data: &[u8]) -> (event: Result<Vec<u8>, UhidError>)
        ensures
            match event {
                Ok(bytes) => data@.len() <= DATA_MAX && bytes@ == get_reply_layout(
                    self.order,
                    id,
                    data@,
                ) && bytes@.len() == EVENT_SIZE,
                Err(error) => data@.len() > DATA_MAX && error == UhidError::ReplyTooLarge,
            },
    {
        if data.len() > DATA_MAX {
            return Err(UhidError::ReplyTooLarge);
        }
        let order = self.order;
        let ghost size: int = EVENT_SIZE as int;
        let len: u16 = data.len() as u16;
        let mut event = blank();
        proof {
            lemma_next(Seq::empty(), u32_bytes(order, UHID_GET_REPORT_REPLY), size);
        }
        put_u32(order, &mut event, OFF_TYPE, UHID_GET_REPORT_REPLY);
        let ghost done = Seq::<u8>::empty() + u32_bytes(order, UHID_GET_REPORT_REPLY);
        proof {
            lemma_next(done, u32_bytes(order, id), size - done.len());
        }
        put_u32(order, &mut event, OFF_GET_REPLY_ID, id);
        let ghost done = done + u32_bytes(order, id);
        proof {
            lemma_next(done, u16_bytes(order, 0), size - done.len());
        }
        put_u16(order, &mut event, OFF_GET_REPLY_ERR, 0);
        let ghost done = done + u16_bytes(order, 0);
        proof {
            lemma_next(done, u16_bytes(order, len), size - done.len());
        }
        put_u16(order, &mut event, OFF_GET_REPLY_SIZE, len);
        let ghost done = done + u16_bytes(order, len);
        proof {
            lemma_next(done, data@, size - done.len());
        }
        put_bytes(&mut event, OFF_GET_REPLY_DATA, data);
        assert(event@ =~= get_reply_layout(order, id, data@));
        Ok(event)
    }

    /// The event that acknowledges a [`Event::SetReport`] request.
    pub fn reply_set_report(&self, id: u32) -> (event: Vec<u8>)
        ensures
            event@ == set_reply_layout(self.order, id),
            event@.len() == EVENT_SIZE,
    {
        let order = self.order;
        let ghost size: int = EVENT_SIZE as int;
        let mut event = blank();
        proof {
            lemma_next(Seq::empty(), u32_bytes(order, UHID_SET_REPORT_REPLY), size);
        }
        put_u32(order, &mut event, OFF_TYPE, UHID_SET_REPORT_REPLY);
        let ghost done = Seq::<u8>::empty() + u32_bytes(order, UHID_SET_REPORT_REPLY);
        proof {
            lemma_next(done, u32_bytes(order, id), size - done.len());
        }
        put_u32(order, &mut event, OFF_SET_REPLY_ID, id);
        let ghost done = done + u32_bytes(order, id);
        proof {
            lemma_next(done, u16_bytes(order, 0), size - done.len());
        }
        put_u16(order, &mut event, OFF_SET_REPLY_ERR, 0);
        assert(event@ =~= set_reply_layout(order, id));
        event
    }

    /// Makes sense of what reading the device into `buf` came to: the next
    /// pending event, or `None` when the queue is empty.
    ///
    /// # Errors
    ///
    /// Fails if the read did, unless there was nothing to read or a signal came
    /// first.
    pub fn read_event<E>(&self, outcome: ReadOutcome<E>, buf: &[u8]) -> (event: Result<
        Option<Event>,
        E,
    >)
        requires
            buf@.len() == EVENT_SIZE,
        ensures
            event == (match outcome {
                ReadOutcome::Read(count) => if count == 0 {
                    Ok::<Option<Event>, E>(None)
                } else {
                    Ok(Some(decoded(self.order, buf@)))
                },
                ReadOutcome::Again => Ok(None),
                ReadOutcome::Interrupted => Ok(None),
                ReadOutcome::Failed(error) => Err(error),
            }),
    {
        match outcome {
            // Nothing read means the kernel had nothing queued. Like a signal
            // landing mid-wait, it is "come back later".
            ReadOutcome::Read(0) | ReadOutcome::Again | ReadOutcome::Interrupted => Ok(None),
            ReadOutcome::Read(_) => Ok(Some(decode_event(self.order, buf))),
            ReadOutcome::Failed(error) => Err(error),
        }
    }

    /// Checks that the device took the whole of `event`.
    ///
    /// # Errors
    ///
    /// Fails if it took fewer bytes.
    pub fn write_event(&self, event: &Vec<u8>, written: usize) -> (outcome: Result<(), UhidError>)
        ensures
            outcome == (if written == event@.len() {
                Ok::<(), UhidError>(())
            } else {
                Err(UhidError::ShortWrite { written, expected: event@.len() as usize })
            }),
    {
        if written == event.len() {
            Ok(())
        } else {
            Err(UhidError::ShortWrite { written, expected: event.len() })
        }
    }

    /// The event with which a battery at that level answers the kernel, if the
    /// kernel is waiting for an answer.
    pub fn answer(&self, event: Event, percent: u8, charging: bool) -> (reply: Option<Vec<u8>>)
        ensures
            match event {
                Event::GetReport { id, rnum } => reply is Some && reply->0@ == get_reply_layout(
                    self.order,
                    id,
                    report_bytes(percent, charging),
                ),
                Event::SetReport { id } => reply is Some && reply->0@ == set_reply_layout(
                    self.order,
                    id,
                ),
                _ => reply is None,
            },
    {
        match event {
            Event::GetReport { id, .. } => {
                let report = battery_report(percent, charging);
                self.reply_get_report(id, &report).ok()
            },
            Event::SetReport { id } => Some(self.reply_set_report(id)),
            _ => None,
        }
    }
}

/// Builds the payload of a battery input report.
#[must_use]
pub fn battery_report(percent: u8, charging: bool) -> (report: [u8; REPORT_LEN])
    ensures
        report@ == report_bytes(percent, charging),
{
    let level: u8 = if percent <= 100 {
        percent
    } else {
        100
    };
    let flag: u8 = if charging {
        1
    } else {
        0
    };
    let report: [u8; REPORT_LEN] = [REPORT_ID, level, flag];
    assert(report@ =~= report_bytes(percent, charging));
    report
}

/// Makes sense of an event read from the kernel.
pub fn decode_event(order: ByteOrder, buf: &[u8]) -> (event: Event)
    requires
        buf@.len() == EVENT_SIZE,
    ensures
        event == decoded(order, buf@),
{
    let kind: u32 = get_u32(order, buf, OFF_TYPE);
    if kind == UHID_START {
        Event::Start
    } else if kind == UHID_STOP {
        Event::Stop
    } else if kind == UHID_OPEN {
        Event::Open
    } else if kind == UHID_CLOSE {
        Event::Close
    } else if kind == UHID_OUTPUT {
        Event::Output
    } else if kind == UHID_GET_REPORT {
        Event::GetReport {
            id: get_u32(order, buf, OFF_GET_REPORT_ID),
            rnum: buf[OFF_GET_REPORT_RNUM],
        }
    } else if kind == UHID_SET_REPORT {
        Event::SetReport { id: get_u32(order, buf, OFF_SET_REPORT_ID) }
    } else {
        Event::Other(kind)
    }
}

impl UhidError {
    /// What to tell whoever reads the journal.
    pub fn message(&self) -> (said: String)
        ensures
            said@ == (match *self {
                UhidError::DescriptorTooLarge => "report descriptor exceeds HID_MAX_DESCRIPTOR_SIZE"@,
                UhidError::InputTooLarge => "input report exceeds UHID_DATA_MAX"@,
                UhidError::ReplyTooLarge => "report reply exceeds UHID_DATA_MAX"@,
                UhidError::ShortWrite { written, expected } => "short write to uhid: "@
                    + text::decimal(written as nat) + " of "@ + text::decimal(expected as nat)
                    + " bytes"@,
            }),
    {
        match *self {
            UhidError::DescriptorTooLarge => "report descriptor exceeds HID_MAX_DESCRIPTOR_SIZE".to_owned(),
            UhidError::InputTooLarge => "input report exceeds UHID_DATA_MAX".to_owned(),
            UhidError::ReplyTooLarge => "report reply exceeds UHID_DATA_MAX".to_owned(),
            UhidError::ShortWrite { written, expected } => {
                let mut said = "short write to uhid: ".to_owned();
                text::push_decimal(&mut said, written as u64);
                said.append(" of ");
                text::push_decimal(&mut said, expected as u64);
                said.append(" bytes");
                said
            },
        }
    }
}

/// Whether `name` is what the kernel calls the power supply of the device named
/// `uniq`: `hid-<uniq>-battery`, alone or with a hyphen and more behind it.
pub open spec fn is_supply_of(name: Seq<char>, uniq: Seq<char>) -> bool {
    let stem = "hid-"@ + uniq + "-battery"@;
    text::begins_with(name, stem) && (name.len() == stem.len() || name[stem.len() as int] == '-')
}

/// Locates the power supply the kernel registered for the device named `uniq`
/// among the `names` sysfs lists, and returns its position.
///
/// The name is not stable across kernels: it was `hid-<uniq>-battery` for
/// years, and recent kernels append the report ID (`hid-<uniq>-battery-1`)
/// now that a HID device may carry several batteries. Match on the prefix
/// instead of guessing.
#[must_use]
pub fn find_power_supply(names: &Vec<String>, uniq: &str) -> (found: Option<usize>)
    ensures
        match found {
            Some(index) => {
                &&& index < names@.len()
                &&& is_supply_of(names@[index as int]@, uniq@)
                &&& forall|i: int| 0 <= i < index ==> !is_supply_of(#[trigger] names@[i]@, uniq@)
            },
            None => forall|i: int|
                0 <= i < names@.len() ==> !is_supply_of(#[trigger] names@[i]@, uniq@),
        },
{
    let mut stem = "hid-".to_owned();
    stem.append(uniq);
    stem.append("-battery");
    let mut at: usize = 0;
    while at < names.len()
        invariant
            at <= names.len(),
            stem@ == "hid-"@ + uniq@ + "-battery"@,
            forall|i: int| 0 <= i < at ==> !is_supply_of(#[trigger] names@[i]@, uniq@),
        decreases names.len() - at,
    {
        if let Some(rest) = text::strip_prefix(names[at].as_str(), stem.as_str()) {
            let chars = text::chars_of(rest);
            if chars.len() == 0 || chars[0] == '-' {
                return Some(at);
            }
        }
        at = at + 1;
    }
    None
}

/// A text field always holds `len` bytes, ends with a NUL, and begins with the
/// bytes of some whole characters of its text; all of them, if they leave room
/// for the NUL.
pub proof fn law_text_fields_are_terminated(value: Seq<char>, len: int)
    requires
        len >= 1,
    ensures
        str_field(value, len).len() == len,
        str_field(value, len).last() == 0,
        exists|upto: int|
            0 <= upto <= value.len() && str_field(value, len) == padded(
                encode_utf8(#[trigger] value.take(upto)),
                len,
            ),
        text::byte_len(value) < len ==> str_field(value, len) == padded(encode_utf8(value), len),
{
    let cut = text::fitting(value, (len - 1) as nat);
    text::lemma_fitting(value, (len - 1) as nat);
    assert(cut == value.take(cut.len() as int));
}

/// A battery report is always in range: three bytes, a level of 100 at the most,
/// and no bit set behind the charging one, the vendor-defined bit included.
pub proof fn law_report_is_in_range(percent: u8, charging: bool)
    ensures
        report_bytes(percent, charging).len() == REPORT_LEN,
        report_bytes(percent, charging)[0] == REPORT_ID,
        report_bytes(percent, charging)[1] <= 100,
        percent <= 100 ==> report_bytes(percent, charging)[1] == percent,
        report_bytes(percent, charging)[2] == (if charging {
            1u8
        } else {
            0u8
        }),
{
}

/// What the kernel asks for is understood, whatever else its event holds.
pub proof fn law_requests_are_understood(order: ByteOrder, id: u32, rnum: u8, rest: Seq<u8>)
    requires
        rest.len() == EVENT_SIZE - 9,
    ensures
        decoded(
            order,
            u32_bytes(order, UHID_GET_REPORT) + u32_bytes(order, id) + seq![rnum] + rest,
        ) == (Event::GetReport { id, rnum }),
        decoded(
            order,
            u32_bytes(order, UHID_SET_REPORT) + u32_bytes(order, id) + seq![rnum] + rest,
        ) == (Event::SetReport { id }),
{
    let get = u32_bytes(order, UHID_GET_REPORT) + u32_bytes(order, id) + seq![rnum] + rest;
    let set = u32_bytes(order, UHID_SET_REPORT) + u32_bytes(order, id) + seq![rnum] + rest;
    assert(get =~= placed(placed(get, 0, u32_bytes(order, UHID_GET_REPORT)), 4, u32_bytes(order, id)));
    assert(set =~= placed(placed(set, 0, u32_bytes(order, UHID_SET_REPORT)), 4, u32_bytes(order, id)));
    assert(get =~= placed(get, 0, u32_bytes(order, UHID_GET_REPORT)));
    assert(set =~= placed(set, 0, u32_bytes(order, UHID_SET_REPORT)));
    law_numbers_survive(order, get, 0, UHID_GET_REPORT);
    law_numbers_survive(order, get, 4, id);
    law_numbers_survive(order, set, 0, UHID_SET_REPORT);
    law_numbers_survive(order, set, 4, id);
}

/// A number is the sum of its bytes, each worth 256 times the one below it, and
/// the two orders are each other reversed.
pub proof fn law_bytes_add_up(short: u16, value: u32)
    ensures
        ({
            let two = u16_bytes(ByteOrder::Little, short);
            let four = u32_bytes(ByteOrder::Little, value);
            &&& two.len() == 2 && two[0] + two[1] * 256 == short
            &&& four.len() == 4 && four[0] + four[1] * 256 + four[2] * 65536 + four[3] * 16777216
                == value
            &&& u16_bytes(ByteOrder::Big, short) == two.reverse()
            &&& u32_bytes(ByteOrder::Big, value) == four.reverse()
        }),
{
    let two = u16_bytes(ByteOrder::Little, short);
    let four = u32_bytes(ByteOrder::Little, value);
    assert(u16_bytes(ByteOrder::Big, short) =~= two.reverse());
    assert(u32_bytes(ByteOrder::Big, value) =~= four.reverse());
}

/// Four bytes stand for the number they are the bytes of, in either order.
pub proof fn law_number_is_the_sum_of_its_bytes(a: u8, b: u8, c: u8, d: u8)
    ensures
        u32_value(ByteOrder::Little, seq![a, b, c, d]) == a + b * 256 + c * 65536 + d * 16777216,
        u32_value(ByteOrder::Big, seq![a, b, c, d]) == a * 16777216 + b * 65536 + c * 256 + d,
{
}

/// What is written over a buffer stands where it was written, and everything
/// else is as it was.
pub proof fn law_only_the_place_is_written_over(buf: Seq<u8>, offset: int, bytes: Seq<u8>)
    requires
        0 <= offset,
        offset + bytes.len() <= buf.len(),
    ensures
        placed(buf, offset, bytes) == buf.take(offset) + bytes + buf.skip(offset + bytes.len()),
{
    assert(placed(buf, offset, bytes) =~= buf.take(offset) + bytes + buf.skip(
        offset + bytes.len(),
    ));
}

/// A text field holds as many characters of its text as leave room for one NUL,
/// and NULs behind them.
pub proof fn law_text_field_holds_what_fits(value: Seq<char>, len: int, upto: int)
    requires
        len >= 1,
        0 <= upto <= value.len(),
        text::byte_len(value.take(upto)) < len,
        upto < value.len() ==> text::byte_len(value.take(upto + 1)) >= len,
    ensures
        ({
            let field = str_field(value, len);
            let bytes = encode_utf8(value.take(upto));
            &&& field.len() == len
            &&& field.take(bytes.len() as int) == bytes
            &&& forall|i: int| bytes.len() <= i < len ==> #[trigger] field[i] == 0
        }),
{
    let cut = text::fitting(value, (len - 1) as nat);
    text::law_cut_is_the_longest_that_fits(value, (len - 1) as nat, upto);
    if upto < value.len() && cut.len() > upto {
        text::lemma_byte_len_grows(value.take(cut.len() as int), upto + 1);
        assert(value.take(cut.len() as int).take(upto + 1) =~= value.take(upto + 1));
    }
    let bytes = encode_utf8(value.take(upto));
    assert(cut == value.take(upto));
    assert(str_field(value, len).take(bytes.len() as int) =~= bytes);
}

/// Where the kernel finds everything in the event that creates a device.
#[verifier::spinoff_prover]
pub proof fn law_creation_has_every_field_in_its_place(
    order: ByteOrder,
    params: CreateParams,
    descriptor: Seq<u8>,
)
    requires
        descriptor.len() <= 4096,
    ensures
        ({
            let event = create_layout(order, params, descriptor);
            &&& event.len() == 4376
            &&& event.subrange(0, 4) == u32_bytes(order, 11)
            &&& event.subrange(4, 132) == str_field(params.name@, 128)
            &&& event.subrange(132, 196) == str_field(params.phys@, 64)
            &&& event.subrange(196, 260) == str_field(params.uniq@, 64)
            &&& event.subrange(260, 262) == u16_bytes(order, descriptor.len() as u16)
            &&& event.subrange(262, 264) == u16_bytes(order, 0x06)
            &&& event.subrange(264, 268) == u32_bytes(order, params.vendor)
            &&& event.subrange(268, 272) == u32_bytes(order, params.product)
            &&& event.subrange(272, 276) == u32_bytes(order, 0)
            &&& event.subrange(276, 280) == u32_bytes(order, 0)
            &&& event.subrange(280, 280 + descriptor.len() as int) == descriptor
            &&& forall|i: int| 280 + descriptor.len() <= i < 4376 ==> #[trigger] event[i] == 0
        }),
{
    law_text_fields_are_terminated(params.name@, 128);
    law_text_fields_are_terminated(params.phys@, 64);
    law_text_fields_are_terminated(params.uniq@, 64);
    let a = u32_bytes(order, 11);
    let b = a + str_field(params.name@, 128);
    let c = b + str_field(params.phys@, 64);
    let d = c + str_field(params.uniq@, 64);
    let e = d + u16_bytes(order, descriptor.len() as u16);
    let f = e + u16_bytes(order, 0x06);
    let g = f + u32_bytes(order, params.vendor);
    let h = g + u32_bytes(order, params.product);
    let i = h + u32_bytes(order, 0);
    let j = i + u32_bytes(order, 0);
    let event = create_layout(order, params, descriptor);
    assert(event == j + padded(descriptor, 4096));
    assert(event.subrange(280, 280 + descriptor.len() as int) =~= descriptor);
    lemma_field(a, str_field(params.name@, 128));
    lemma_field(b, str_field(params.phys@, 64));
    lemma_field(c, str_field(params.uniq@, 64));
    lemma_field(d, u16_bytes(order, descriptor.len() as u16));
    lemma_field(e, u16_bytes(order, 0x06));
    lemma_field(f, u32_bytes(order, params.vendor));
    lemma_field(g, u32_bytes(order, params.product));
    lemma_field(h, u32_bytes(order, 0));
    lemma_field(i, u32_bytes(order, 0));
    lemma_begins_alike(j, padded(descriptor, 4096));
    lemma_begins_alike(i, u32_bytes(order, 0));
    lemma_begins_alike(h, u32_bytes(order, 0));
    lemma_begins_alike(g, u32_bytes(order, params.product));
    lemma_begins_alike(f, u32_bytes(order, params.vendor));
    lemma_begins_alike(e, u16_bytes(order, 0x06));
    lemma_begins_alike(d, u16_bytes(order, descriptor.len() as u16));
    lemma_begins_alike(c, str_field(params.uniq@, 64));
    lemma_begins_alike(b, str_field(params.phys@, 64));
    lemma_begins_alike(a, str_field(params.name@, 128));
    assert(a.subrange(0, 4) =~= a);
}

/// What is put behind some bytes stands behind them.
proof fn lemma_field(done: Seq<u8>, field: Seq<u8>)
    ensures
        (done + field).subrange(done.len() as int, done.len() + field.len() as int) == field,
{
    assert((done + field).subrange(done.len() as int, (done + field).len() as int) =~= field);
}

/// Putting something behind some bytes changes none of them.
proof fn lemma_begins_alike(done: Seq<u8>, more: Seq<u8>)
    ensures
        forall|from: int, to: int|
            0 <= from <= to <= done.len() ==> #[trigger] (done + more).subrange(from, to)
                == done.subrange(from, to),
{
    assert forall|from: int, to: int| 0 <= from <= to <= done.len() implies #[trigger] (done
        + more).subrange(from, to) == done.subrange(from, to) by {
        assert((done + more).subrange(from, to) =~= done.subrange(from, to));
    }
}

/// Where the kernel finds everything in the events that carry a report, answer a
/// request, or end a device: an answer carries the number of its request, no
/// error, and what it answers with.
#[verifier::spinoff_prover]
pub proof fn law_events_have_every_field_in_its_place(order: ByteOrder, id: u32, data: Seq<u8>)
    requires
        data.len() <= 4096,
    ensures
        ({
            let input = input_layout(order, data);
            let reply = get_reply_layout(order, id, data);
            let done = set_reply_layout(order, id);
            let end = destroy_layout(order);
            &&& input.len() == 4376 && reply.len() == 4376 && done.len() == 4376 && end.len() == 4376
            &&& input.subrange(0, 4) == u32_bytes(order, 12)
            &&& input.subrange(4, 6) == u16_bytes(order, data.len() as u16)
            &&& input.subrange(6, 6 + data.len() as int) == data
            &&& forall|i: int| 6 + data.len() <= i < 4376 ==> #[trigger] input[i] == 0
            &&& reply.subrange(0, 4) == u32_bytes(order, 10)
            &&& reply.subrange(4, 8) == u32_bytes(order, id)
            &&& reply.subrange(8, 10) == u16_bytes(order, 0)
            &&& reply.subrange(10, 12) == u16_bytes(order, data.len() as u16)
            &&& reply.subrange(12, 12 + data.len() as int) == data
            &&& forall|i: int| 12 + data.len() <= i < 4376 ==> #[trigger] reply[i] == 0
            &&& done.subrange(0, 4) == u32_bytes(order, 14)
            &&& done.subrange(4, 8) == u32_bytes(order, id)
            &&& forall|i: int| 8 <= i < 4376 ==> #[trigger] done[i] == 0
            &&& end.subrange(0, 4) == u32_bytes(order, 1)
            &&& forall|i: int| 4 <= i < 4376 ==> #[trigger] end[i] == 0
        }),
{
    let input = input_layout(order, data);
    let reply = get_reply_layout(order, id, data);
    let done = set_reply_layout(order, id);
    let end = destroy_layout(order);
    assert(input.subrange(0, 4) =~= u32_bytes(order, 12));
    assert(input.subrange(4, 6) =~= u16_bytes(order, data.len() as u16));
    assert(input.subrange(6, 6 + data.len() as int) =~= data);
    assert(reply.subrange(0, 4) =~= u32_bytes(order, 10));
    assert(reply.subrange(4, 8) =~= u32_bytes(order, id));
    assert(reply.subrange(8, 10) =~= u16_bytes(order, 0));
    assert(reply.subrange(10, 12) =~= u16_bytes(order, data.len() as u16));
    assert(reply.subrange(12, 12 + data.len() as int) =~= data);
    assert(done.subrange(0, 4) =~= u32_bytes(order, 14));
    assert(done.subrange(4, 8) =~= u32_bytes(order, id));
    assert(end.subrange(0, 4) =~= u32_bytes(order, 1));
}

/// Which event an event of the kernel is, from the number it begins with; a
/// request brings its own number and, where a report is wanted, which one.
pub proof fn law_events_are_told_apart(order: ByteOrder, buf: Seq<u8>, kind: u32, id: u32)
    requires
        u32_value(order, buf.subrange(0, 4)) == kind,
        u32_value(order, buf.subrange(4, 8)) == id,
    ensures
        kind == 2 ==> decoded(order, buf) == Event::Start,
        kind == 3 ==> decoded(order, buf) == Event::Stop,
        kind == 4 ==> decoded(order, buf) == Event::Open,
        kind == 5 ==> decoded(order, buf) == Event::Close,
        kind == 6 ==> decoded(order, buf) == Event::Output,
        kind == 9 ==> decoded(order, buf) == (Event::GetReport { id, rnum: buf[8] }),
        kind == 13 ==> decoded(order, buf) == (Event::SetReport { id }),
        !(2 <= kind <= 6 || kind == 9 || kind == 13) ==> decoded(order, buf) == Event::Other(kind),
{
}

/// A battery report says the level it is given, and a hundred for anything
/// above.
pub proof fn law_report_says_the_level(percent: u8, charging: bool)
    ensures
        report_bytes(percent, charging) == seq![
            1u8,
            if percent > 100 {
                100u8
            } else {
                percent
            },
            if charging {
                1u8
            } else {
                0u8
            },
        ],
{
}

/// The power supply of a device is named after it, with nothing behind the name
/// or a hyphen and whatever follows; no other name is one.
pub proof fn law_supply_is_named_after_its_device(name: Seq<char>, uniq: Seq<char>, rest: Seq<char>)
    ensures
        is_supply_of("hid-"@ + uniq + "-battery"@ + rest, uniq) <==> rest.len() == 0 || rest[0]
            == '-',
        is_supply_of(name, uniq) ==> name == "hid-"@ + uniq + "-battery"@ + name.skip(
            ("hid-"@ + uniq + "-battery"@).len() as int,
        ),
{
    let stem = "hid-"@ + uniq + "-battery"@;
    text::law_prefix_stands_in_front(stem, rest, name);
    if rest.len() > 0 {
        assert((stem + rest)[stem.len() as int] == rest[0]);
    }
}

} // verus!
