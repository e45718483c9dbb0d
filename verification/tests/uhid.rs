//! The events exchanged with `/dev/uhid`.

use headset_battery_indicator::uhid::{
    battery_report, decode_event, find_power_supply, get_u32, order_of_one, put_str, put_u16,
    put_u32, ByteOrder, CreateParams, Event, ReadOutcome, Uhid, UhidError, BUS_VIRTUAL, DEV_UHID,
    EVENT_SIZE, LEN_NAME, OFF_CREATE_BUS, OFF_CREATE_NAME, OFF_CREATE_PHYS, OFF_CREATE_PRODUCT,
    OFF_CREATE_RD_DATA, OFF_CREATE_RD_SIZE, OFF_CREATE_UNIQ, OFF_CREATE_VENDOR, OFF_GET_REPORT_ID,
    OFF_GET_REPORT_RNUM, OFF_TYPE, RD_DATA_MAX, REPORT_DESCRIPTOR, REPORT_ID, REPORT_LEN,
    UHID_CREATE2, UHID_DESTROY, UHID_GET_REPORT, UHID_GET_REPORT_REPLY, UHID_INPUT2,
    UHID_SET_REPORT, UHID_SET_REPORT_REPLY,
};

/// A handle on nothing, in the machine's own byte order.
fn handle() -> Uhid<()> {
    Uhid::from_fd(())
}

fn u16_at(event: &[u8], offset: usize) -> u16 {
    u16::from_ne_bytes([event[offset], event[offset + 1]])
}

fn u32_at(event: &[u8], offset: usize) -> u32 {
    u32::from_ne_bytes([
        event[offset],
        event[offset + 1],
        event[offset + 2],
        event[offset + 3],
    ])
}

#[test]
fn event_size_matches_the_kernel_abi() {
    // 4 (type) + 128 (name) + 64 (phys) + 64 (uniq) + 2 + 2 + 4 * 4 + 4096.
    assert_eq!(EVENT_SIZE, 4376);
    assert_eq!(OFF_CREATE_RD_DATA, 280);
}

#[test]
fn descriptor_declares_battery_charging_and_one_input_bit() {
    // Battery Strength on the Generic Device Controls page.
    assert!(REPORT_DESCRIPTOR
        .windows(4)
        .any(|w| w == [0x05, 0x06, 0x09, 0x20]));
    // Charging on the Battery System page.
    assert!(REPORT_DESCRIPTOR
        .windows(4)
        .any(|w| w == [0x05, 0x85, 0x09, 0x44]));
    // A vendor page the kernel does not special-case, so its one-bit field
    // is mapped to BTN_MISC and the input device survives.
    assert!(REPORT_DESCRIPTOR
        .windows(3)
        .any(|w| w == [0x06, 0x21, 0xff]));
    // An input application at the top, or hidinput_connect() walks away
    // before registering anything - battery included.
    assert_eq!(
        &REPORT_DESCRIPTOR[..6],
        [0x05, 0x0c, 0x09, 0x01, 0xa1, 0x01]
    );
    assert!(REPORT_DESCRIPTOR.len() <= RD_DATA_MAX);
    // 8 battery bits + 1 charging bit + 1 vendor bit + 6 padding bits.
    assert_eq!(REPORT_LEN, 3);
}

#[test]
fn create_event_is_laid_out_where_the_kernel_expects() {
    let order = handle().order;
    let mut event = vec![0u8; EVENT_SIZE];
    put_u32(order, &mut event, OFF_TYPE, UHID_CREATE2);
    put_str(&mut event, OFF_CREATE_NAME, LEN_NAME, "Audeze Maxwell");
    put_u16(order, &mut event, OFF_CREATE_BUS, BUS_VIRTUAL);
    put_u32(order, &mut event, OFF_CREATE_VENDOR, 0x3329);

    assert_eq!(get_u32(order, &event, OFF_TYPE), UHID_CREATE2);
    assert_eq!(
        &event[OFF_CREATE_NAME..OFF_CREATE_NAME + 14],
        b"Audeze Maxwell"
    );
    assert_eq!(event[OFF_CREATE_NAME + 14], 0, "name must stay NUL padded");
    assert_eq!(get_u32(order, &event, OFF_CREATE_VENDOR), 0x3329);
}

#[test]
fn long_names_are_truncated_on_a_char_boundary() {
    let mut buf = vec![0u8; 8];
    put_str(&mut buf, 0, 8, "ééééééééé");
    // Seven bytes are available; the fourth 'é' would straddle the cut.
    assert_eq!(&buf, b"\xc3\xa9\xc3\xa9\xc3\xa9\0\0");
    assert!(std::str::from_utf8(&buf[..6]).is_ok());
}

#[test]
fn the_power_supply_is_found_under_both_kernel_naming_schemes() {
    let names = vec![
        // A different device whose uniq merely starts the same way.
        "hid-headset-3329-4b18-batteryx".to_owned(),
        "hid-headset-3329-4b18-battery-1".to_owned(),
        "hid-other-battery".to_owned(),
    ];
    assert_eq!(find_power_supply(&names, "headset-3329-4b18"), Some(1));
    assert_eq!(find_power_supply(&names, "other"), Some(2));
    assert_eq!(find_power_supply(&names, "absent"), None);
}

#[test]
fn battery_report_clamps_and_flags() {
    assert_eq!(battery_report(42, false), [REPORT_ID, 42, 0]);
    assert_eq!(battery_report(200, true), [REPORT_ID, 100, 1]);
}

#[test]
fn get_report_requests_are_decoded() {
    let order = handle().order;
    let mut buf = vec![0u8; EVENT_SIZE];
    put_u32(order, &mut buf, OFF_TYPE, UHID_GET_REPORT);
    put_u32(order, &mut buf, OFF_GET_REPORT_ID, 7);
    buf[OFF_GET_REPORT_RNUM] = REPORT_ID;

    assert_eq!(
        decode_event(order, &buf),
        Event::GetReport {
            id: 7,
            rnum: REPORT_ID
        }
    );
}

#[test]
fn every_event_is_decoded() {
    let order = handle().order;
    let decode = |kind: u32| {
        let mut buf = vec![0u8; EVENT_SIZE];
        put_u32(order, &mut buf, OFF_TYPE, kind);
        put_u32(order, &mut buf, 4, 0x0102_0304);
        decode_event(order, &buf)
    };
    assert_eq!(decode(2), Event::Start);
    assert_eq!(decode(3), Event::Stop);
    assert_eq!(decode(4), Event::Open);
    assert_eq!(decode(5), Event::Close);
    assert_eq!(decode(6), Event::Output);
    assert_eq!(
        decode(UHID_SET_REPORT),
        Event::SetReport { id: 0x0102_0304 }
    );
    assert_eq!(decode(99), Event::Other(99));
}

#[test]
fn numbers_are_kept_in_the_machine_s_own_order() {
    let order = handle().order;
    let mut buf = vec![0u8; 8];
    put_u16(order, &mut buf, 1, 0x0102);
    assert_eq!(buf[1..3], 0x0102_u16.to_ne_bytes());
    put_u32(order, &mut buf, 3, 0x0304_0506);
    assert_eq!(buf[3..7], 0x0304_0506_u32.to_ne_bytes());
    assert_eq!(buf[0], 0);
    assert_eq!(buf[7], 0);
    assert_eq!(order_of_one(1_u16.to_ne_bytes()), order);
    assert_eq!(order_of_one([1, 0]), ByteOrder::Little);
    assert_eq!(order_of_one([0, 1]), ByteOrder::Big);
}

#[test]
fn numbers_read_back_either_way_round() {
    for order in [ByteOrder::Little, ByteOrder::Big] {
        let mut buf = vec![0xaa_u8; 12];
        put_u32(order, &mut buf, 5, 0x0102_0304);
        assert_eq!(get_u32(order, &buf, 5), 0x0102_0304);
    }
    let mut buf = vec![0u8; 6];
    put_u16(ByteOrder::Big, &mut buf, 0, 0x0102);
    put_u32(ByteOrder::Big, &mut buf, 2, 0x0304_0506);
    assert_eq!(buf, [1, 2, 3, 4, 5, 6]);
    put_u16(ByteOrder::Little, &mut buf, 0, 0x0102);
    put_u32(ByteOrder::Little, &mut buf, 2, 0x0304_0506);
    assert_eq!(buf, [2, 1, 6, 5, 4, 3]);
}

#[test]
fn a_device_is_created_with_everything_in_its_place() {
    let params = CreateParams {
        name: "Test Headset".to_owned(),
        phys: "headset-battery-indicator/test".to_owned(),
        uniq: "hbi-test".to_owned(),
        vendor: 0x3329,
        product: 0x4b18,
    };
    let event = handle().create(&params, &REPORT_DESCRIPTOR).unwrap();
    assert_eq!(event.len(), EVENT_SIZE);
    assert_eq!(u32_at(&event, 0), UHID_CREATE2);
    assert_eq!(&event[OFF_CREATE_NAME..OFF_CREATE_NAME + 13], b"Test Headset\0");
    assert_eq!(
        &event[OFF_CREATE_PHYS..OFF_CREATE_PHYS + 31],
        b"headset-battery-indicator/test\0"
    );
    assert_eq!(&event[OFF_CREATE_UNIQ..OFF_CREATE_UNIQ + 9], b"hbi-test\0");
    assert_eq!(u16_at(&event, OFF_CREATE_RD_SIZE), 45);
    assert_eq!(u16_at(&event, OFF_CREATE_BUS), 6);
    assert_eq!(u32_at(&event, OFF_CREATE_VENDOR), 0x3329);
    assert_eq!(u32_at(&event, OFF_CREATE_PRODUCT), 0x4b18);
    assert_eq!(
        event[OFF_CREATE_RD_DATA..OFF_CREATE_RD_DATA + 45],
        REPORT_DESCRIPTOR
    );
    assert!(event[OFF_CREATE_RD_DATA + 45..].iter().all(|byte| *byte == 0));

    assert!(handle().create(&params, &[0u8; RD_DATA_MAX]).is_ok());
    assert_eq!(
        handle().create(&params, &[0u8; RD_DATA_MAX + 1]),
        Err(UhidError::DescriptorTooLarge)
    );
}

#[test]
fn reports_and_replies_are_framed() {
    let uhid = handle();
    let event = uhid.send_input(&[1, 42, 0]).unwrap();
    assert_eq!(event.len(), EVENT_SIZE);
    assert_eq!(u32_at(&event, 0), UHID_INPUT2);
    assert_eq!(u16_at(&event, 4), 3);
    assert_eq!(event[6..9], [1, 42, 0]);
    assert!(event[9..].iter().all(|byte| *byte == 0));

    let event = uhid.reply_get_report(7, &[1, 42, 1]).unwrap();
    assert_eq!(u32_at(&event, 0), UHID_GET_REPORT_REPLY);
    assert_eq!(u32_at(&event, 4), 7);
    assert_eq!(u16_at(&event, 8), 0);
    assert_eq!(u16_at(&event, 10), 3);
    assert_eq!(event[12..15], [1, 42, 1]);

    let event = uhid.reply_set_report(9);
    assert_eq!(u32_at(&event, 0), UHID_SET_REPORT_REPLY);
    assert_eq!(u32_at(&event, 4), 9);
    assert_eq!(u16_at(&event, 8), 0);

    let event = uhid.destroy();
    assert_eq!(u32_at(&event, 0), UHID_DESTROY);
    assert!(event[4..].iter().all(|byte| *byte == 0));

    assert!(uhid.send_input(&[0u8; 4096]).is_ok());
    assert_eq!(
        uhid.send_input(&[0u8; 4097]),
        Err(UhidError::InputTooLarge)
    );
    assert!(uhid.reply_get_report(1, &[0u8; 4096]).is_ok());
    assert_eq!(
        uhid.reply_get_report(1, &[0u8; 4097]),
        Err(UhidError::ReplyTooLarge)
    );
}

#[test]
fn the_kernel_gets_an_answer_when_it_waits_for_one() {
    let uhid = handle();
    assert_eq!(
        uhid.answer(Event::GetReport { id: 7, rnum: 1 }, 42, true),
        uhid.reply_get_report(7, &[1, 42, 1]).ok()
    );
    assert_eq!(
        uhid.answer(Event::SetReport { id: 8 }, 42, true),
        Some(uhid.reply_set_report(8))
    );
    assert_eq!(uhid.answer(Event::Start, 42, true), None);
    assert_eq!(uhid.answer(Event::Other(42), 42, true), None);
}

#[test]
fn reads_that_bring_nothing_are_not_events() {
    let uhid = handle();
    let mut buf = vec![0u8; EVENT_SIZE];
    put_u32(uhid.order, &mut buf, OFF_TYPE, 2);
    let read = |outcome: ReadOutcome<&'static str>| uhid.read_event(outcome, &buf);
    assert_eq!(read(ReadOutcome::Read(0)), Ok(None));
    assert_eq!(read(ReadOutcome::Again), Ok(None));
    assert_eq!(read(ReadOutcome::Interrupted), Ok(None));
    assert_eq!(read(ReadOutcome::Read(4376)), Ok(Some(Event::Start)));
    assert_eq!(read(ReadOutcome::Failed("gone")), Err("gone"));
}

#[test]
fn short_writes_are_errors() {
    let uhid = handle();
    let event = uhid.destroy();
    assert_eq!(uhid.write_event(&event, EVENT_SIZE), Ok(()));
    let error = uhid.write_event(&event, 12).unwrap_err();
    assert_eq!(
        error,
        UhidError::ShortWrite {
            written: 12,
            expected: 4376
        }
    );
    assert_eq!(
        error.message(),
        "short write to uhid: 12 of 4376 bytes"
    );
    assert_eq!(
        UhidError::DescriptorTooLarge.message(),
        "report descriptor exceeds HID_MAX_DESCRIPTOR_SIZE"
    );
    assert_eq!(
        UhidError::InputTooLarge.message(),
        "input report exceeds UHID_DATA_MAX"
    );
    assert_eq!(
        UhidError::ReplyTooLarge.message(),
        "report reply exceeds UHID_DATA_MAX"
    );
    assert_eq!(DEV_UHID, "/dev/uhid");
}
