//! The native reader.

use headset_battery_indicator::headset::{BatteryState, Headset};
use headset_battery_indicator::maxwell::dongle::{
    discover, headset_is_wired, parse_uevent, Dongle, HidrawEntry, UsbEntry, BUS_USB,
};
use headset_battery_indicator::maxwell::frame::{
    battery_request, fresh, messages, Message, FRESH_LEN_OFFSET, MSG_SIZE, PAYLOAD_OFFSET,
    REPLY_REPORT_ID,
};
use headset_battery_indicator::maxwell::listening::{ListenAction, Waiting};
use headset_battery_indicator::maxwell::reader::{
    look_again, DongleAction, DongleEvent, Poll, Reader,
};
use headset_battery_indicator::maxwell::session::{
    Ask, Link, Session, LISTEN_FIRST_SECS, MAX_UNANSWERED,
};
use headset_battery_indicator::maxwell::supports;
use headset_battery_indicator::maxwell::watch::{ErrorWatch, Loudness};
use headset_battery_indicator::time::{Duration, Instant};

/// Captured from a Maxwell Xbox dongle right after a battery request, with
/// the headset at 92%. Sixteen fresh bytes - the acknowledgement and the
/// answer - followed by what earlier exchanges left behind, including an
/// older answer that says 91%.
const FRESH_FRAME: [u8; MSG_SIZE] = [
    0x07, 0x10, 0x80, 0x05, 0x5b, 0x03, 0x00, 0xd6, 0x0c, 0x00, 0x05, 0x5d, 0x05, 0x00, 0xd6, 0x0c,
    0x00, 0x00, 0x5c, 0x07, 0x31, 0x2e, 0x30, 0x2e, 0x31, 0x2e, 0x37, 0x34, 0x05, 0x00, 0xd6, 0x0c,
    0x00, 0x00, 0x5b, 0x05, 0x5b, 0x03, 0x00, 0xd6, 0x0c, 0x00, 0x05, 0x5d, 0x05, 0x00, 0xd6, 0x0c,
    0x00, 0x00, 0x5b, 0x00, 0x0c, 0x00, 0x00, 0x5b, 0x05, 0x5b, 0x03, 0x00, 0xd6, 0x0c,
];

/// The same report fetched a second time: nothing new, so the count is
/// zero, yet the buffer still holds every old answer.
const STALE_FRAME: [u8; MSG_SIZE] = [
    0x07, 0x00, 0x80, 0x05, 0x5b, 0x03, 0x00, 0xd6, 0x0c, 0x00, 0x05, 0x5d, 0x05, 0x00, 0xd6, 0x0c,
    0x00, 0x00, 0x5c, 0x07, 0x31, 0x2e, 0x30, 0x2e, 0x31, 0x2e, 0x37, 0x34, 0x05, 0x00, 0xd6, 0x0c,
    0x00, 0x00, 0x5b, 0x05, 0x5b, 0x03, 0x00, 0xd6, 0x0c, 0x00, 0x05, 0x5d, 0x05, 0x00, 0xd6, 0x0c,
    0x00, 0x00, 0x5b, 0x00, 0x0c, 0x00, 0x00, 0x5b, 0x05, 0x5b, 0x03, 0x00, 0xd6, 0x0c,
];

/// A frame holding `stream` as its only fresh content.
fn frame_with(stream: &[u8]) -> [u8; MSG_SIZE] {
    let mut frame = [0u8; MSG_SIZE];
    frame[0] = REPLY_REPORT_ID;
    frame[FRESH_LEN_OFFSET] = u8::try_from(stream.len()).unwrap();
    frame[PAYLOAD_OFFSET..PAYLOAD_OFFSET + stream.len()].copy_from_slice(stream);
    frame
}

fn hex(text: &str) -> Vec<u8> {
    text.split_whitespace()
        .map(|byte| u8::from_str_radix(byte, 16).unwrap())
        .collect()
}

/// What the dongle said, unprompted, when the headset was switched off.
const POWER_OFF: &str =
    "05 5d 0e 00 b1 2c 00 02 00 01 8d 90 9b 67 89 c2 ff 00 05 5c 03 00 80 2c 01";

/// And when it was switched back on: the link event, then the level.
const POWER_ON: &str = "05 5c 03 00 80 2c 01 05 5d 0e 00 b1 2c 00 02 01 01 8d 90 9b 67 89 \
                        c2 80 01 05 5c 03 00 80 2c 03 05 5b 03 00 d6 0c 00 05 5d 05 00 d6 \
                        0c 00 00 63";

#[test]
fn reads_the_level_out_of_a_real_frame() {
    assert_eq!(messages(&FRESH_FRAME), [Message::Battery(92)]);
}

#[test]
fn leftovers_from_earlier_exchanges_are_not_an_answer() {
    // Without the fresh-byte count this frame reads 92% for ever, which is
    // what HeadsetControl shows for a headset that is switched off.
    assert_eq!(messages(&STALE_FRAME), []);
}

#[test]
fn the_dongle_announces_the_headset_going_and_coming() {
    assert_eq!(
        messages(&frame_with(&hex(POWER_OFF))),
        [Message::Link(false)]
    );
    assert_eq!(
        messages(&frame_with(&hex(POWER_ON))),
        [Message::Link(true), Message::Battery(99)]
    );
}

#[test]
fn an_acknowledgement_is_not_mistaken_for_an_answer() {
    // The acknowledgement (type 5b) echoes `d6 0c` too. Followed by
    // padding it reads `d6 0c 00 00 00`, which a looser match turns into a
    // bogus 0% - the glitch HeadsetControl produces.
    let frame = frame_with(&hex("05 5b 03 00 d6 0c 00 00 00 00"));
    assert_eq!(messages(&frame), []);
}

#[test]
fn nonsense_is_ignored() {
    assert_eq!(messages(&[0u8; MSG_SIZE]), []);
    assert_eq!(messages(&[]), []);
    assert_eq!(messages(&[REPLY_REPORT_ID]), []);
    // A level above 100.
    assert_eq!(
        messages(&frame_with(&hex("05 5d 05 00 d6 0c 00 00 ff"))),
        []
    );
    assert_eq!(
        messages(&frame_with(&hex("05 5d 05 00 d6 0c 00 00 64"))),
        [Message::Battery(100)]
    );
    // An answer cut off before its level byte.
    assert_eq!(messages(&frame_with(&hex("05 5d 05 00 d6 0c 00 00"))), []);
}

#[test]
fn a_fresh_count_larger_than_the_frame_does_not_panic() {
    let mut frame = FRESH_FRAME;
    frame[FRESH_LEN_OFFSET] = 0xff;
    // Clamped to the buffer: everything then counts, leftovers included.
    assert_eq!(messages(&frame).last(), Some(&Message::Battery(91)));
}

#[test]
fn a_message_cut_off_by_the_end_of_the_buffer_is_skipped() {
    // A link event of fourteen payload bytes, of which only five are there.
    let cut = [
        0x07, 0x09, 0x80, 0x05, 0x5d, 0x0e, 0x00, 0xb1, 0x2c, 0x00, 0x02, 0x00,
    ];
    assert_eq!(messages(&cut), []);
    // One byte short, and whole.
    let event = hex("05 5d 0e 00 b1 2c 00 02 01 01 8d 90 9b 67 89 c2 80 01");
    assert_eq!(messages(&frame_with(&event[..17])), []);
    assert_eq!(messages(&frame_with(&event)), [Message::Link(true)]);
    // What is announced is counted within the fresh part, not the buffer.
    let mut frame = frame_with(&event);
    frame[FRESH_LEN_OFFSET] = 17;
    assert_eq!(messages(&frame), []);
}

#[test]
fn only_what_was_written_since_is_fresh() {
    assert_eq!(fresh(&[7, 2, 0x80, 1, 2, 3]), [1, 2]);
    assert_eq!(fresh(&[7, 9, 0x80, 1, 2, 3]), [1, 2, 3]);
    assert_eq!(fresh(&[7, 9, 0x80]), []);
    assert_eq!(fresh(&[]), []);
}

#[test]
fn the_request_fills_a_whole_report() {
    let request = battery_request();
    assert_eq!(request.len(), MSG_SIZE);
    assert_eq!(
        request[..9],
        [0x06, 0x07, 0x80, 0x05, 0x5a, 0x03, 0x00, 0xd6, 0x0c]
    );
    assert!(request[9..].iter().all(|byte| *byte == 0));
}

const DAY: u64 = 86_400;

/// A moment late enough to look back from.
fn now() -> Instant {
    Instant {
        nanos: 10 * u128::from(DAY) * 1_000_000_000,
    }
}

fn ago(seconds: u64) -> Option<Instant> {
    now().checked_sub(Duration::from_secs(seconds))
}

fn session(link: Link, level: Option<u8>, asked: Option<Instant>) -> Session {
    Session {
        product_id: 0x4b18,
        link,
        level,
        sample: None,
        opened_at: now(),
        asked_at: asked,
        asks: u32::from(asked.is_some()),
        pending: false,
        unanswered: 0,
    }
}

fn listen_first() -> Duration {
    Duration::from_secs(LISTEN_FIRST_SECS)
}

#[test]
fn a_headset_that_is_gone_is_asked_once_at_most() {
    // The rule that keeps the dongle alive: once a session has asked, no
    // other request goes out while the headset is known to be off, however
    // long that lasts and however short the interval.
    let long_ago = ago(86_400);
    let now = now();
    let minute = Duration::from_secs(60);
    let zero = Duration::zero();

    assert!(!session(Link::Down, None, long_ago).should_ask(now, minute, zero));
    assert!(!session(Link::Down, None, long_ago).should_ask(now, zero, zero));
    // The one question a session is allowed waits until it has listened.
    assert!(!session(Link::Down, None, None).should_ask(now, minute, listen_first()));
    assert!(session(Link::Down, None, None).should_ask(now, minute, zero));
}

#[test]
fn a_linked_headset_is_asked_once_per_interval() {
    let now = now();
    let minute = Duration::from_secs(60);
    let zero = Duration::zero();

    assert!(session(Link::Up, Some(90), None).should_ask(now, minute, zero));
    assert!(!session(Link::Up, Some(90), ago(30)).should_ask(now, minute, zero));
    assert!(session(Link::Up, Some(90), ago(61)).should_ask(now, minute, zero));
}

#[test]
fn a_silent_dongle_is_asked_a_few_times_and_never_again() {
    let now = now();
    let minute = Duration::from_secs(60);
    let zero = Duration::zero();

    // The first question waits until the session has listened...
    assert!(!session(Link::Unknown, None, None).should_ask(now, minute, listen_first()));
    assert!(session(Link::Unknown, None, None).should_ask(now, minute, zero));

    // ...a lost request is made up for, since one does get lost at times...
    let mut asked_once = session(Link::Unknown, None, ago(5));
    assert!(!asked_once.should_ask(now, minute, zero));
    asked_once.asked_at = ago(11);
    assert!(asked_once.should_ask(now, minute, zero));

    let mut asked_twice = session(Link::Unknown, None, ago(31));
    asked_twice.asks = 2;
    assert!(asked_twice.should_ask(now, minute, zero));

    // ...and then it stops, however long the silence lasts: a request every
    // ten seconds to a headset that was off is what wedged the dongle.
    let mut asked_out = session(Link::Unknown, None, ago(86_400));
    asked_out.asks = 3;
    assert!(!asked_out.should_ask(now, minute, zero));
    assert!(!asked_out.should_ask(now, zero, zero));
}

#[test]
fn a_linked_headset_that_stops_answering_is_left_alone() {
    // Second line of defence: requests must not pile up behind a headset
    // that is announced but mute.
    let mut session = session(Link::Up, Some(90), None);
    let now = now();

    for _ in 0..=MAX_UNANSWERED {
        assert_eq!(session.link, Link::Up);
        if session.ask(now) == Ask::Send {
            session.asked(now);
        }
    }
    // It gave up: no more asking until the dongle speaks again.
    assert_eq!(session.link, Link::Unknown);
    assert!(!session.pending);
    assert!(!session.should_ask(now, Duration::from_secs(60), Duration::zero()));
}

#[test]
fn the_battery_state_follows_the_link() {
    assert_eq!(
        session(Link::Down, Some(80), None).battery(false),
        BatteryState::Disconnected
    );
    assert_eq!(
        session(Link::Up, Some(80), None).battery(false),
        BatteryState::Discharging(80)
    );
    assert_eq!(
        session(Link::Up, Some(80), None).battery(true),
        BatteryState::Charging(Some(80))
    );
    assert_eq!(
        session(Link::Up, None, None).battery(false),
        BatteryState::Unavailable
    );
    assert_eq!(
        session(Link::Unknown, None, None).battery(false),
        BatteryState::Unavailable
    );
}

#[test]
fn a_session_takes_in_what_the_dongle_says() {
    let mut heard = Session::open(0x4b18, Link::Unknown, now());
    heard.listen(&frame_with(&hex(POWER_ON)), 4);
    assert_eq!(heard.link, Link::Up);
    assert_eq!(heard.level, Some(99));
    assert_eq!(heard.sample, Some(4));
    heard.listen(&STALE_FRAME, 5);
    assert_eq!(heard.level, Some(99));
    assert_eq!(heard.sample, Some(4));
    heard.listen(&frame_with(&hex(POWER_OFF)), 6);
    assert_eq!(heard.link, Link::Down);
    assert_eq!(heard.level, None);
    assert_eq!(heard.sample, None);
}

#[test]
fn parses_the_ids_out_of_a_uevent() {
    let uevent = "DRIVER=hid-generic\nHID_ID=0003:00003329:00004B18\n\
                  HID_NAME=Audeze LLC Audeze Maxwell XBOX Dongle\nHID_PHYS=usb-1/input0\n";
    assert_eq!(
        parse_uevent(uevent),
        Some((
            BUS_USB,
            0x3329,
            0x4b18,
            "Audeze LLC Audeze Maxwell XBOX Dongle".to_owned()
        ))
    );
    assert_eq!(parse_uevent("DRIVER=hid-generic\n"), None);
    assert_eq!(parse_uevent("HID_ID=garbage\n"), None);
}

#[test]
fn a_uevent_without_a_name_is_still_a_dongle() {
    assert_eq!(
        parse_uevent("HID_ID=0003:00003329:00004B19"),
        Some((BUS_USB, 0x3329, 0x4b19, "Audeze Maxwell".to_owned()))
    );
    // IDs that do not fit, and a missing one.
    assert_eq!(parse_uevent("HID_ID=0003:00013329:00004B19"), None);
    assert_eq!(parse_uevent("HID_ID=0003:00003329"), None);
}

fn hidraw(name: &str, uevent: &str) -> HidrawEntry {
    HidrawEntry {
        name: name.to_owned(),
        uevent: Some(uevent.to_owned()),
    }
}

#[test]
fn our_own_virtual_battery_is_not_mistaken_for_a_dongle() {
    let found = discover(&vec![
        // The real dongle, on USB.
        hidraw(
            "hidraw10",
            "HID_ID=0003:00003329:00004B18\nHID_NAME=Audeze Dongle\n",
        ),
        // The virtual battery: same IDs, BUS_VIRTUAL.
        hidraw(
            "hidraw17",
            "HID_ID=0006:00003329:00004B18\nHID_NAME=Audeze Maxwell\n",
        ),
        // Somebody else's device.
        hidraw(
            "hidraw2",
            "HID_ID=0003:00001532:000000A4\nHID_NAME=Razer Dock\n",
        ),
    ]);
    assert_eq!(found.len(), 1, "{found:?}");
    assert_eq!(found[0].node, "/dev/hidraw10");
}

#[test]
fn dongles_are_listed_by_node() {
    let uevent = "HID_ID=0003:00003329:00004B18\n";
    let unreadable = HidrawEntry {
        name: "hidraw0".to_owned(),
        uevent: None,
    };
    let found = discover(&vec![
        hidraw("hidraw9", uevent),
        unreadable,
        hidraw("hidraw10", uevent),
    ]);
    let nodes: Vec<&str> = found.iter().map(|dongle| dongle.node.as_str()).collect();
    assert_eq!(nodes, ["/dev/hidraw10", "/dev/hidraw9"]);
}

fn plugged(vendor: &str, product: &str) -> UsbEntry {
    UsbEntry {
        vendor: Some(format!("{vendor}\n")),
        product: Some(format!("{product}\n")),
    }
}

#[test]
fn a_headset_on_a_cable_is_what_charging_looks_like() {
    // The dongle alone, and somebody else's device: nothing is charging.
    // Interfaces and hubs have no idVendor file at all.
    let mut devices = vec![
        plugged("3329", "4b18"),
        plugged("1532", "00a4"),
        UsbEntry {
            vendor: None,
            product: None,
        },
    ];
    assert!(!headset_is_wired(&devices));

    // The headset itself shows up once the cable is in.
    devices.push(plugged("3329", "4b1e"));
    assert!(headset_is_wired(&devices));

    devices.pop();
    assert!(!headset_is_wired(&devices));
    assert!(!headset_is_wired(&vec![]));
}

#[test]
fn only_maxwell_dongles_are_claimed() {
    assert!(supports(0x3329, 0x4b18));
    assert!(supports(0x3329, 0x4b19));
    assert!(!supports(0x3329, 0x0001));
    assert!(!supports(0x1038, 0x4b18));
}

#[test]
fn discovery_survives_a_missing_sysfs() {
    assert!(discover(&vec![]).is_empty());
}

fn dongle(node: &str) -> Dongle {
    Dongle {
        node: node.to_owned(),
        product: "Audeze Dongle".to_owned(),
        product_id: 0x4b18,
    }
}

fn poll_at(seconds: u64) -> Poll {
    Poll::regular(
        Instant {
            nanos: u128::from(seconds) * 1_000_000_000,
        },
        Duration::from_secs(60),
        false,
    )
}

fn report(action: DongleAction) -> Headset {
    match action {
        DongleAction::Done { headset, .. } => headset,
        other => panic!("{other:?}"),
    }
}

#[test]
fn a_poll_opens_listens_and_asks() {
    let mut reader: Reader<u8> = Reader::new();
    let dongle = dongle("/dev/hidraw3");
    let poll = poll_at(100);
    assert_eq!(
        reader.advance(&dongle, DongleEvent::Turn, &poll),
        DongleAction::Open
    );
    assert_eq!(
        reader.advance(&dongle, DongleEvent::Opened { file: 3, at: poll.now }, &poll),
        DongleAction::Fetch
    );
    assert_eq!(reader.file("/dev/hidraw3"), Some(&3));
    // Nothing was said yet, and it is too early to ask.
    let found = report(reader.advance(
        &dongle,
        DongleEvent::Report(STALE_FRAME.to_vec()),
        &poll,
    ));
    assert_eq!(found.name, "Audeze Maxwell");
    assert_eq!(found.product, "Audeze Dongle");
    assert_eq!(found.vendor_id, 0x3329);
    assert_eq!(found.battery, BatteryState::Unavailable);

    // Three seconds later the question is due.
    let later = poll_at(103);
    assert_eq!(
        reader.advance(&dongle, DongleEvent::Turn, &later),
        DongleAction::Fetch
    );
    assert_eq!(
        reader.advance(
            &dongle,
            DongleEvent::Report(STALE_FRAME.to_vec()),
            &later
        ),
        DongleAction::Send(battery_request())
    );
    let found = report(reader.advance(&dongle, DongleEvent::Sent, &later));
    assert_eq!(found.battery, BatteryState::Unavailable);

    // The answer is there at the next poll, and keeps its number.
    let answered = poll_at(104);
    assert_eq!(
        reader.advance(&dongle, DongleEvent::Turn, &answered),
        DongleAction::Fetch
    );
    let found = report(reader.advance(
        &dongle,
        DongleEvent::Report(FRESH_FRAME.to_vec()),
        &answered,
    ));
    assert_eq!(found.battery, BatteryState::Discharging(92));
    let sample = found.sample;
    assert!(sample.is_some());
    let found = report(reader.advance(
        &dongle,
        DongleEvent::Report(STALE_FRAME.to_vec()),
        &answered,
    ));
    assert_eq!(found.battery, BatteryState::Discharging(92));
    assert_eq!(found.sample, sample);
    let found = report(reader.advance(
        &dongle,
        DongleEvent::Report(FRESH_FRAME.to_vec()),
        &answered,
    ));
    assert_ne!(found.sample, sample);
}

#[test]
fn listening_starts_when_the_node_is_open() {
    let mut reader: Reader<u8> = Reader::new();
    let dongle = dongle("/dev/hidraw3");
    let poll = poll_at(100);
    reader.advance(&dongle, DongleEvent::Turn, &poll);
    // Opening it took two seconds of the poll.
    let opened = DongleEvent::Opened {
        file: 3,
        at: poll_at(102).now,
    };
    reader.advance(&dongle, opened, &poll);
    assert_eq!(
        reader.session("/dev/hidraw3").unwrap().opened_at,
        poll_at(102).now
    );
    let silence = || DongleEvent::Report(STALE_FRAME.to_vec());
    report(reader.advance(&dongle, silence(), &poll));
    report(reader.advance(&dongle, silence(), &poll_at(104)));
    assert_eq!(
        reader.advance(&dongle, silence(), &poll_at(105)),
        DongleAction::Send(battery_request())
    );
}

#[test]
fn the_reader_says_when_it_gives_up_on_a_mute_headset() {
    let mut reader: Reader<u8> = Reader::new();
    let dongle = dongle("/dev/hidraw3");
    let poll = poll_at(100);
    reader.advance(&dongle, DongleEvent::Turn, &poll);
    reader.advance(&dongle, DongleEvent::Opened { file: 3, at: poll.now }, &poll);
    let linked = frame_with(&hex("05 5d 0e 00 b1 2c 00 02 01 01 8d 90 9b 67 89 c2 80 01"));
    let mut heard = linked.to_vec();
    for minute in 0..3 {
        let poll = poll_at(100 + 60 * minute);
        assert_eq!(
            reader.advance(&dongle, DongleEvent::Report(heard), &poll),
            DongleAction::Send(battery_request())
        );
        assert!(matches!(
            reader.advance(&dongle, DongleEvent::Sent, &poll),
            DongleAction::Done { gave_up: false, .. }
        ));
        heard = STALE_FRAME.to_vec();
    }
    assert!(matches!(
        reader.advance(&dongle, DongleEvent::Report(heard), &poll_at(280)),
        DongleAction::Done { gave_up: true, .. }
    ));
}

#[test]
fn what_a_dongle_said_survives_its_re_enumeration() {
    let mut reader: Reader<u8> = Reader::new();
    let before = dongle("/dev/hidraw3");
    let poll = poll_at(100);
    reader.advance(&before, DongleEvent::Turn, &poll);
    reader.advance(&before, DongleEvent::Opened { file: 3, at: poll.now }, &poll);
    let gone = report(reader.advance(
        &before,
        DongleEvent::Report(frame_with(&hex(POWER_OFF)).to_vec()),
        &poll,
    ));
    assert_eq!(gone.battery, BatteryState::Disconnected);

    // The node vanishes, and comes back under another number.
    reader.forget_missing(&vec![]);
    assert!(reader.session("/dev/hidraw3").is_none());
    let after = dongle("/dev/hidraw4");
    reader.forget_missing(&vec![after.clone()]);
    reader.advance(&after, DongleEvent::Turn, &poll);
    reader.advance(&after, DongleEvent::Opened { file: 4, at: poll.now }, &poll);
    assert_eq!(reader.session("/dev/hidraw4").unwrap().link, Link::Down);
    let still = report(reader.advance(
        &after,
        DongleEvent::Report(STALE_FRAME.to_vec()),
        &poll,
    ));
    assert_eq!(still.battery, BatteryState::Disconnected);
}

#[test]
fn a_dongle_that_fails_is_listed_and_opened_anew() {
    let mut reader: Reader<u8> = Reader::new();
    let dongle = dongle("/dev/hidraw3");
    let poll = poll_at(100);
    reader.advance(&dongle, DongleEvent::Turn, &poll);
    let found = report(reader.advance(&dongle, DongleEvent::Failed, &poll));
    assert_eq!(found.battery, BatteryState::Unavailable);
    assert!(found.supports_battery);

    reader.advance(&dongle, DongleEvent::Opened { file: 3, at: poll.now }, &poll);
    let found = report(reader.advance(&dongle, DongleEvent::Failed, &poll));
    assert_eq!(found.battery, BatteryState::Unavailable);
    assert!(reader.session("/dev/hidraw3").is_none());
    assert_eq!(
        reader.advance(&dongle, DongleEvent::Turn, &poll),
        DongleAction::Open
    );
}

#[test]
fn a_one_shot_reading_asks_once_and_then_listens() {
    let moment = poll_at(100).now;
    let first = Poll::one_shot(moment, true, false);
    let mut session = Session::open(0x4b18, Link::Unknown, moment);
    assert!(session.should_ask(first.now, first.interval, first.listen_first));
    session.asked(moment);
    session.listen(&FRESH_FRAME, 1);
    let second = Poll::one_shot(poll_at(200).now, false, false);
    assert!(!session.should_ask(second.now, second.interval, second.listen_first));
}

#[test]
fn a_one_shot_reading_waits_for_every_answer_but_not_for_ever() {
    let headset = |battery| Headset {
        name: "Audeze Maxwell".to_owned(),
        product: String::new(),
        vendor_id: 0x3329,
        product_id: 0x4b18,
        supports_battery: true,
        battery,
        sample: None,
    };
    let waiting = vec![
        headset(BatteryState::Discharging(90)),
        headset(BatteryState::Unavailable),
    ];
    assert!(look_again(&waiting, 0));
    assert!(look_again(&waiting, 9));
    assert!(!look_again(&waiting, 10));
    let done = vec![
        headset(BatteryState::Discharging(90)),
        headset(BatteryState::Disconnected),
    ];
    assert!(!look_again(&done, 0));
    assert!(!look_again(&vec![], 0));
}

#[test]
fn an_access_error_is_warned_about_once_it_has_lasted() {
    let second = |count: u64| poll_at(count).now;
    let message = || "/dev/hidraw3: Permission denied".to_owned();
    let mut watch = ErrorWatch::new();
    assert_eq!(
        watch.report_error(message(), true, second(100)),
        Loudness::Quiet
    );
    assert_eq!(
        watch.report_error(message(), true, second(104)),
        Loudness::Quiet
    );
    assert_eq!(
        watch.report_error(message(), true, second(105)),
        Loudness::Denied
    );
    assert_eq!(
        watch.report_error(message(), true, second(500)),
        Loudness::Quiet
    );
    assert!(watch.report_recovery());
    assert!(!watch.report_recovery());

    // A new error starts over, and one that did not last is not worth a line.
    assert_eq!(
        watch.report_error(message(), false, second(600)),
        Loudness::Quiet
    );
    assert_eq!(
        watch.report_error("other".to_owned(), false, second(605)),
        Loudness::Quiet
    );
    assert_eq!(
        watch.report_error("other".to_owned(), false, second(610)),
        Loudness::Unreachable
    );
    assert!(watch.report_recovery());
    watch.report_error(message(), false, second(700));
    assert!(!watch.report_recovery());
}

#[test]
fn a_poll_reports_every_dongle_once_in_order() {
    let uevent = "HID_ID=0003:00003329:00004B18\nHID_NAME=Dongle ";
    let entries = vec![
        hidraw("hidraw5", &format!("{uevent}five\n")),
        hidraw("hidraw3", &format!("{uevent}three\n")),
        hidraw("hidraw4", &format!("{uevent}four\n")),
        hidraw("hidraw2", "HID_ID=0003:00001532:000000A4\n"),
    ];
    let mut reader: Reader<u8> = Reader::new();
    // One dongle cannot be opened, one answers, and one does not say a word but
    // is asked at once.
    let poll = Poll::one_shot(poll_at(100).now, true, false);
    let mut listening = reader.start_poll(&entries, poll);
    assert_eq!(listening.waiting, Waiting::Turn);
    let mut event = DongleEvent::Turn;
    let mut steps = 0;
    while listening.headsets.len() < listening.dongles.len() {
        let at = listening.headsets.len();
        assert!(reader.expects(&listening, &event));
        steps += 1;
        event = match reader.listen_to(&mut listening, event) {
            ListenAction::Open if at == 0 => DongleEvent::Failed,
            ListenAction::Open => DongleEvent::Opened {
                file: 0,
                at: poll.now,
            },
            ListenAction::Fetch if at == 1 => DongleEvent::Report(FRESH_FRAME.to_vec()),
            ListenAction::Fetch => DongleEvent::Report(STALE_FRAME.to_vec()),
            ListenAction::Send(request) => {
                assert_eq!(request, battery_request());
                DongleEvent::Sent
            }
            ListenAction::Next { gave_up } => {
                assert!(!gave_up);
                DongleEvent::Turn
            }
        };
    }
    assert!(!reader.expects(&listening, &DongleEvent::Turn));
    assert_eq!(steps, 2 + 4 + 4);
    let products: Vec<&str> = listening
        .headsets
        .iter()
        .map(|headset| headset.product.as_str())
        .collect();
    assert_eq!(products, ["Dongle three", "Dongle four", "Dongle five"]);
    let batteries: Vec<BatteryState> = listening
        .headsets
        .iter()
        .map(|headset| headset.battery)
        .collect();
    assert_eq!(
        batteries,
        [
            BatteryState::Unavailable,
            BatteryState::Discharging(92),
            BatteryState::Unavailable
        ]
    );
}

#[test]
fn a_poll_takes_only_the_events_it_asked_for() {
    let uevent = "HID_ID=0003:00003329:00004B18\n";
    let mut reader: Reader<u8> = Reader::new();
    let mut listening = reader.start_poll(&vec![hidraw("hidraw3", uevent)], poll_at(100));
    let opened = || DongleEvent::Opened {
        file: 1,
        at: poll_at(100).now,
    };
    assert!(!reader.expects(&listening, &opened()));
    assert!(!reader.expects(&listening, &DongleEvent::Failed));
    assert_eq!(
        reader.listen_to(&mut listening, DongleEvent::Turn),
        ListenAction::Open
    );
    assert!(reader.expects(&listening, &opened()));
    assert!(reader.expects(&listening, &DongleEvent::Failed));
    assert!(!reader.expects(&listening, &DongleEvent::Turn));
    assert!(!reader.expects(&listening, &DongleEvent::Sent));
    reader.listen_to(&mut listening, opened());
    assert!(reader.expects(&listening, &DongleEvent::Report(vec![])));
    // Nothing is plugged in: the poll is over before it begins.
    let empty = reader.start_poll(&vec![], poll_at(101));
    assert!(empty.headsets.is_empty());
    assert!(empty.dongles.is_empty());
    assert!(reader.session("/dev/hidraw3").is_none());
}
