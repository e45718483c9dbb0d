//! The daemon's decisions.

use headset_battery_indicator::bridge::entry::{Entry, Move};
use headset_battery_indicator::bridge::pool::{Acquired, DevicePool, OUT_OF_DESCRIPTORS};
use headset_battery_indicator::bridge::tick::{Pending, Reason, Tick, TickAction, TickEvent};
use headset_battery_indicator::bridge::{
    identity, next_delay, next_wait, vet, wait_span, withdrawal, AttachError, Bridge, Config,
    Loudness, Step, Summary, Verdict, Withdrawal, UNANSWERED_RETRY_SECS,
};
use headset_battery_indicator::headset::{BatteryState, Headset};
use headset_battery_indicator::headsetcontrol::HeadsetControl;
use headset_battery_indicator::source::{Backend, Source};
use headset_battery_indicator::time::{Duration, Instant};
use headset_battery_indicator::uhid::{
    Uhid, OFF_CREATE_NAME, OFF_CREATE_PHYS, OFF_CREATE_UNIQ, REPORT_DESCRIPTOR,
};

fn headset(name: &str, supports_battery: bool, battery: BatteryState) -> Headset {
    Headset {
        name: name.to_owned(),
        product: format!("{name} dongle"),
        vendor_id: 0x3329,
        product_id: 0x4b18,
        supports_battery,
        battery,
        sample: None,
    }
}

fn seconds(count: u64) -> Duration {
    Duration::from_secs(count)
}

fn at(secs: u64) -> Instant {
    Instant {
        nanos: u128::from(secs) * 1_000_000_000,
    }
}

/// A bridge whose handles are numbers and whose dongles are nothing at all.
fn bridge(inherited: Vec<u32>) -> Bridge<(), u32> {
    let control = HeadsetControl::new("headsetcontrol".to_owned(), seconds(10));
    let source = Source::new(Backend::Auto, control, seconds(60));
    Bridge::new(Config::default(), source, inherited)
}

/// A bridge that already publishes `found`, on handle 7, since second 100.
fn publishing(found: &Headset, percent: u8) -> Bridge<(), u32> {
    let mut daemon = bridge(vec![7]);
    assert!(matches!(daemon.pool.acquire(), Acquired::Spare(7)));
    daemon.attach(found, percent, false, at(100), 7);
    daemon
}

#[test]
fn an_empty_poll_is_told_apart_from_a_sleeping_headset() {
    // Nothing found at all: the dongle is unplugged, or the service cannot
    // reach its hidraw node. Those need a very different fix from a
    // headset that is merely switched off.
    assert_eq!(Summary::of(&vec![]), Summary::NoDevice);

    let off = headset("Audeze Maxwell", true, BatteryState::Unavailable);
    assert_eq!(Summary::of(&vec![off.clone()]), Summary::Offline);

    let no_battery = headset("Some Dongle", false, BatteryState::Unavailable);
    assert_eq!(Summary::of(&vec![no_battery]), Summary::NoBattery);

    let on = headset("Audeze Maxwell", true, BatteryState::Discharging(92));
    assert_eq!(Summary::of(&vec![on.clone()]), Summary::Online);

    // One headset answering is enough to call the whole poll online.
    assert_eq!(Summary::of(&vec![off, on]), Summary::Online);
}

#[test]
fn a_headset_known_to_be_gone_is_not_answering() {
    let gone = headset("Audeze Maxwell", true, BatteryState::Disconnected);
    assert_eq!(Summary::of(&vec![gone]), Summary::Offline);
    let charging = headset("Audeze Maxwell", true, BatteryState::Charging(None));
    assert_eq!(Summary::of(&vec![charging]), Summary::Online);
}

#[test]
fn small_moves_are_taken_at_face_value() {
    assert_eq!(vet(92, 91, None), Verdict::Accept);
    assert_eq!(vet(92, 92, None), Verdict::Accept);
    assert_eq!(vet(50, 65, None), Verdict::Accept);
    // Exactly at the limit.
    assert_eq!(vet(92, 77, None), Verdict::Accept);
}

#[test]
fn one_more_than_a_small_move_is_held_back() {
    assert_eq!(vet(92, 76, None), Verdict::Defer);
    assert_eq!(vet(50, 66, None), Verdict::Defer);
    // A confirmation has to be close to what it confirms.
    assert_eq!(vet(92, 45, Some(40)), Verdict::Accept);
    assert_eq!(vet(92, 46, Some(40)), Verdict::Defer);
    assert_eq!(vet(92, 35, Some(40)), Verdict::Accept);
    assert_eq!(vet(92, 34, Some(40)), Verdict::Defer);
}

#[test]
fn the_glitches_an_audeze_maxwell_actually_produces_are_held_back() {
    // Observed on a real dongle: 92%, 0%, 92% within eighteen seconds.
    assert_eq!(vet(92, 0, None), Verdict::Defer);
    // And 92%, 44%, 92%.
    assert_eq!(vet(92, 44, None), Verdict::Defer);
    // The value that follows the glitch is back in range, so it is taken,
    // and nothing bogus was ever published.
    assert_eq!(vet(92, 92, Some(0)), Verdict::Accept);
}

#[test]
fn a_large_change_confirmed_by_the_next_poll_is_accepted() {
    // A machine that slept all night comes back to an emptier headset:
    // the first reading waits, the second one confirms it.
    assert_eq!(vet(92, 40, None), Verdict::Defer);
    assert_eq!(vet(92, 38, Some(40)), Verdict::Accept);
}

#[test]
fn a_second_unrelated_glitch_does_not_confirm_the_first() {
    assert_eq!(vet(92, 0, None), Verdict::Defer);
    assert_eq!(vet(92, 44, Some(0)), Verdict::Defer);
}

#[test]
fn a_silent_headset_outlives_a_few_retries_and_no_more() {
    let config = Config::default();

    // One or two lost readings: still listed, keep the entry.
    assert_eq!(
        withdrawal(seconds(6), Duration::zero(), &config),
        Withdrawal::Keep
    );
    // Switched off: the dongle is still there, but nothing answers.
    assert_eq!(
        withdrawal(seconds(11), Duration::zero(), &config),
        Withdrawal::Silent
    );
    // Dongle unplugged: gone a little later, whatever the level clock says.
    assert_eq!(
        withdrawal(Duration::zero(), seconds(20), &config),
        Withdrawal::Keep
    );
    assert_eq!(
        withdrawal(Duration::zero(), seconds(31), &config),
        Withdrawal::Missing
    );
}

#[test]
fn the_cadence_follows_what_the_reader_can_afford() {
    let config = Config::default();
    let retry = seconds(UNANSWERED_RETRY_SECS);
    // The native reader is cheap: look often, to notice a power-off quickly.
    assert_eq!(next_delay(false, true, &config), seconds(10));
    // HeadsetControl is not.
    assert_eq!(next_delay(false, false, &config), seconds(60));
    // A battery that just went quiet is asked again at once, either way.
    assert_eq!(next_delay(true, true, &config), retry);
    assert_eq!(next_delay(true, false, &config), retry);

    // Several retries fit in the grace, so one lost reading never flaps it.
    assert!(config.offline_grace.nanos >= retry.nanos * 3);

    // A user asking for a slow cadence gets it for both readers.
    let lazy = Config {
        interval: seconds(5),
        ..Config::default()
    };
    assert_eq!(next_delay(false, true, &lazy), seconds(5));
}

#[test]
fn default_config_is_conservative() {
    let config = Config::default();
    assert_eq!(config.interval, seconds(60));
    assert!(config.native_interval.nanos < config.interval.nanos);
    assert!(config.missing_grace.nanos > config.offline_grace.nanos);
    assert_eq!(config.uhid_path, "/dev/uhid");
}

#[test]
fn a_new_headset_is_attached_at_its_first_level() {
    let mut daemon = bridge(vec![7]);
    let on = headset("Audeze Maxwell", true, BatteryState::Discharging(92));
    assert!(matches!(
        daemon.apply(&on, at(1)),
        Step::Attach {
            percent: 92,
            charging: false
        }
    ));
    let plugged = headset("Audeze Maxwell", true, BatteryState::Charging(Some(40)));
    assert!(matches!(
        daemon.apply(&plugged, at(1)),
        Step::Attach {
            percent: 40,
            charging: true
        }
    ));
    // Nothing is published before a first level is read.
    let mute = headset("Audeze Maxwell", true, BatteryState::Charging(None));
    assert!(matches!(daemon.apply(&mute, at(1)), Step::NoLevelYet));
    let off = headset("Audeze Maxwell", true, BatteryState::Unavailable);
    assert!(matches!(daemon.apply(&off, at(1)), Step::Rest));
    let gone = headset("Audeze Maxwell", true, BatteryState::Disconnected);
    assert!(matches!(daemon.apply(&gone, at(1)), Step::Rest));
    let no_battery = headset("Some Dongle", false, BatteryState::Discharging(92));
    assert!(matches!(daemon.apply(&no_battery, at(1)), Step::Skip));
    assert!(daemon.batteries.is_empty());
}

#[test]
fn a_registered_battery_starts_from_its_first_level() {
    let on = headset("Audeze Maxwell", true, BatteryState::Discharging(92));
    let daemon = publishing(&on, 92);
    assert_eq!(daemon.batteries.len(), 1);
    let battery = &daemon.batteries[0];
    assert_eq!(battery.key, "3329:4b18/Audeze Maxwell");
    assert_eq!(battery.name, "Audeze Maxwell");
    assert_eq!(battery.device, 7);
    assert_eq!(battery.entry, Entry::new(92, false, at(100)));
    assert_eq!(daemon.index_of("3329:4b18/Audeze Maxwell"), Some(0));
    assert_eq!(daemon.index_of("3329:4b19/Audeze Maxwell"), None);
}

/// Starts a round with `found`, and gives the first headset its turn.
fn first_turn(
    daemon: &mut Bridge<(), u32>,
    found: Vec<Headset>,
    secs: u64,
) -> (Tick<u32>, TickAction<u32>) {
    let (mut tick, _) = daemon.begin(Some(found), at(secs));
    let action = daemon.advance(&mut tick, TickEvent::Next);
    (tick, action)
}

#[test]
fn a_device_that_comes_to_nothing_gives_its_handle_back() {
    let on = headset("Audeze Maxwell", true, BatteryState::Discharging(92));

    // The kernel would not create it.
    let mut daemon = bridge(vec![7]);
    let (mut tick, action) = first_turn(&mut daemon, vec![on.clone()], 1);
    assert!(matches!(
        action,
        TickAction::Create {
            device: 7,
            percent: 92,
            charging: false,
            ..
        }
    ));
    assert!(daemon.pool.spare.is_empty());
    assert!(matches!(
        daemon.advance(&mut tick, TickEvent::NotCreated(7)),
        TickAction::Fail(AttachError::NotCreated)
    ));
    assert_eq!(daemon.pool.spare, vec![7]);
    assert!(daemon.batteries.is_empty());

    // It was created, and is destroyed again.
    for (event, error) in [
        (TickEvent::NotRegistered(7), AttachError::NoSupply),
        (TickEvent::WaitFailed(7), AttachError::WaitFailed),
    ] {
        let (mut tick, _) = first_turn(&mut daemon, vec![on.clone()], 2);
        match daemon.advance(&mut tick, TickEvent::Created(7)) {
            TickAction::Wait { device, uniq, .. } => {
                assert_eq!(device, 7);
                assert_eq!(uniq, "headset-3329-4b18");
            }
            other => panic!("{other:?}"),
        }
        match daemon.advance(&mut tick, event) {
            TickAction::Destroy { device, name, why } => {
                assert_eq!(device, 7);
                assert_eq!(name, "Audeze Maxwell");
                assert_eq!(why, Reason::Useless(error));
            }
            other => panic!("{other:?}"),
        }
        assert!(daemon.pool.spare.is_empty());
        match daemon.advance(&mut tick, TickEvent::Destroyed(7)) {
            TickAction::Fail(said) => assert_eq!(said, error),
            other => panic!("{other:?}"),
        }
        assert_eq!(daemon.pool.spare, vec![7]);
        assert!(daemon.batteries.is_empty());
    }
}

#[test]
fn attach_errors_are_put_into_words() {
    let say = |error: AttachError| error.message("headset-3329-4b18", "/dev/uhid");
    assert_eq!(say(AttachError::OutOfDescriptors), OUT_OF_DESCRIPTORS);
    assert_eq!(say(AttachError::NotOpened), "opening /dev/uhid");
    assert_eq!(
        say(AttachError::NotCreated),
        "creating the virtual HID battery"
    );
    assert_eq!(
        say(AttachError::NoSupply),
        "the kernel created the HID device but no hid-headset-3329-4b18-battery power supply; is \
         CONFIG_HID_BATTERY_STRENGTH enabled? (see `journalctl -k`)"
    );
    assert_eq!(
        say(AttachError::WaitFailed),
        "waiting for the power supply"
    );
}

#[test]
fn a_round_registers_publishes_and_withdraws() {
    let on = headset("Audeze Maxwell", true, BatteryState::Discharging(92));
    let skipped = headset("Some Dongle", false, BatteryState::Unavailable);
    let mut daemon = bridge(vec![]);

    // Nothing was inherited, so the node is opened.
    let (mut tick, action) = first_turn(&mut daemon, vec![on.clone(), skipped], 100);
    match action {
        TickAction::Open(path) => assert_eq!(path, "/dev/uhid"),
        other => panic!("{other:?}"),
    }
    assert!(tick.expects(&TickEvent::Opened(5)));
    assert!(!tick.expects(&TickEvent::Next));
    match daemon.advance(&mut tick, TickEvent::Opened(5)) {
        TickAction::Create { device, params, .. } => {
            assert_eq!(device, 5);
            assert_eq!(params.uniq, "headset-3329-4b18");
        }
        other => panic!("{other:?}"),
    }
    assert!(matches!(
        daemon.advance(&mut tick, TickEvent::Created(5)),
        TickAction::Wait { device: 5, .. }
    ));
    assert!(matches!(
        daemon.advance(&mut tick, TickEvent::Registered(5)),
        TickAction::Attached
    ));
    assert_eq!(daemon.batteries[0].entry, Entry::new(92, false, at(100)));
    assert!(matches!(
        daemon.advance(&mut tick, TickEvent::Next),
        TickAction::Skip
    ));
    assert!(matches!(
        daemon.advance(&mut tick, TickEvent::Next),
        TickAction::Done { unanswered: false }
    ));

    // The next round publishes, and only then is the level known.
    let lower = headset("Audeze Maxwell", true, BatteryState::Discharging(90));
    let (mut tick, action) = first_turn(&mut daemon, vec![lower.clone()], 110);
    assert!(matches!(
        action,
        TickAction::Publish {
            index: 0,
            percent: 90,
            charging: false,
            said: Some(Loudness::Debug)
        }
    ));
    assert!(matches!(
        daemon.advance(&mut tick, TickEvent::NotPublished),
        TickAction::Settled
    ));
    assert_eq!(daemon.batteries[0].entry.percent, 92);
    let (mut tick, _) = first_turn(&mut daemon, vec![lower], 111);
    assert!(matches!(
        daemon.advance(&mut tick, TickEvent::Published),
        TickAction::Settled
    ));
    assert_eq!(daemon.batteries[0].entry.percent, 90);

    // A silent headset outlives its grace by a hair.
    let quiet = headset("Audeze Maxwell", true, BatteryState::Unavailable);
    let (mut tick, action) = first_turn(&mut daemon, vec![quiet.clone()], 121);
    assert!(matches!(action, TickAction::Rest));
    assert!(matches!(
        daemon.advance(&mut tick, TickEvent::Next),
        TickAction::Done { unanswered: true }
    ));
    let (mut tick, _) = first_turn(&mut daemon, vec![quiet], 122);
    match daemon.advance(&mut tick, TickEvent::Next) {
        TickAction::Destroy { device, why, .. } => {
            assert_eq!(device, 5);
            assert_eq!(why, Reason::Expired(Withdrawal::Silent));
        }
        other => panic!("{other:?}"),
    }
    assert!(matches!(tick.pending, Pending::Withdrawing));
    assert!(matches!(
        daemon.advance(&mut tick, TickEvent::Destroyed(5)),
        TickAction::Settled
    ));
    assert_eq!(daemon.pool.spare, vec![5]);
    assert!(matches!(
        daemon.advance(&mut tick, TickEvent::Next),
        TickAction::Done { unanswered: false }
    ));
}

#[test]
fn a_round_without_handles_fails_in_words() {
    let first = headset("First", true, BatteryState::Discharging(50));
    let second = headset("Second", true, BatteryState::Discharging(60));
    let mut daemon = bridge(vec![1]);
    daemon.attach(&first, 50, false, at(1), 1);
    assert!(matches!(daemon.pool.acquire(), Acquired::Spare(1)));
    let (mut tick, action) = first_turn(&mut daemon, vec![second], 2);
    assert!(matches!(
        action,
        TickAction::Fail(AttachError::OutOfDescriptors)
    ));
    assert!(matches!(
        daemon.advance(&mut tick, TickEvent::Next),
        TickAction::Done { unanswered: true }
    ));

    let mut daemon = bridge(vec![]);
    let third = headset("Third", true, BatteryState::Charging(Some(10)));
    let (mut tick, action) = first_turn(&mut daemon, vec![third], 2);
    assert!(matches!(action, TickAction::Open(_)));
    assert!(matches!(
        daemon.advance(&mut tick, TickEvent::NotOpened),
        TickAction::Fail(AttachError::NotOpened)
    ));
}

#[test]
fn a_round_tells_what_its_probe_is_worth_saying() {
    let mut daemon = bridge(vec![]);
    let (tick, notes) = daemon.begin(None, at(1));
    assert!(tick.headsets.is_empty());
    assert_eq!(notes.failure, Some(Loudness::Warn));
    assert!(!notes.back);
    assert!(notes.summary.is_none());
    let (_, notes) = daemon.begin(None, at(2));
    assert_eq!(notes.failure, Some(Loudness::Debug));

    let (tick, notes) = daemon.begin(Some(vec![]), at(3));
    assert_eq!(tick.now, at(3));
    assert_eq!(notes.failure, None);
    assert!(notes.back);
    assert!(notes
        .summary
        .expect("news")
        .text
        .starts_with("no supported headset found"));
    let (_, notes) = daemon.begin(Some(vec![]), at(4));
    assert!(!notes.back);
    assert!(notes.summary.is_none());
}

#[test]
fn a_headset_that_says_it_is_gone_loses_its_device_in_the_same_round() {
    let gone = headset("Audeze Maxwell", true, BatteryState::Disconnected);
    let mut daemon = publishing(&gone, 92);
    let (mut tick, action) = first_turn(&mut daemon, vec![gone], 101);
    assert!(matches!(
        action,
        TickAction::Destroy {
            device: 7,
            why: Reason::Off,
            ..
        }
    ));
    daemon.advance(&mut tick, TickEvent::Destroyed(7));
    assert_eq!(daemon.pool.spare, vec![7]);
    assert!(matches!(
        daemon.advance(&mut tick, TickEvent::Next),
        TickAction::Done { unanswered: false }
    ));
}

#[test]
fn a_glitch_is_never_published() {
    let mut reading = headset("Audeze Maxwell", true, BatteryState::Discharging(92));
    let mut daemon = publishing(&reading, 92);

    reading.battery = BatteryState::Discharging(0);
    assert!(matches!(
        daemon.apply(&reading, at(110)),
        Step::Hold { index: 0 }
    ));
    assert_eq!(daemon.batteries[0].entry.percent, 92);
    // The headset answered all the same.
    assert_eq!(daemon.batteries[0].entry.last_reading, at(110));

    reading.battery = BatteryState::Discharging(91);
    assert!(matches!(
        daemon.apply(&reading, at(120)),
        Step::Publish {
            index: 0,
            percent: 91,
            charging: false,
            said: Some(Loudness::Debug)
        }
    ));
    assert_eq!(daemon.batteries[0].entry.deferred, None);
    // It is only known once it has been published.
    assert_eq!(daemon.batteries[0].entry.percent, 92);
    daemon.published(0, 91, false);
    assert_eq!(daemon.batteries[0].entry.percent, 91);
}

#[test]
fn a_real_change_costs_one_extra_poll() {
    let mut reading = headset("Audeze Maxwell", true, BatteryState::Discharging(40));
    let mut daemon = publishing(&reading, 92);
    assert!(matches!(daemon.apply(&reading, at(110)), Step::Hold { .. }));
    reading.battery = BatteryState::Discharging(38);
    assert!(matches!(
        daemon.apply(&reading, at(120)),
        Step::Publish {
            index: 0,
            percent: 38,
            charging: false,
            said: Some(Loudness::Info)
        }
    ));
}

#[test]
fn a_reading_repeated_does_not_confirm_itself() {
    let mut entry = Entry::new(92, false, at(1));
    let level = BatteryState::Discharging(40);
    assert_eq!(entry.report(level, Some(5), at(2)), Move::Hold);
    assert_eq!(entry.report(level, Some(5), at(3)), Move::Hold);
    assert_eq!(entry.report(level, Some(5), at(4)), Move::Hold);
    // Another reading does.
    assert!(matches!(
        entry.report(level, Some(6), at(5)),
        Move::Publish { percent: 40, .. }
    ));
}

#[test]
fn news_is_told_by_its_size() {
    let mut entry = Entry::new(92, false, at(1));
    // The same level is pushed again, without a word.
    assert_eq!(
        entry.report(BatteryState::Discharging(92), None, at(2)),
        Move::Publish {
            percent: 92,
            charging: false,
            said: None
        }
    );
    assert_eq!(
        entry.report(BatteryState::Discharging(88), None, at(3)),
        Move::Publish {
            percent: 88,
            charging: false,
            said: Some(Loudness::Debug)
        }
    );
    assert_eq!(
        entry.report(BatteryState::Discharging(87), None, at(4)),
        Move::Publish {
            percent: 87,
            charging: false,
            said: Some(Loudness::Info)
        }
    );
    assert_eq!(entry.logged_percent, 87);
    // Charging is always news, and keeps the last known level if it gives none.
    assert_eq!(
        entry.report(BatteryState::Charging(None), None, at(5)),
        Move::Publish {
            percent: 92,
            charging: true,
            said: Some(Loudness::Info)
        }
    );
}

#[test]
fn a_silent_headset_is_seen_but_not_heard() {
    let mut entry = Entry::new(92, false, at(1));
    assert_eq!(
        entry.report(BatteryState::Unavailable, None, at(9)),
        Move::Rest
    );
    assert_eq!(entry.last_seen, at(9));
    assert_eq!(entry.last_reading, at(1));
    assert_eq!(entry.percent, 92);
}

#[test]
fn a_headset_that_says_it_is_gone_is_withdrawn_at_once() {
    let mut reading = headset("Audeze Maxwell", true, BatteryState::Disconnected);
    let mut daemon = publishing(&reading, 92);
    match daemon.apply(&reading, at(101)) {
        Step::Withdraw(battery) => {
            assert_eq!(battery.device, 7);
            daemon.pool.put_back(battery.device);
        }
        other => panic!("{other:?}"),
    }
    assert!(daemon.batteries.is_empty());
    assert_eq!(daemon.pool.spare, vec![7]);
    reading.battery = BatteryState::Unavailable;
    assert!(matches!(daemon.apply(&reading, at(102)), Step::Rest));
}

#[test]
fn batteries_expire_by_two_clocks_and_lose_no_handle() {
    let first = headset("First", true, BatteryState::Discharging(50));
    let second = headset("Second", true, BatteryState::Discharging(60));
    let third = headset("Third", true, BatteryState::Discharging(70));
    let mut daemon = bridge(vec![]);
    for (found, level, handle, moment) in [(&first, 50, 1, 100), (&second, 60, 2, 100), (&third, 70, 3, 125)] {
        daemon.attach(found, level, false, at(moment), handle);
    }

    // The second headset is listed, but silent.
    let quiet = headset("Second", true, BatteryState::Unavailable);
    assert!(matches!(daemon.apply(&quiet, at(120)), Step::Rest));
    assert!(daemon.unanswered(at(125)));

    let gone = daemon.expire(at(131));
    assert_eq!(gone.len(), 2);
    assert_eq!(gone[0].battery.name, "First");
    assert_eq!(gone[0].why, Withdrawal::Missing);
    assert_eq!(gone[1].battery.name, "Second");
    assert_eq!(gone[1].why, Withdrawal::Silent);
    assert_eq!(daemon.batteries.len(), 1);
    assert_eq!(daemon.batteries[0].name, "Third");
    for out in gone {
        daemon.pool.put_back(out.battery.device);
    }
    assert_eq!(daemon.pool.spare, vec![1, 2]);
}

#[test]
fn the_graces_last_to_the_end() {
    let on = headset("Audeze Maxwell", true, BatteryState::Discharging(92));
    // Ten seconds of silence are the whole of the grace, and not too long.
    let mut daemon = publishing(&on, 92);
    assert!(daemon.expire(at(110)).is_empty());
    let mut late = at(110);
    late.nanos += 1;
    assert_eq!(daemon.expire(late).len(), 1);
}

#[test]
fn an_answer_in_time_is_not_unanswered() {
    let on = headset("Audeze Maxwell", true, BatteryState::Discharging(92));
    let mut daemon = publishing(&on, 92);
    assert!(!daemon.unanswered(at(100)));
    assert!(daemon.unanswered(at(103)));
    assert!(matches!(daemon.apply(&on, at(103)), Step::Publish { .. }));
    assert!(!daemon.unanswered(at(103)));
    assert!(!bridge(vec![]).unanswered(at(1)));
}

#[test]
fn the_next_poll_is_as_far_off_as_the_cadence_says() {
    let daemon = bridge(vec![]);
    assert_eq!(daemon.next_poll_at(at(100), false), at(160));
    assert_eq!(daemon.next_poll_at(at(100), true), at(103));
}

#[test]
fn waits_are_short_and_end_with_the_deadline() {
    assert_eq!(next_wait(at(160), at(100)), Some(seconds(5)));
    assert_eq!(next_wait(at(160), at(158)), Some(seconds(2)));
    assert_eq!(next_wait(at(160), at(160)), Some(seconds(0)));
    assert_eq!(next_wait(at(160), at(161)), None);
}

#[test]
fn a_due_push_cuts_the_wait_short() {
    let none: Vec<Option<Instant>> = vec![];
    assert_eq!(wait_span(seconds(5), &none, at(100)), seconds(5));
    assert_eq!(
        wait_span(seconds(5), &vec![None, Some(at(103)), Some(at(104))], at(100)),
        seconds(3)
    );
    assert_eq!(
        wait_span(seconds(5), &vec![Some(at(99))], at(100)),
        seconds(0)
    );
    assert_eq!(
        wait_span(seconds(5), &vec![Some(at(200))], at(100)),
        seconds(5)
    );
}

#[test]
fn a_streak_of_failures_costs_one_warning() {
    let mut daemon = bridge(vec![]);
    assert!(!daemon.probe_succeeded());
    assert_eq!(daemon.probe_failed(), Loudness::Warn);
    assert_eq!(daemon.probe_failed(), Loudness::Debug);
    assert_eq!(daemon.probe_failed(), Loudness::Debug);
    assert!(daemon.probe_succeeded());
    assert!(!daemon.probe_succeeded());
    assert_eq!(daemon.probe_failed(), Loudness::Warn);
}

#[test]
fn a_summary_is_announced_once_per_change() {
    let mut daemon = bridge(vec![]);
    let list = vec![
        headset("First", true, BatteryState::Unavailable),
        headset("Second", true, BatteryState::Unavailable),
    ];
    let note = daemon.announce(Summary::Offline, &list).expect("news");
    assert_eq!(note.loudness, Loudness::Info);
    assert_eq!(
        note.text,
        "First, Second is detected but not answering battery queries (switched off?); keeping \
         its entry for a few more polls"
    );
    assert!(daemon.announce(Summary::Offline, &list).is_none());

    let note = daemon.announce(Summary::NoDevice, &vec![]).expect("news");
    assert_eq!(note.loudness, Loudness::Info);
    assert_eq!(
        note.text,
        "no supported headset found: check that the dongle is plugged in, and that this service \
         may reach its hidraw node (run `headset-battery-indicator udev-rules` and install the \
         result)"
    );
    let note = daemon.announce(Summary::NoBattery, &list).expect("news");
    assert_eq!(note.text, "First, Second found, but none reports a battery");
    let note = daemon.announce(Summary::Online, &list).expect("news");
    assert_eq!(note.loudness, Loudness::Debug);
    assert_eq!(note.text, "First, Second is answering");
    assert!(daemon.announce(Summary::Offline, &list).is_some());
}

#[test]
fn inherited_handles_are_the_only_ones_used() {
    let mut pool = DevicePool::new(vec![1, 2], "/dev/uhid".to_owned());
    assert!(!pool.may_open);
    assert!(matches!(pool.acquire(), Acquired::Spare(2)));
    assert!(matches!(pool.acquire(), Acquired::Spare(1)));
    assert!(matches!(pool.acquire(), Acquired::Exhausted));
    assert!(OUT_OF_DESCRIPTORS.starts_with("out of inherited /dev/uhid descriptors"));
    pool.put_back(1);
    assert!(matches!(pool.acquire(), Acquired::Spare(1)));
}

#[test]
fn without_inherited_handles_the_node_is_opened() {
    let mut pool: DevicePool<u32> = DevicePool::new(vec![], "/dev/uhid".to_owned());
    match pool.acquire() {
        Acquired::Open(path) => assert_eq!(path, "/dev/uhid"),
        other => panic!("{other:?}"),
    }
    // A handle that was opened is kept for the next battery.
    pool.put_back(9);
    assert!(matches!(pool.acquire(), Acquired::Spare(9)));
}

#[test]
fn a_virtual_device_carries_the_headset_s_identity() {
    let on = headset("Audeze\nMaxwell", true, BatteryState::Discharging(92));
    let params = identity(&on);
    assert_eq!(params.name, "AudezeMaxwell");
    assert_eq!(
        params.phys,
        "headset-battery-indicator/headset-3329-4b18"
    );
    assert_eq!(params.uniq, "headset-3329-4b18");
    assert_eq!(params.vendor, 0x3329);
    assert_eq!(params.product, 0x4b18);
}

#[test]
fn shutting_down_leaves_no_battery_behind() {
    let on = headset("Audeze Maxwell", true, BatteryState::Discharging(92));
    let mut daemon = publishing(&on, 92);
    let gone = daemon.shutdown();
    assert_eq!(gone.len(), 1);
    assert_eq!(gone[0].device, 7);
    assert!(daemon.batteries.is_empty());
    assert!(daemon.shutdown().is_empty());
}

#[test]
fn an_identity_fits_the_kernel_s_fields() {
    let name = "é".repeat(200);
    let params = identity(&headset(&name, true, BatteryState::Unavailable));
    assert_eq!(params.name, "é".repeat(63));
    let event = Uhid::from_fd(()).create(&params, &REPORT_DESCRIPTOR).unwrap();
    assert_eq!(&event[OFF_CREATE_NAME..OFF_CREATE_NAME + 126], params.name.as_bytes());
    assert_eq!(event[OFF_CREATE_NAME + 126..OFF_CREATE_PHYS], [0, 0]);
    let end = OFF_CREATE_PHYS + params.phys.len();
    assert_eq!(&event[OFF_CREATE_PHYS..end], params.phys.as_bytes());
    assert_eq!(event[end], 0);
    let end = OFF_CREATE_UNIQ + params.uniq.len();
    assert_eq!(&event[OFF_CREATE_UNIQ..end], params.uniq.as_bytes());
    assert_eq!(event[end], 0);
}

#[test]
fn an_answering_headset_keeps_its_battery_without_any_grace() {
    let on = headset("Audeze Maxwell", true, BatteryState::Discharging(92));
    let mut daemon = publishing(&on, 92);
    daemon.config.offline_grace = Duration::zero();
    daemon.config.missing_grace = Duration::zero();
    // Even a level that is held back is an answer.
    let glitch = headset("Audeze Maxwell", true, BatteryState::Discharging(0));
    assert!(matches!(daemon.apply(&glitch, at(500)), Step::Hold { .. }));
    assert!(daemon.expire(at(500)).is_empty());
    assert_eq!(daemon.expire(at(501)).len(), 1);
}

#[test]
fn a_round_tells_who_did_not_answer() {
    let first = headset("First", true, BatteryState::Discharging(50));
    let second = headset("Second", true, BatteryState::Discharging(60));
    let unanswered = |found: Vec<Headset>| {
        let mut daemon = bridge(vec![]);
        daemon.attach(&first, 50, false, at(100), 1);
        daemon.attach(&second, 60, false, at(100), 2);
        let (mut tick, _) = daemon.begin(Some(found), at(105));
        let mut event = TickEvent::Next;
        loop {
            event = match daemon.advance(&mut tick, event) {
                TickAction::Done { unanswered } => return unanswered,
                TickAction::Publish { .. } => TickEvent::NotPublished,
                TickAction::Destroy { device, .. } => TickEvent::Destroyed(device),
                _ => TickEvent::Next,
            };
        }
    };
    assert!(!unanswered(vec![first.clone(), second.clone()]));
    assert!(unanswered(vec![first.clone()]));
    assert!(unanswered(vec![]));
    // Charging is an answer, and so is a level that is held back.
    let plugged = headset("Second", true, BatteryState::Charging(None));
    assert!(!unanswered(vec![first.clone(), plugged]));
    let glitch = headset("Second", true, BatteryState::Discharging(0));
    assert!(!unanswered(vec![first.clone(), glitch]));
    let quiet = headset("Second", true, BatteryState::Unavailable);
    assert!(unanswered(vec![first.clone(), quiet]));
    // A headset that is gone leaves no battery to wait for.
    let gone = headset("Second", true, BatteryState::Disconnected);
    assert!(!unanswered(vec![first.clone(), gone]));
}

#[test]
fn two_glitches_around_a_reading_do_not_add_up() {
    let level = |percent| headset("Audeze Maxwell", true, BatteryState::Discharging(percent));
    let mut daemon = publishing(&level(92), 92);
    assert!(matches!(
        daemon.apply(&level(0), at(110)),
        Step::Hold { index: 0 }
    ));
    assert!(matches!(
        daemon.apply(&level(92), at(120)),
        Step::Publish {
            index: 0,
            percent: 92,
            ..
        }
    ));
    daemon.published(0, 92, false);
    assert!(matches!(
        daemon.apply(&level(0), at(130)),
        Step::Hold { index: 0 }
    ));
    let entry = daemon.batteries[0].entry;
    assert_eq!(entry.percent, 92);
    assert_eq!(entry.deferred.map(|held| held.percent), Some(0));
}

#[test]
fn silence_between_two_readings_does_not_undo_a_confirmation() {
    let mut entry = Entry::new(92, false, at(1));
    let level = BatteryState::Discharging(40);
    assert_eq!(entry.report(level, None, at(2)), Move::Hold);
    assert_eq!(
        entry.report(BatteryState::Unavailable, None, at(3)),
        Move::Rest
    );
    assert!(matches!(
        entry.report(BatteryState::Discharging(44), None, at(4)),
        Move::Publish { percent: 44, .. }
    ));
    // A third reading far from both is held back in its turn.
    assert_eq!(
        entry.report(BatteryState::Discharging(10), None, at(5)),
        Move::Hold
    );
    assert_eq!(
        entry.report(BatteryState::Discharging(20), None, at(6)),
        Move::Hold
    );
}

#[test]
fn a_report_reaches_its_own_battery_only() {
    let first = headset("First", true, BatteryState::Discharging(50));
    let second = headset("Second", true, BatteryState::Discharging(60));
    let mut daemon = bridge(vec![]);
    daemon.attach(&first, 50, false, at(100), 1);
    daemon.attach(&second, 60, false, at(100), 2);
    let untouched = daemon.batteries[1].entry;
    assert!(matches!(
        daemon.apply(&first, at(110)),
        Step::Publish { index: 0, .. }
    ));
    assert_eq!(daemon.batteries[0].entry.last_reading, at(110));
    assert_eq!(daemon.batteries[1].entry, untouched);
}
