//! Where readings come from, what is inherited, and what is printed.

use headset_battery_indicator::cli::{
    at_least_a_second, battery_text, daemon_config, log_level, status, udev_rules, Verbosity,
    DEFAULT_GROUP,
};
use headset_battery_indicator::headset::{BatteryState, Headset};
use headset_battery_indicator::headsetcontrol::HeadsetControl;
use headset_battery_indicator::source::{Answer, Backend, Source};
use headset_battery_indicator::systemd::{
    listen_fds_count, take_fds, Inherited, UHID_FD_NAME,
};
use headset_battery_indicator::time::{Duration, Instant};

fn source(backend: Backend) -> Source<()> {
    let control = HeadsetControl::new("headsetcontrol".to_owned(), Duration::from_secs(10));
    Source::new(backend, control, Duration::from_secs(60))
}

fn maxwell(battery: BatteryState) -> Headset {
    Headset {
        name: "Audeze Maxwell".to_owned(),
        product: "Audeze Maxwell XBOX Dongle".to_owned(),
        vendor_id: 0x3329,
        product_id: 0x4b18,
        supports_battery: true,
        battery,
        sample: None,
    }
}

fn at(secs: u64) -> Instant {
    Instant {
        nanos: u128::from(secs) * 1_000_000_000,
    }
}

fn heard() -> Vec<Headset> {
    vec![maxwell(BatteryState::Discharging(90))]
}

#[test]
fn a_source_describes_itself() {
    assert_eq!(
        source(Backend::Auto).describe(),
        "the native reader (asking a linked headset every 60s), falling back to headsetcontrol"
    );
    assert_eq!(
        source(Backend::Native).describe(),
        "the native reader (asking a linked headset every 60s)"
    );
    assert_eq!(
        source(Backend::HeadsetControl).describe(),
        "headsetcontrol"
    );
    assert_eq!(
        source(Backend::Native).describe_with("now and then"),
        "the native reader (asking a linked headset every now and then)"
    );
    assert_eq!(Backend::default(), Backend::Auto);
}

#[test]
fn recognised_hardware_is_read_natively() {
    let mut source = source(Backend::Auto);
    assert!(source.listens());
    assert!(!source.last_probe_was_native());
    match source.probe(heard(), at(100)) {
        Answer::Native(list) => assert_eq!(list, heard()),
        other => panic!("{other:?}"),
    }
    assert!(source.last_probe_was_native());
}

#[test]
fn a_vanished_dongle_is_waited_for() {
    let mut source = source(Backend::Auto);
    // Never seen: HeadsetControl it is.
    assert!(matches!(
        source.probe(vec![], at(50)),
        Answer::AskHeadsetControl
    ));
    assert!(!source.last_probe_was_native());

    assert!(matches!(source.probe(heard(), at(100)), Answer::Native(_)));
    assert!(matches!(source.probe(vec![], at(101)), Answer::Native(_)));
    assert!(source.dongle_is_coming_back(at(129)));
    assert!(matches!(source.probe(vec![], at(129)), Answer::Native(_)));
    assert!(source.last_probe_was_native());
    assert!(!source.dongle_is_coming_back(at(130)));
    assert!(matches!(
        source.probe(vec![], at(130)),
        Answer::AskHeadsetControl
    ));
    assert!(!source.last_probe_was_native());
}

#[test]
fn a_forced_backend_is_kept() {
    let mut native = source(Backend::Native);
    assert!(matches!(native.probe(vec![], at(1)), Answer::Native(_)));
    assert!(native.last_probe_was_native());
    let mut control = source(Backend::HeadsetControl);
    assert!(!control.listens());
    assert!(matches!(
        control.probe(heard(), at(1)),
        Answer::AskHeadsetControl
    ));
    assert!(!control.last_probe_was_native());
}

#[test]
fn a_one_shot_probe_does_not_wait_for_a_dongle() {
    let mut auto = source(Backend::Auto);
    assert!(matches!(auto.probe(heard(), at(100)), Answer::Native(_)));
    assert!(matches!(
        auto.probe_once(vec![]),
        Answer::AskHeadsetControl
    ));
    assert!(matches!(auto.probe_once(heard()), Answer::Native(_)));
    assert!(matches!(
        source(Backend::Native).probe_once(vec![]),
        Answer::Native(_)
    ));
    assert!(matches!(
        source(Backend::HeadsetControl).probe_once(heard()),
        Answer::AskHeadsetControl
    ));
}

#[test]
fn descriptors_are_counted_only_when_they_are_ours() {
    let count = |pid, fds| listen_fds_count(pid, 42, fds);
    assert_eq!(count(Some("42"), Some("2")), Inherited::Count(2));
    assert_eq!(count(Some("41"), Some("2")), Inherited::Foreign(41));
    assert_eq!(count(Some("41"), None), Inherited::Foreign(41));
    assert_eq!(count(None, Some("2")), Inherited::Nothing);
    assert_eq!(count(Some("nonsense"), Some("2")), Inherited::Nothing);
    assert_eq!(count(Some("42"), None), Inherited::Nothing);
    assert_eq!(count(Some("42"), Some("0")), Inherited::Nothing);
    assert_eq!(count(Some("42"), Some("-1")), Inherited::Nothing);
    assert_eq!(count(Some("42"), Some("2147483648")), Inherited::Nothing);
    assert_eq!(
        count(Some("42"), Some("2147483647")),
        Inherited::Count(2_147_483_647)
    );
}

#[test]
fn descriptors_are_taken_by_name() {
    assert_eq!(take_fds(3, "uhid:other:uhid", UHID_FD_NAME), [3, 5]);
    assert_eq!(take_fds(2, "uhid:other:uhid", UHID_FD_NAME), [3]);
    // Not every descriptor needs a name.
    assert_eq!(take_fds(4, "other:uhid", UHID_FD_NAME), [4]);
    assert_eq!(take_fds(3, "uhid", ""), [4, 5]);
    assert_eq!(take_fds(0, "uhid", UHID_FD_NAME), []);
    assert_eq!(take_fds(-1, "uhid", UHID_FD_NAME), []);
}

#[test]
fn status_reports_the_battery_level() {
    let stdout = status(&vec![maxwell(BatteryState::Discharging(73))], &vec![None]);
    assert!(stdout.contains("Audeze Maxwell [3329:4b18]"), "{stdout}");
    assert!(stdout.contains("battery: 73%"), "{stdout}");
    // Either the path of the published supply or a note that there is none,
    // depending on whether a daemon happens to run on this machine.
    assert!(stdout.contains("  sysfs:   "), "{stdout}");
    assert_eq!(
        stdout,
        "Audeze Maxwell [3329:4b18] via Audeze Maxwell XBOX Dongle\n  battery: 73%\n  sysfs:   \
         not published (is the daemon running?)\n"
    );
}

#[test]
fn status_says_when_the_headset_is_off() {
    let stdout = status(&vec![maxwell(BatteryState::Unavailable)], &vec![None]);
    assert!(stdout.contains("unavailable"));
}

#[test]
fn status_lists_every_headset_with_its_supply() {
    let path = "/sys/class/power_supply/hid-headset-3329-4b18-battery-1";
    let stdout = status(
        &vec![
            maxwell(BatteryState::Charging(Some(5))),
            maxwell(BatteryState::Charging(None)),
        ],
        &vec![Some(path.to_owned()), None],
    );
    assert_eq!(
        stdout,
        format!(
            "Audeze Maxwell [3329:4b18] via Audeze Maxwell XBOX Dongle\n  battery: 5% \
             (charging)\n  sysfs:   {path}\nAudeze Maxwell [3329:4b18] via Audeze Maxwell XBOX \
             Dongle\n  battery: charging\n  sysfs:   not published (is the daemon running?)\n"
        )
    );
    assert_eq!(status(&vec![], &vec![]), "No headset detected.\n");
}

#[test]
fn batteries_are_shown_in_words() {
    assert_eq!(
        battery_text(&maxwell(BatteryState::Unavailable)),
        "unavailable (radio parked, or headset off)"
    );
    let mut dongle = maxwell(BatteryState::Unavailable);
    dongle.supports_battery = false;
    assert_eq!(battery_text(&dongle), "not supported by this headset");
    assert_eq!(
        battery_text(&maxwell(BatteryState::Disconnected)),
        "disconnected (switched off, or out of range)"
    );
    assert_eq!(battery_text(&maxwell(BatteryState::Discharging(0))), "0%");
}

#[test]
fn udev_rules_are_generated_for_the_detected_headset() {
    let stdout = udev_rules(&vec![maxwell(BatteryState::Charging(Some(64)))], "gamers");
    assert!(
        stdout.contains(
            r#"KERNEL=="hidraw*", ATTRS{idVendor}=="3329", ATTRS{idProduct}=="4b18", GROUP="gamers", MODE="0660""#
        ),
        "{stdout}"
    );
    // The rule that turns the generic battery into a headset for UPower.
    assert!(
        stdout.contains(r#"ENV{SOUND_FORM_FACTOR}="headset""#),
        "{stdout}"
    );
    assert!(
        stdout.contains(r#"ATTR{phys}=="headset-battery-indicator/*","#),
        "{stdout}"
    );
    assert!(stdout.contains("\n# Audeze Maxwell (Audeze Maxwell XBOX Dongle)\n"));
    assert!(udev_rules(&vec![], DEFAULT_GROUP)
        .ends_with("# No headset detected; plug the dongle in and re-run.\n"));
}

#[test]
fn options_become_a_configuration() {
    let config = daemon_config(0, 7, 8, "/dev/null".to_owned());
    assert_eq!(config.interval, Duration::from_secs(1));
    assert_eq!(config.native_interval, Duration::from_secs(10));
    assert_eq!(config.offline_grace, Duration::from_secs(7));
    assert_eq!(config.missing_grace, Duration::from_secs(8));
    assert_eq!(config.uhid_path, "/dev/null");
    assert_eq!(
        daemon_config(5, 7, 8, String::new()).interval,
        Duration::from_secs(5)
    );
    assert_eq!(at_least_a_second(0), Duration::from_secs(1));
    assert_eq!(at_least_a_second(9), Duration::from_secs(9));
    assert_eq!(log_level(0), Verbosity::Info);
    assert_eq!(log_level(1), Verbosity::Debug);
    assert_eq!(log_level(2), Verbosity::Trace);
    assert_eq!(log_level(200), Verbosity::Trace);
}
