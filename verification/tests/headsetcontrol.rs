//! What HeadsetControl's output comes to.

use headset_battery_indicator::headset::{BatteryState, Headset};
use headset_battery_indicator::headsetcontrol::{
    battery_state, document, parse_id, Battery, Device, HeadsetControl, ProbeError, Reap, Report,
};
use headset_battery_indicator::headsetcontrol;
use headset_battery_indicator::time::{Duration, Instant};
use serde_json::Value;

const MAXWELL: &str = r#"{
  "name": "HeadsetControl",
  "device_count": 1,
  "devices": [
    {
      "status": "partial",
      "device": "Audeze Maxwell",
      "vendor": "Audeze LLC",
      "product": "Audeze Maxwell XBOX Dongle",
      "id_vendor": "0x3329",
      "id_product": "0x4b18",
      "capabilities": ["CAP_SIDETONE", "CAP_BATTERY_STATUS"],
      "battery": { "status": "BATTERY_UNAVAILABLE", "level": -1 }
    }
  ]
}
"#;

const MAXWELL_CHARGING: &str = r#"{
  "devices": [
    {
      "device": "Audeze Maxwell",
      "product": "Audeze Maxwell XBOX Dongle",
      "id_vendor": "0x3329",
      "id_product": "0x4b18",
      "capabilities": ["CAP_SIDETONE", "CAP_BATTERY_STATUS"],
      "battery": { "status": "BATTERY_CHARGING", "level": 64 }
    }
  ]
}
"#;

const MAXWELL_DISCHARGING: &str = r#"{
  "devices": [
    {
      "device": "Audeze Maxwell",
      "product": "Audeze Maxwell XBOX Dongle",
      "id_vendor": "0x3329",
      "id_product": "0x4b18",
      "capabilities": ["CAP_SIDETONE", "CAP_BATTERY_STATUS"],
      "battery": { "status": "BATTERY_AVAILABLE", "level": 73 }
    }
  ]
}
"#;

fn text_of(value: &Value, field: &str) -> String {
    value
        .get(field)
        .and_then(Value::as_str)
        .unwrap_or_default()
        .to_owned()
}

/// Reads a document with the real JSON parser.
fn read(json: &str) -> Result<Report, String> {
    let value: Value = serde_json::from_str(json).map_err(|err| err.to_string())?;
    let list = value
        .get("devices")
        .and_then(Value::as_array)
        .cloned()
        .unwrap_or_default();
    let devices = list
        .iter()
        .map(|device| Device {
            model: text_of(device, "device"),
            product: text_of(device, "product"),
            id_vendor: text_of(device, "id_vendor"),
            id_product: text_of(device, "id_product"),
            capabilities: device
                .get("capabilities")
                .and_then(Value::as_array)
                .cloned()
                .unwrap_or_default()
                .iter()
                .filter_map(Value::as_str)
                .map(str::to_owned)
                .collect(),
            battery: device.get("battery").map(|battery| Battery {
                status: text_of(battery, "status"),
                level: battery
                    .get("level")
                    .and_then(Value::as_i64)
                    .and_then(|level| i32::try_from(level).ok())
                    .unwrap_or_default(),
            }),
        })
        .collect();
    Ok(Report { devices })
}

fn parse(stdout: &str) -> Result<Vec<Headset>, String> {
    headsetcontrol::parse(stdout, read)
}

#[test]
fn parses_a_connected_headset() {
    let headsets = parse(MAXWELL_DISCHARGING).expect("valid report");
    assert_eq!(headsets.len(), 1);

    let headset = &headsets[0];
    assert_eq!(headset.name, "Audeze Maxwell");
    assert_eq!(headset.product, "Audeze Maxwell XBOX Dongle");
    assert_eq!(headset.vendor_id, 0x3329);
    assert_eq!(headset.product_id, 0x4b18);
    assert!(headset.supports_battery);
    assert_eq!(headset.battery, BatteryState::Discharging(73));
    assert_eq!(headset.key(), "3329:4b18/Audeze Maxwell");
    assert_eq!(headset.uniq(), "headset-3329-4b18");
}

#[test]
fn parses_a_charging_headset() {
    let headsets = parse(MAXWELL_CHARGING).expect("valid report");
    assert_eq!(headsets[0].battery, BatteryState::Charging(Some(64)));
}

#[test]
fn treats_an_offline_headset_as_unavailable() {
    let headsets = parse(MAXWELL).expect("valid report");
    assert_eq!(headsets[0].battery, BatteryState::Unavailable);
    assert!(headsets[0].supports_battery);
}

#[test]
fn charging_without_a_level_is_still_charging() {
    let json =
        r#"{"devices":[{"device":"X","battery":{"status":"BATTERY_CHARGING","level":-1}}]}"#;
    assert_eq!(
        parse(json).unwrap()[0].battery,
        BatteryState::Charging(None)
    );
}

#[test]
fn tolerates_a_text_preamble_and_an_empty_document() {
    let json = "No config file found\n{\"devices\":[]}";
    assert!(parse(json).unwrap().is_empty());
    assert!(parse("").unwrap().is_empty());
    assert!(parse("   \n").unwrap().is_empty());
}

#[test]
fn rejects_output_that_is_not_the_expected_document() {
    assert!(parse("{ this is not json }").is_err());
}

#[test]
fn devices_without_a_battery_capability_are_flagged() {
    let json = r#"{"devices":[{"device":"X","capabilities":["CAP_SIDETONE"]}]}"#;
    let headsets = parse(json).unwrap();
    assert!(!headsets[0].supports_battery);
    assert_eq!(headsets[0].battery, BatteryState::Unavailable);
}

#[test]
fn parses_usb_identifiers() {
    assert_eq!(parse_id("0x3329"), 0x3329);
    assert_eq!(parse_id("3329"), 0x3329);
    assert_eq!(parse_id(""), 0);
    assert_eq!(parse_id("nonsense"), 0);
}

#[test]
fn odd_usb_identifiers_are_read_or_dropped() {
    assert_eq!(parse_id(" 0X4B18\n"), 0x4b18);
    assert_eq!(parse_id("0x10000"), 0);
    assert_eq!(parse_id("0x"), 0);
    assert_eq!(parse_id("0x0x1"), 0);
    assert_eq!(parse_id("-1"), 0);
}

#[test]
fn out_of_range_levels_are_dropped() {
    let json =
        r#"{"devices":[{"device":"X","battery":{"status":"BATTERY_AVAILABLE","level":120}}]}"#;
    assert_eq!(parse(json).unwrap()[0].battery, BatteryState::Unavailable);
}

#[test]
fn levels_are_taken_up_to_a_hundred() {
    let state = |status: &str, level: i32| {
        battery_state(&Battery {
            status: status.to_owned(),
            level,
        })
    };
    assert_eq!(
        state("BATTERY_AVAILABLE", 0),
        BatteryState::Discharging(0)
    );
    assert_eq!(
        state("BATTERY_AVAILABLE", 100),
        BatteryState::Discharging(100)
    );
    assert_eq!(state("BATTERY_AVAILABLE", 101), BatteryState::Unavailable);
    assert_eq!(state("BATTERY_AVAILABLE", -1), BatteryState::Unavailable);
    assert_eq!(state("BATTERY_CHARGING", 101), BatteryState::Charging(None));
    assert_eq!(state("BATTERY_TIMEOUT", 50), BatteryState::Unavailable);
}

#[test]
fn the_document_starts_at_the_first_brace() {
    assert_eq!(document("notice\n {\"a\":1} \n"), Some("{\"a\":1}"));
    assert_eq!(document("{}"), Some("{}"));
    assert_eq!(document("segmentation fault\n"), Some("segmentation fault"));
    assert_eq!(document(" \n"), None);
}

#[test]
fn every_headset_of_the_document_is_listed_in_order() {
    let json = r#"{"devices":[{"device":"A"},{"device":"B"},{"device":"C"}]}"#;
    let names: Vec<String> = parse(json).unwrap().into_iter().map(|h| h.name).collect();
    assert_eq!(names, ["A", "B", "C"]);
}

fn control() -> HeadsetControl {
    HeadsetControl::new(
        "/usr/bin/headsetcontrol".to_owned(),
        Duration::from_secs(10),
    )
}

#[test]
fn a_run_that_failed_is_passed_on() {
    let outcome: Result<String, &str> = Err("no such file");
    assert!(matches!(
        control().probe(outcome, read),
        Err(ProbeError::Run("no such file"))
    ));
}

#[test]
fn a_run_that_went_well_is_read() {
    let outcome: Result<String, &str> = Ok(MAXWELL_DISCHARGING.to_owned());
    let headsets = control().probe(outcome, read).expect("valid report");
    assert_eq!(headsets[0].battery, BatteryState::Discharging(73));
    assert_eq!(headsets[0].sample, None);
}

#[test]
fn garbage_output_is_reported_with_context() {
    let outcome: Result<String, &str> = Ok("segmentation fault\n".to_owned());
    match control().probe(outcome, read) {
        Err(ProbeError::Unexpected { context, .. }) => assert_eq!(
            context,
            "unexpected output from /usr/bin/headsetcontrol: segmentation fault"
        ),
        other => panic!("{other:?}"),
    }
    // Only so much of it is quoted.
    let noise = "é".repeat(500);
    let quoted = control().unexpected(&noise);
    assert_eq!(
        quoted,
        format!(
            "unexpected output from /usr/bin/headsetcontrol: {}",
            "é".repeat(200)
        )
    );
}

#[test]
fn a_child_that_hangs_is_given_up_on() {
    let control = control();
    let started = Instant { nanos: 5 };
    let deadline = control.deadline(started);
    assert_eq!(deadline.nanos, 10_000_000_005);
    assert_eq!(control.reap(true, deadline, deadline), Reap::Collect);
    assert_eq!(control.reap(false, deadline, deadline), Reap::GiveUp);
    assert_eq!(
        control.reap(false, started, deadline),
        Reap::Sleep(Duration::from_millis(25))
    );
    assert_eq!(
        control.did_not_answer(),
        "/usr/bin/headsetcontrol did not answer within 10s"
    );
    assert_eq!(
        control.did_not_answer_within("a while"),
        "/usr/bin/headsetcontrol did not answer within a while"
    );
    assert_eq!(
        control.could_not_run(),
        "could not run /usr/bin/headsetcontrol"
    );
    assert_eq!(control.binary(), "/usr/bin/headsetcontrol");
}
