//! Headsets, their keys and their labels.

use headset_battery_indicator::headset::{BatteryState, Headset};

fn named(name: &str) -> Headset {
    Headset {
        name: name.to_owned(),
        product: String::new(),
        vendor_id: 0x3329,
        product_id: 0x4b18,
        supports_battery: true,
        battery: BatteryState::Unavailable,
        sample: None,
    }
}

#[test]
fn an_ordinary_name_is_left_alone() {
    assert_eq!(named("Audeze Maxwell").display_name(), "Audeze Maxwell");
}

#[test]
fn a_name_the_kernel_would_truncate_is_made_to_fit() {
    // 100 two-byte characters: 200 bytes, cut on a boundary under 128.
    let name = named(&"é".repeat(100)).display_name();
    assert_eq!(name.len(), 126);
    assert!(name.chars().all(|c| c == 'é'));
}

#[test]
fn control_characters_never_reach_the_kernel() {
    assert_eq!(named("Bad\0Name\n").display_name(), "BadName");
    assert_eq!(named("\0\n").display_name(), "Headset");
    assert_eq!(named("").display_name(), "Headset");
}

#[test]
fn a_blank_name_is_replaced_and_a_label_is_its_own_label() {
    assert_eq!(named(" \u{a0} ").display_name(), "Headset");
    let label = named(&"x\u{1}".repeat(300)).display_name();
    assert_eq!(label.len(), 127);
    assert_eq!(named(&label).display_name(), label);
}

#[test]
fn keys_tell_headsets_apart() {
    let mut one = named("Audeze Maxwell");
    assert_eq!(one.key(), "3329:4b18/Audeze Maxwell");
    assert_eq!(one.uniq(), "headset-3329-4b18");
    one.product_id = 0x000a;
    assert_eq!(one.key(), "3329:000a/Audeze Maxwell");
    assert_eq!(one.uniq(), "headset-3329-000a");
    one.vendor_id = 0xffff;
    assert_eq!(one.uniq(), "headset-ffff-000a");
}
