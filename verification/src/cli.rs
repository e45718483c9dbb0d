//! What the command line says, both ways: the options it takes, and the texts
//! it prints.

use vstd::prelude::*;
use crate::bridge::{Config, DEFAULT_NATIVE_INTERVAL_SECS, PHYS_PREFIX};
use crate::headset::{BatteryState, Headset};
use crate::text;
use crate::time::{self, Duration};

verus! {

/// Default group granted access to the headset's hidraw nodes.
pub const DEFAULT_GROUP: &'static str = "headset-battery";

/// Default for how long to wait for headsetcontrol, in seconds.
pub const DEFAULT_TIMEOUT_SECS: u64 = 10;

/// How much the journal is told.
#[derive(Debug, Clone, Copy, PartialEq, Eq, Structural)]
pub enum Verbosity {
    /// What is worth knowing.
    Info,
    /// What helps to find out why.
    Debug,
    /// Everything.
    Trace,
}

/// How much to log, the option having been given that many times.
pub fn log_level(verbose: u8) -> (level: Verbosity)
    ensures
        level == (if verbose == 0 {
            Verbosity::Info
        } else if verbose == 1 {
            Verbosity::Debug
        } else {
            Verbosity::Trace
        }),
{
    match verbose {
        0 => Verbosity::Info,
        1 => Verbosity::Debug,
        _ => Verbosity::Trace,
    }
}

/// A span of that many seconds, and of one at the least.
pub fn at_least_a_second(secs: u64) -> (span: Duration)
    ensures
        span == time::seconds(
            if secs == 0 {
                1
            } else {
                secs
            },
        ),
{
    if secs == 0 {
        Duration::from_secs(1)
    } else {
        Duration::from_secs(secs)
    }
}

/// The configuration of a daemon started with those options.
pub fn daemon_config(interval: u64, offline_grace: u64, missing_grace: u64, uhid_path: String) -> (
    config: Config)
    ensures
        config == (Config {
            interval: time::seconds(
                if interval == 0 {
                    1
                } else {
                    interval
                },
            ),
            native_interval: time::seconds(DEFAULT_NATIVE_INTERVAL_SECS),
            offline_grace: time::seconds(offline_grace),
            missing_grace: time::seconds(missing_grace),
            uhid_path,
        }),
        config.native_interval.nanos == 10_000_000_000,
        config.interval.nanos >= 1_000_000_000,
{
    Config {
        interval: at_least_a_second(interval),
        native_interval: Duration::from_secs(DEFAULT_NATIVE_INTERVAL_SECS),
        offline_grace: Duration::from_secs(offline_grace),
        missing_grace: Duration::from_secs(missing_grace),
        uhid_path,
    }
}

/// How the battery of a headset is shown.
pub open spec fn battery_words(found: Headset) -> Seq<char> {
    match found.battery {
        BatteryState::Discharging(percent) => text::decimal(percent as nat) + "%"@,
        BatteryState::Charging(Some(percent)) => text::decimal(percent as nat) + "% (charging)"@,
        BatteryState::Charging(None) => "charging"@,
        BatteryState::Unavailable => if found.supports_battery {
            "unavailable (radio parked, or headset off)"@
        } else {
            "not supported by this headset"@
        },
        BatteryState::Disconnected => "disconnected (switched off, or out of range)"@,
    }
}

/// How the power supply of a headset is shown.
pub open spec fn supply_words(published: Option<String>) -> Seq<char> {
    match published {
        Some(path) => path@,
        None => "not published (is the daemon running?)"@,
    }
}

/// `[vvvv:pppp]` and the like: two IDs in hexadecimal, with that between them.
pub open spec fn id_pair(found: Headset, between: Seq<char>) -> Seq<char> {
    text::hex4(found.vendor_id) + between + text::hex4(found.product_id)
}

/// What `status` prints about one headset.
pub open spec fn status_lines(found: Headset, published: Option<String>) -> Seq<char> {
    found.name@ + " ["@ + id_pair(found, ":"@) + "] via "@ + found.product@ + "\n  battery: "@
        + battery_words(found) + "\n  sysfs:   "@ + supply_words(published) + "\n"@
}

/// What `status` prints about those headsets, one after the other.
pub open spec fn all_status_lines(headsets: Seq<Headset>, published: Seq<Option<String>>) -> Seq<char>
    decreases headsets.len(),
{
    if headsets.len() == 0 {
        Seq::empty()
    } else {
        all_status_lines(headsets.drop_last(), published) + status_lines(
            headsets.last(),
            published[headsets.len() - 1],
        )
    }
}

/// How the battery of a headset is shown.
pub fn battery_text(found: &Headset) -> (said: String)
    ensures
        said@ == battery_words(*found),
{
    match found.battery {
        BatteryState::Discharging(percent) => {
            let mut said = String::new();
            text::push_decimal(&mut said, percent as u64);
            said.append("%");
            assert(said@ =~= battery_words(*found));
            said
        },
        BatteryState::Charging(Some(percent)) => {
            let mut said = String::new();
            text::push_decimal(&mut said, percent as u64);
            said.append("% (charging)");
            assert(said@ =~= battery_words(*found));
            said
        },
        BatteryState::Charging(None) => "charging".to_owned(),
        BatteryState::Unavailable => if found.supports_battery {
            "unavailable (radio parked, or headset off)".to_owned()
        } else {
            "not supported by this headset".to_owned()
        },
        BatteryState::Disconnected => "disconnected (switched off, or out of range)".to_owned(),
    }
}

/// Two IDs in hexadecimal, with that between them.
fn ids(found: &Headset, between: &str) -> (said: String)
    ensures
        said@ == id_pair(*found, between@),
{
    let mut said = String::new();
    text::push_hex4(&mut said, found.vendor_id);
    said.append(between);
    text::push_hex4(&mut said, found.product_id);
    assert(said@ =~= id_pair(*found, between@));
    said
}

/// What `status` prints about one headset.
fn status_of(found: &Headset, published: &Option<String>) -> (said: String)
    ensures
        said@ == status_lines(*found, *published),
{
    let mut said = found.name.clone();
    said.append(" [");
    said.append(ids(found, ":").as_str());
    said.append("] via ");
    said.append(found.product.as_str());
    said.append("\n  battery: ");
    said.append(battery_text(found).as_str());
    said.append("\n  sysfs:   ");
    match published {
        Some(path) => said.append(path.as_str()),
        None => said.append("not published (is the daemon running?)"),
    }
    said.append("\n");
    said
}

/// What `status` prints, `published` being the path of each headset's power
/// supply where it has one.
pub fn status(headsets: &Vec<Headset>, published: &Vec<Option<String>>) -> (out: String)
    requires
        published@.len() == headsets@.len(),
    ensures
        out@ == (if headsets@.len() == 0 {
            "No headset detected.\n"@
        } else {
            all_status_lines(headsets@, published@)
        }),
{
    if headsets.len() == 0 {
        return "No headset detected.\n".to_owned();
    }
    let mut out = String::new();
    let mut at: usize = 0;
    assert(out@ =~= all_status_lines(headsets@.take(0), published@));
    while at < headsets.len()
        invariant
            at <= headsets.len(),
            published@.len() == headsets@.len(),
            out@ == all_status_lines(headsets@.take(at as int), published@),
        decreases headsets.len() - at,
    {
        out.append(status_of(&headsets[at], &published[at]).as_str());
        assert(headsets@.take(at + 1).drop_last() =~= headsets@.take(at as int));
        at = at + 1;
    }
    assert(headsets@.take(at as int) =~= headsets@);
    out
}

/// What the rules file begins with, whichever headsets there are.
///
/// UPower types a HID battery after its sibling nodes, and promotes it to
/// "headset" when one of them carries the properties systemd puts on a sound
/// card. It accepts an input node as that sibling, and the virtual device has
/// one, so tagging it is all it takes to get the headset icon instead of a
/// laptop battery.
pub open spec fn rules_head() -> Seq<char> {
    "# Generated by headset-battery-indicator udev-rules.\n"@
        + "# Lets the daemon's unprivileged service user talk to the headset.\n"@
        + "# Install as /etc/udev/rules.d/70-headset-battery-indicator.rules. The name\n"@
        + "# must sort before 73-seat-late.rules: once uaccess has put an ACL on the\n"@
        + "# node, MODE= only moves the ACL mask and the group never gets access.\n"@
        + "\n# Makes UPower (and the desktop) show a headset rather than a generic battery.\n"@
        + "SUBSYSTEM==\"input\", KERNEL==\"input*\", ATTR{phys}==\""@ + PHYS_PREFIX@
        + "/*\", ENV{SOUND_INITIALIZED}=\"1\", ENV{SOUND_FORM_FACTOR}=\"headset\"\n"@
}

/// The rule that grants a group access to one headset.
pub open spec fn rule_of(found: Headset, group: Seq<char>) -> Seq<char> {
    "\n# "@ + found.name@ + " ("@ + found.product@ + ")\nKERNEL==\"hidraw*\", ATTRS{idVendor}==\""@
        + id_pair(found, "\", ATTRS{idProduct}==\""@) + "\", GROUP=\""@ + group
        + "\", MODE=\"0660\"\n"@
}

/// The rules that grant a group access to those headsets, in order.
pub open spec fn rules_of(headsets: Seq<Headset>, group: Seq<char>) -> Seq<char>
    decreases headsets.len(),
{
    if headsets.len() == 0 {
        Seq::empty()
    } else {
        rules_of(headsets.drop_last(), group) + rule_of(headsets.last(), group)
    }
}

/// The rule that grants a group access to one headset.
fn rule(found: &Headset, group: &str) -> (said: String)
    ensures
        said@ == rule_of(*found, group@),
{
    let mut said = "\n# ".to_owned();
    said.append(found.name.as_str());
    said.append(" (");
    said.append(found.product.as_str());
    said.append(")\nKERNEL==\"hidraw*\", ATTRS{idVendor}==\"");
    said.append(ids(found, "\", ATTRS{idProduct}==\"").as_str());
    said.append("\", GROUP=\"");
    said.append(group);
    said.append("\", MODE=\"0660\"\n");
    said
}

/// What `udev-rules` prints: a rule that makes UPower show a headset, and one
/// for each headset that grants `group` access to its hidraw node.
pub fn udev_rules(headsets: &Vec<Headset>, group: &str) -> (out: String)
    ensures
        out@ == rules_head() + (if headsets@.len() == 0 {
            "# No headset detected; plug the dongle in and re-run.\n"@
        } else {
            rules_of(headsets@, group@)
        }),
{
    let mut out = "# Generated by headset-battery-indicator udev-rules.\n".to_owned();
    out.append("# Lets the daemon's unprivileged service user talk to the headset.\n");
    out.append("# Install as /etc/udev/rules.d/70-headset-battery-indicator.rules. The name\n");
    out.append("# must sort before 73-seat-late.rules: once uaccess has put an ACL on the\n");
    out.append("# node, MODE= only moves the ACL mask and the group never gets access.\n");
    out.append("\n# Makes UPower (and the desktop) show a headset rather than a generic battery.\n");
    out.append("SUBSYSTEM==\"input\", KERNEL==\"input*\", ATTR{phys}==\"");
    out.append(PHYS_PREFIX);
    out.append("/*\", ENV{SOUND_INITIALIZED}=\"1\", ENV{SOUND_FORM_FACTOR}=\"headset\"\n");
    assert(out@ == rules_head());
    if headsets.len() == 0 {
        out.append("# No headset detected; plug the dongle in and re-run.\n");
        return out;
    }
    let mut at: usize = 0;
    assert(out@ =~= rules_head() + rules_of(headsets@.take(0), group@));
    while at < headsets.len()
        invariant
            at <= headsets.len(),
            out@ == rules_head() + rules_of(headsets@.take(at as int), group@),
        decreases headsets.len() - at,
    {
        out.append(rule(&headsets[at], group).as_str());
        assert(headsets@.take(at + 1).drop_last() =~= headsets@.take(at as int));
        assert(out@ =~= rules_head() + rules_of(headsets@.take(at + 1), group@));
        at = at + 1;
    }
    assert(headsets@.take(at as int) =~= headsets@);
    out
}

/// A level is shown as its number and a percent sign, and a charging one as the
/// same with a word behind it; a headset that has none says why.
pub proof fn law_level_is_shown_as_a_number(found: Headset, other: Headset, level: u8)
    ensures
        found.battery == BatteryState::Discharging(level) ==> {
            let said = battery_words(found);
            &&& said.last() == '%'
            &&& text::parsed(said.drop_last(), 10, 255) == Some(level as nat)
        },
        found.battery == BatteryState::Discharging(level) && other.battery
            == BatteryState::Charging(Some(level)) ==> battery_words(other) == battery_words(found)
            + " (charging)"@,
        found.battery == BatteryState::Charging(None) ==> battery_words(found) == "charging"@,
        found.battery is Disconnected ==> battery_words(found)
            == "disconnected (switched off, or out of range)"@,
        found.battery is Unavailable && found.supports_battery ==> battery_words(found)
            == "unavailable (radio parked, or headset off)"@,
        found.battery is Unavailable && !found.supports_battery ==> battery_words(found)
            == "not supported by this headset"@,
{
    reveal_strlit("%");
    reveal_strlit("% (charging)");
    reveal_strlit(" (charging)");
    text::law_decimal_is_read_back(level as nat, 255);
    let digits = text::decimal(level as nat);
    assert((digits + "%"@).drop_last() =~= digits);
    assert("% (charging)"@ =~= "%"@ + " (charging)"@);
    assert(digits + "% (charging)"@ =~= digits + "%"@ + " (charging)"@);
}

/// IDs are shown as four hexadecimal digits each, and can be read back.
pub proof fn law_ids_are_shown_in_hexadecimal(found: Headset, between: Seq<char>)
    ensures
        ({
            let said = id_pair(found, between);
            &&& said.len() == 8 + between.len()
            &&& text::parsed(said.take(4), 16, 0xffff) == Some(found.vendor_id as nat)
            &&& said.subrange(4, 4 + between.len() as int) == between
            &&& text::parsed(said.skip(4 + between.len() as int), 16, 0xffff) == Some(
                found.product_id as nat,
            )
        }),
{
    let said = id_pair(found, between);
    text::law_hex_is_read_back(found.vendor_id);
    text::law_hex_is_read_back(found.product_id);
    assert(said.take(4) =~= text::hex4(found.vendor_id));
    assert(said.subrange(4, 4 + between.len() as int) =~= between);
    assert(said.skip(4 + between.len() as int) =~= text::hex4(found.product_id));
}

/// What is shown of a headset: its name, its IDs, what it is reached through, its
/// battery, and where its power supply is, if it has one.
pub proof fn law_status_shows_every_part(found: Headset, published: Option<String>)
    ensures
        status_lines(found, published) == found.name@ + " ["@ + text::hex4(found.vendor_id) + ":"@
            + text::hex4(found.product_id) + "] via "@ + found.product@ + "\n  battery: "@
            + battery_words(found) + "\n  sysfs:   "@ + (match published {
            Some(path) => path@,
            None => "not published (is the daemon running?)"@,
        }) + "\n"@,
{
    let head = found.name@ + " ["@;
    assert(head + id_pair(found, ":"@) =~= head + text::hex4(found.vendor_id) + ":"@ + text::hex4(
        found.product_id,
    ));
}

/// The lines of some headsets do not depend on what is published of others.
proof fn lemma_status_minds_its_own(
    headsets: Seq<Headset>,
    published: Seq<Option<String>>,
    last: Option<String>,
)
    requires
        headsets.len() <= published.len(),
    ensures
        all_status_lines(headsets, published.push(last)) == all_status_lines(headsets, published),
    decreases headsets.len(),
{
    if headsets.len() > 0 {
        lemma_status_minds_its_own(headsets.drop_last(), published, last);
        assert(published.push(last)[headsets.len() - 1] == published[headsets.len() - 1]);
    }
}

/// Each headset is shown after those before it, with its own power supply.
pub proof fn law_status_shows_each_headset(
    headsets: Seq<Headset>,
    published: Seq<Option<String>>,
    found: Headset,
    path: Option<String>,
)
    requires
        headsets.len() == published.len(),
    ensures
        all_status_lines(headsets.push(found), published.push(path)) == all_status_lines(
            headsets,
            published,
        ) + status_lines(found, path),
        all_status_lines(Seq::<Headset>::empty(), published).len() == 0,
{
    lemma_status_minds_its_own(headsets, published, path);
    assert(headsets.push(found).drop_last() =~= headsets);
}

/// Each headset gets a rule of its own after those before it, which names its
/// IDs and grants access to that group and no other.
pub proof fn law_each_headset_gets_a_rule(headsets: Seq<Headset>, found: Headset, group: Seq<char>)
    ensures
        rules_of(headsets.push(found), group) == rules_of(headsets, group) + rule_of(found, group),
        rules_of(Seq::<Headset>::empty(), group).len() == 0,
        rule_of(found, group) == "\n# "@ + found.name@ + " ("@ + found.product@
            + ")\nKERNEL==\"hidraw*\", ATTRS{idVendor}==\""@ + text::hex4(found.vendor_id)
            + "\", ATTRS{idProduct}==\""@ + text::hex4(found.product_id) + "\", GROUP=\""@ + group
            + "\", MODE=\"0660\"\n"@,
{
    assert(headsets.push(found).drop_last() =~= headsets);
    let head = "\n# "@ + found.name@ + " ("@ + found.product@
        + ")\nKERNEL==\"hidraw*\", ATTRS{idVendor}==\""@;
    assert(head + id_pair(found, "\", ATTRS{idProduct}==\""@) =~= head + text::hex4(found.vendor_id)
        + "\", ATTRS{idProduct}==\""@ + text::hex4(found.product_id));
}

} // verus!
