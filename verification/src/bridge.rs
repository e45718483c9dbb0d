//! The daemon itself: what to make of the batteries that were read, which
//! virtual batteries to keep, and what to publish on them.
//!
//! Reading the headsets and talking to the kernel is done elsewhere. This
//! module decides: it is told what was found and what came of its last
//! decision, and says what to do next.

pub mod entry;
pub mod pool;
pub mod tick;

use vstd::prelude::*;
use vstd::utf8::*;
use crate::bridge::entry::{Entry, Move, Reading};
use crate::bridge::pool::{DevicePool, OUT_OF_DESCRIPTORS};
use crate::headset::{self, BatteryState, Headset};
use crate::source::Source;
use crate::text;
use crate::time::{self, Duration, Instant};
use crate::uhid::{self, CreateParams, DEV_UHID};

verus! {

/// Default for [`Config::interval`], in seconds.
pub const DEFAULT_INTERVAL_SECS: u64 = 60;

/// Default for [`Config::native_interval`], in seconds.
pub const DEFAULT_NATIVE_INTERVAL_SECS: u64 = 10;

/// Default for [`Config::offline_grace`], in seconds.
pub const DEFAULT_OFFLINE_GRACE_SECS: u64 = 10;

/// Default for [`Config::missing_grace`], in seconds.
pub const DEFAULT_MISSING_GRACE_SECS: u64 = 30;

/// Once a poll goes unanswered, after how many seconds to ask again. Several
/// retries fit in the grace, so one lost reading never makes the entry flap -
/// and withdrawing is cheap to undo, the battery is back on the first poll that
/// answers.
pub const UNANSWERED_RETRY_SECS: u64 = 3;

/// The most seconds a single `poll()` may block. A signal interrupts `poll()`,
/// so this only bounds the shutdown delay in the unlucky case where the signal
/// lands between checking the stop flag and entering the call.
pub const MAX_WAIT_SECS: u64 = 5;

/// First component of the virtual devices' `phys`, which the udev rule that
/// makes UPower report a headset matches on.
pub const PHYS_PREFIX: &'static str = "headset-battery-indicator";

/// How many seconds the kernel gets to register the power supply after a device
/// is created. It happens synchronously in practice; this is slack.
pub const REGISTRATION_TIMEOUT_SECS: u64 = 2;

/// A reading further than this from the last known level is held back until the
/// next poll confirms it.
///
/// Wireless dongles hand out the occasional bogus frame - an Audeze Maxwell
/// will answer `0%` or `44%` between two `92%` readings - and a spurious `0%`
/// is enough to make the desktop shout about a critical battery. No headset
/// moves fifteen points in one polling interval, so a jump that large is either
/// noise or a genuine change that will still be there on the next poll.
pub const MAX_PLAUSIBLE_STEP: u8 = 15;

/// How close a confirmation has to be to the reading it confirms.
pub const CONFIRM_TOLERANCE: u8 = 5;

/// Level change worth an INFO line; anything smaller is logged at debug, so a
/// headset hovering between 91% and 92% does not fill the journal.
pub const LOG_STEP: u8 = 5;

/// How loud a line of the journal is.
#[derive(Debug, Clone, Copy, PartialEq, Eq, Structural)]
pub enum Loudness {
    /// Something is wrong.
    Warn,
    /// Worth knowing.
    Info,
    /// Only for whoever is looking closely.
    Debug,
}

/// What a poll found, coarse enough that it only changes when something worth
/// saying happened.
///
/// Without this the daemon is silent both when the headset is switched off and
/// when it cannot see the dongle at all, which are very different problems.
#[derive(Debug, Clone, Copy, PartialEq, Eq, Structural)]
pub enum Summary {
    /// No supported device was found.
    NoDevice,
    /// Devices were found, but none of them reports a battery.
    NoBattery,
    /// A headset is known, but it is not answering battery queries.
    Offline,
    /// At least one headset reported a level.
    Online,
}

/// Whether that headset has a battery, and says something about it.
pub open spec fn is_answering(found: Headset) -> bool {
    found.supports_battery && found.battery != BatteryState::Unavailable && found.battery
        != BatteryState::Disconnected
}

/// What those headsets come to.
pub open spec fn summary_of(headsets: Seq<Headset>) -> Summary {
    if headsets.len() == 0 {
        Summary::NoDevice
    } else if forall|i: int|
        0 <= i < headsets.len() ==> !(#[trigger] headsets[i]).supports_battery {
        Summary::NoBattery
    } else if exists|i: int| 0 <= i < headsets.len() && is_answering(#[trigger] headsets[i]) {
        Summary::Online
    } else {
        Summary::Offline
    }
}

impl Summary {
    /// Sums up what a poll found.
    pub fn of(headsets: &Vec<Headset>) -> (summary: Summary)
        ensures
            summary == summary_of(headsets@),
    {
        if headsets.len() == 0 {
            return Summary::NoDevice;
        }
        let mut supported = false;
        let mut at: usize = 0;
        while at < headsets.len()
            invariant
                at <= headsets.len(),
                headsets.len() > 0,
                supported == exists|i: int|
                    0 <= i < at && (#[trigger] headsets@[i]).supports_battery,
                forall|i: int| 0 <= i < at ==> !is_answering(#[trigger] headsets@[i]),
            decreases headsets.len() - at,
        {
            let found = &headsets[at];
            if found.supports_battery {
                supported = true;
                match found.battery {
                    BatteryState::Unavailable | BatteryState::Disconnected => {},
                    _ => {
                        assert(is_answering(headsets@[at as int]));
                        return Summary::Online;
                    },
                }
            }
            at = at + 1;
        }
        if supported {
            Summary::Offline
        } else {
            Summary::NoBattery
        }
    }
}

/// Runtime configuration of the bridge.
#[derive(Debug, Clone)]
pub struct Config {
    /// Delay between two readings through HeadsetControl, which is expensive:
    /// twenty packets and close to three seconds each.
    pub interval: Duration,
    /// Delay between two readings when the native reader answers. One request,
    /// 70 ms: cheap enough to notice within seconds that the headset was
    /// switched off, or on again.
    pub native_interval: Duration,
    /// How long a headset that is still detected, but no longer answering
    /// battery queries, keeps its entry: long enough for a few retries, so one
    /// lost reading does not make the applet blink, and no longer - the way a
    /// Bluetooth peripheral's battery vanishes on disconnect.
    pub offline_grace: Duration,
    /// How long a headset that is no longer reported at all keeps its entry:
    /// the unplugged dongle, or a reader failing outright. A little longer than
    /// [`Config::offline_grace`], because a failing `headsetcontrol` takes
    /// seconds per attempt.
    pub missing_grace: Duration,
    /// Path of the uhid character device.
    pub uhid_path: String,
}

impl Default for Config {
    fn default() -> (config: Self)
        ensures
            config.interval == time::seconds(DEFAULT_INTERVAL_SECS),
            config.native_interval == time::seconds(DEFAULT_NATIVE_INTERVAL_SECS),
            config.offline_grace == time::seconds(DEFAULT_OFFLINE_GRACE_SECS),
            config.missing_grace == time::seconds(DEFAULT_MISSING_GRACE_SECS),
            config.interval.nanos == 60_000_000_000,
            config.native_interval.nanos == 10_000_000_000,
            config.offline_grace.nanos == 10_000_000_000,
            config.missing_grace.nanos == 30_000_000_000,
            config.uhid_path@ == DEV_UHID@,
    {
        Config {
            interval: Duration::from_secs(DEFAULT_INTERVAL_SECS),
            native_interval: Duration::from_secs(DEFAULT_NATIVE_INTERVAL_SECS),
            offline_grace: Duration::from_secs(DEFAULT_OFFLINE_GRACE_SECS),
            missing_grace: Duration::from_secs(DEFAULT_MISSING_GRACE_SECS),
            uhid_path: DEV_UHID.to_owned(),
        }
    }
}

/// How long to wait before the next poll.
pub open spec fn delay(unanswered: bool, native: bool, config: Config) -> Duration {
    let regular = if native {
        time::shorter(config.native_interval, config.interval)
    } else {
        config.interval
    };
    if unanswered {
        time::shorter(time::seconds(UNANSWERED_RETRY_SECS), regular)
    } else {
        regular
    }
}

/// How long to wait before the next poll.
///
/// A battery that just went quiet is asked again shortly, so that it is
/// withdrawn within seconds of the headset being switched off rather than a
/// minute later; otherwise the cadence is whatever the reader that answered can
/// afford.
pub fn next_delay(unanswered: bool, native: bool, config: &Config) -> (span: Duration)
    ensures
        span == delay(unanswered, native, *config),
{
    let regular = if native {
        config.native_interval.min(config.interval)
    } else {
        config.interval
    };
    if unanswered {
        Duration::from_secs(UNANSWERED_RETRY_SECS).min(regular)
    } else {
        regular
    }
}

/// How long to block before looking at the stop flag again, on the way to
/// `deadline`; nothing once that is past.
pub fn next_wait(deadline: Instant, now: Instant) -> (span: Option<Duration>)
    ensures
        span is Some <==> now.nanos <= deadline.nanos,
        span matches Some(s) ==> s == time::shorter(
            time::elapsed(now, deadline),
            time::seconds(MAX_WAIT_SECS),
        ),
        span matches Some(s) ==> s.nanos <= 5_000_000_000 && now.nanos + s.nanos <= deadline.nanos
            && (s.nanos == 5_000_000_000 || now.nanos + s.nanos == deadline.nanos),
{
    match deadline.checked_duration_since(now) {
        Some(remaining) => Some(remaining.min(Duration::from_secs(MAX_WAIT_SECS))),
        None => None,
    }
}

/// `timeout`, cut short by every push that is due before it is over.
pub open spec fn until_first_push(timeout: Duration, due: Seq<Option<Instant>>, now: Instant) -> Duration
    decreases due.len(),
{
    if due.len() == 0 {
        timeout
    } else {
        let earlier = until_first_push(timeout, due.drop_last(), now);
        match due.last() {
            Some(at) => time::shorter(earlier, time::elapsed(now, at)),
            None => earlier,
        }
    }
}

/// How long to wait for the kernel, `timeout` at most: less only if a battery
/// has a push of its own coming up, `due` saying when each of them has.
pub fn wait_span(timeout: Duration, due: &Vec<Option<Instant>>, now: Instant) -> (span: Duration)
    ensures
        span == until_first_push(timeout, due@, now),
{
    let mut span = timeout;
    let mut at: usize = 0;
    assert(due@.take(0) =~= Seq::<Option<Instant>>::empty());
    while at < due.len()
        invariant
            at <= due.len(),
            span == until_first_push(timeout, due@.take(at as int), now),
        decreases due.len() - at,
    {
        assert(due@.take(at + 1).drop_last() =~= due@.take(at as int));
        if let Some(moment) = due[at] {
            span = span.min(moment.duration_since(now));
        }
        at = at + 1;
    }
    assert(due@.take(at as int) =~= due@);
    span
}

/// A wait never outlasts its timeout, nor any push that is due; and it is no
/// shorter than one of them.
pub proof fn law_wait_ends_in_time(timeout: Duration, due: Seq<Option<Instant>>, now: Instant)
    ensures
        until_first_push(timeout, due, now).nanos <= timeout.nanos,
        forall|i: int|
            0 <= i < due.len() ==> (#[trigger] due[i] matches Some(at) ==> until_first_push(
                timeout,
                due,
                now,
            ).nanos <= time::elapsed(now, at).nanos),
        until_first_push(timeout, due, now) == timeout || exists|i: int|
            0 <= i < due.len() && (#[trigger] due[i] matches Some(at) && until_first_push(
                timeout,
                due,
                now,
            ) == time::elapsed(now, at)),
    decreases due.len(),
{
    if due.len() > 0 {
        let rest = due.drop_last();
        law_wait_ends_in_time(timeout, rest, now);
        assert forall|i: int| 0 <= i < due.len() implies (#[trigger] due[i] matches Some(at)
            ==> until_first_push(timeout, due, now).nanos <= time::elapsed(now, at).nanos) by {
            if i < rest.len() {
                assert(rest[i] == due[i]);
            }
        }
        let earlier = until_first_push(timeout, rest, now);
        if until_first_push(timeout, due, now) == earlier {
            if earlier != timeout {
                let i = choose|i: int|
                    0 <= i < rest.len() && (#[trigger] rest[i] matches Some(at) && earlier
                        == time::elapsed(now, at));
                assert(due[i] == rest[i]);
            }
        } else {
            assert(due[due.len() - 1] == due.last());
        }
    }
}

/// Why a virtual battery is being taken down, if it is.
#[derive(Debug, Clone, Copy, PartialEq, Eq, Structural)]
pub enum Withdrawal {
    /// Keep publishing the last known level.
    Keep,
    /// The headset is still detected but has not answered in a long time.
    Silent,
    /// The headset is no longer reported at all.
    Missing,
}

/// Whether a battery still deserves its entry.
pub open spec fn fate(silent_for: Duration, missing_for: Duration, config: Config) -> Withdrawal {
    if missing_for.nanos > config.missing_grace.nanos {
        Withdrawal::Missing
    } else if silent_for.nanos > config.offline_grace.nanos {
        Withdrawal::Silent
    } else {
        Withdrawal::Keep
    }
}

/// Decides whether a battery still deserves its entry.
///
/// `silent_for` is the time since the last usable level, `missing_for` the
/// time since the headset last appeared in a poll at all.
pub fn withdrawal(silent_for: Duration, missing_for: Duration, config: &Config) -> (verdict:
    Withdrawal)
    ensures
        verdict == fate(silent_for, missing_for, *config),
{
    if missing_for.nanos > config.missing_grace.nanos {
        Withdrawal::Missing
    } else if silent_for.nanos > config.offline_grace.nanos {
        Withdrawal::Silent
    } else {
        Withdrawal::Keep
    }
}

/// What to do with a freshly read battery level.
#[derive(Debug, Clone, Copy, PartialEq, Eq, Structural)]
pub enum Verdict {
    /// The reading is consistent with what we knew.
    Accept,
    /// The reading is too far off to be trusted on its own.
    Defer,
}

/// How far apart two levels are.
pub open spec fn distance(a: u8, b: u8) -> int {
    if a <= b {
        b - a
    } else {
        a - b
    }
}

/// How far apart two levels are.
pub fn abs_diff(a: u8, b: u8) -> (d: u8)
    ensures
        d == distance(a, b),
{
    if a <= b {
        b - a
    } else {
        a - b
    }
}

/// Whether a level may be published: it is plausible, or was read twice.
pub open spec fn is_credible(published: u8, candidate: u8, deferred: Option<u8>) -> bool {
    distance(published, candidate) <= MAX_PLAUSIBLE_STEP || (deferred matches Some(previous)
        && distance(previous, candidate) <= CONFIRM_TOLERANCE)
}

/// Vets `candidate` against the level we last published, and against the
/// reading we deferred on the previous poll, if any.
///
/// The same surprising level twice in a row is a real change: a laptop that
/// slept for a night comes back to a genuinely emptier headset.
pub fn vet(published: u8, candidate: u8, deferred: Option<u8>) -> (verdict: Verdict)
    ensures
        verdict == (if is_credible(published, candidate, deferred) {
            Verdict::Accept
        } else {
            Verdict::Defer
        }),
{
    if abs_diff(published, candidate) <= MAX_PLAUSIBLE_STEP {
        return Verdict::Accept;
    }
    match deferred {
        Some(previous) => if abs_diff(previous, candidate) <= CONFIRM_TOLERANCE {
            Verdict::Accept
        } else {
            Verdict::Defer
        },
        None => Verdict::Defer,
    }
}

/// A virtual battery mirroring one headset. `H` is a uhid handle.
#[derive(Debug)]
pub struct VirtualBattery<H> {
    /// The key of the headset.
    pub key: String,
    /// Its name.
    pub name: String,
    /// The device.
    pub device: H,
    /// What is known of the battery.
    pub entry: Entry,
}

/// A battery that was taken out, its device still to be destroyed.
#[derive(Debug)]
pub struct Withdrawn<H> {
    /// The battery.
    pub battery: VirtualBattery<H>,
    /// Why.
    pub why: Withdrawal,
}

/// A line for the journal.
#[derive(Debug)]
pub struct Note {
    /// How loud it is.
    pub loudness: Loudness,
    /// What it says.
    pub text: String,
}

/// What to do about a headset that was reported.
#[derive(Debug)]
pub enum Step<H> {
    /// It reports no battery: pass it over.
    Skip,
    /// It is charging but has not reported a level yet.
    NoLevelYet,
    /// It is not answering.
    Rest,
    /// It is new: register a virtual battery at that level.
    Attach {
        /// The level.
        percent: u8,
        /// Whether it is charging.
        charging: bool,
    },
    /// The level of the battery at `index` is implausible, and held back.
    Hold {
        /// Which battery.
        index: usize,
    },
    /// Publish a level on the battery at `index`.
    Publish {
        /// Which battery.
        index: usize,
        /// The level.
        percent: u8,
        /// Whether it is charging.
        charging: bool,
        /// How loudly to say so, if it is news.
        said: Option<Loudness>,
    },
    /// That battery is no more: destroy its device.
    Withdraw(VirtualBattery<H>),
}

/// Why a headset has no virtual battery.
#[derive(Debug, Clone, Copy, PartialEq, Eq, Structural)]
pub enum AttachError {
    /// Every inherited descriptor is in use, and none may be opened.
    OutOfDescriptors,
    /// The device node could not be opened.
    NotOpened,
    /// The kernel would not create the device.
    NotCreated,
    /// The kernel created the device but built no power supply for it.
    NoSupply,
    /// Waiting for the power supply failed.
    WaitFailed,
}

/// The bridge between the readers and UPower. `F` is an open dongle, `H` a uhid
/// handle.
#[derive(Debug)]
pub struct Bridge<F, H> {
    /// How it is configured.
    pub config: Config,
    /// Where the readings come from.
    pub source: Source<F>,
    /// The handles at hand.
    pub pool: DevicePool<H>,
    /// The batteries that are published.
    pub batteries: Vec<VirtualBattery<H>>,
    /// Whether the last probe failed.
    pub probe_failing: bool,
    /// What was last said about a poll.
    pub last_summary: Option<Summary>,
}

/// Whether no two batteries mirror the same headset.
pub open spec fn are_distinct<H>(batteries: Seq<VirtualBattery<H>>) -> bool {
    forall|i: int, j: int|
        0 <= i < j < batteries.len() ==> (#[trigger] batteries[i]).key@ != (
        #[trigger] batteries[j]).key@
}

/// The key a headset is known by.
pub open spec fn key_of(found: Headset) -> Seq<char> {
    headset::key_of(found.vendor_id, found.product_id, found.name@)
}

/// Whether that is where the battery of that key stands.
pub open spec fn stands_at<H>(batteries: Seq<VirtualBattery<H>>, key: Seq<char>, index: int) -> bool {
    0 <= index < batteries.len() && batteries[index].key@ == key
}

/// Whether no battery has that key.
pub open spec fn is_absent<H>(batteries: Seq<VirtualBattery<H>>, key: Seq<char>) -> bool {
    forall|i: int| 0 <= i < batteries.len() ==> (#[trigger] batteries[i]).key@ != key
}

/// What is to be done about a headset that has no battery yet.
pub open spec fn first_step<H>(found: Headset) -> Step<H> {
    match entry::reading_of(found.battery, None) {
        Reading::Level { percent, charging } => Step::Attach { percent, charging },
        Reading::NoLevelYet => Step::NoLevelYet,
        Reading::Silent => Step::Rest,
        Reading::Gone => Step::Rest,
    }
}

/// What a headset's report does to the batteries, and what is to be done next.
pub open spec fn applied<H>(
    before: Seq<VirtualBattery<H>>,
    found: Headset,
    now: Instant,
    after: Seq<VirtualBattery<H>>,
    step: Step<H>,
) -> bool {
    &&& !found.supports_battery ==> step == Step::<H>::Skip && after == before
    &&& found.supports_battery && is_absent(before, key_of(found)) ==> step == first_step::<H>(
        found,
    ) && after == before
    &&& found.supports_battery ==> forall|i: int|
        #![trigger before[i]]
        stands_at(before, key_of(found), i) ==> updated(before, i, found, now, after, step)
}

/// What a headset's report does to the battery at that index.
pub open spec fn updated<H>(
    before: Seq<VirtualBattery<H>>,
    index: int,
    found: Headset,
    now: Instant,
    after: Seq<VirtualBattery<H>>,
    step: Step<H>,
) -> bool {
    let battery = before[index];
    let (entry, next) = entry::after_report(battery.entry, found.battery, found.sample, now);
    let fresh = VirtualBattery { entry, ..battery };
    match next {
        Move::Rest => step == Step::<H>::Rest && after == before.update(index, fresh),
        Move::Hold => step == (Step::<H>::Hold { index: index as usize }) && after == before.update(
            index,
            fresh,
        ),
        Move::Publish { percent, charging, said } => step == (Step::<H>::Publish {
            index: index as usize,
            percent,
            charging,
            said,
        }) && after == before.update(index, fresh),
        Move::Withdraw => step == Step::Withdraw(fresh) && after == before.remove(index),
    }
}

/// What registering a new battery does to the others: it joins them at the end.
pub open spec fn attached<H>(
    before: Seq<VirtualBattery<H>>,
    found: Headset,
    percent: u8,
    charging: bool,
    now: Instant,
    device: H,
    after: Seq<VirtualBattery<H>>,
) -> bool {
    &&& after.len() == before.len() + 1
    &&& after.drop_last() == before
    &&& after.last().key@ == key_of(found)
    &&& after.last().name@ == found.name@
    &&& after.last().device == device
    &&& after.last().entry == (Entry {
        percent,
        charging,
        last_reading: now,
        last_seen: now,
        deferred: None,
        logged_percent: percent,
    })
}

/// The batteries once that level has been published on one of them.
pub open spec fn with_level<H>(
    batteries: Seq<VirtualBattery<H>>,
    index: int,
    percent: u8,
    charging: bool,
) -> Seq<VirtualBattery<H>> {
    batteries.update(
        index,
        VirtualBattery {
            entry: Entry { percent, charging, ..batteries[index].entry },
            ..batteries[index]
        },
    )
}

/// Whether one of those batteries went unanswered at `now`.
pub open spec fn is_unanswered<H>(batteries: Seq<VirtualBattery<H>>, now: Instant) -> bool {
    exists|i: int|
        0 <= i < batteries.len() && (#[trigger] batteries[i]).entry.last_reading != now
}

/// What becomes of that battery by `now`.
pub open spec fn fate_of<H>(battery: VirtualBattery<H>, config: Config, now: Instant) -> Withdrawal {
    fate(
        time::elapsed(battery.entry.last_reading, now),
        time::elapsed(battery.entry.last_seen, now),
        config,
    )
}

/// The batteries that keep their entry, in order.
pub open spec fn kept<H>(batteries: Seq<VirtualBattery<H>>, config: Config, now: Instant) -> Seq<
    VirtualBattery<H>,
>
    decreases batteries.len(),
{
    if batteries.len() == 0 {
        batteries
    } else if fate_of(batteries.last(), config, now) == Withdrawal::Keep {
        kept(batteries.drop_last(), config, now).push(batteries.last())
    } else {
        kept(batteries.drop_last(), config, now)
    }
}

/// The batteries that have outlived their grace, in order, each with the reason.
pub open spec fn expired<H>(batteries: Seq<VirtualBattery<H>>, config: Config, now: Instant) -> Seq<
    Withdrawn<H>,
>
    decreases batteries.len(),
{
    if batteries.len() == 0 {
        Seq::empty()
    } else {
        let last = batteries.last();
        let why = fate_of(last, config, now);
        if why == Withdrawal::Keep {
            expired(batteries.drop_last(), config, now)
        } else {
            expired(batteries.drop_last(), config, now).push(Withdrawn { battery: last, why })
        }
    }
}

/// The names of those headsets, as a list to read.
pub open spec fn names_of(headsets: Seq<Headset>) -> Seq<char> {
    text::joined(headsets.map_values(|found: Headset| found.name@), ", "@)
}

/// How loudly a summary is announced.
pub open spec fn loudness_of(summary: Summary) -> Loudness {
    if summary == Summary::Online {
        Loudness::Debug
    } else {
        Loudness::Info
    }
}

/// How a summary is announced, the headsets having those names.
pub open spec fn announcement(summary: Summary, names: Seq<char>) -> Seq<char> {
    match summary {
        Summary::NoDevice => "no supported headset found: check that the dongle is plugged in, and that this service may reach its hidraw node (run `headset-battery-indicator udev-rules` and install the result)"@,
        Summary::NoBattery => names + " found, but none reports a battery"@,
        Summary::Offline => names
            + " is detected but not answering battery queries (switched off?); keeping its entry for a few more polls"@,
        Summary::Online => names + " is answering"@,
    }
}

/// Lists the names of those headsets.
fn list_names(headsets: &Vec<Headset>) -> (names: String)
    ensures
        names@ == names_of(headsets@),
{
    let mut names = String::new();
    let mut at: usize = 0;
    let ghost all = headsets@.map_values(|found: Headset| found.name@);
    assert(names@ =~= text::joined(all.take(0), ", "@));
    while at < headsets.len()
        invariant
            at <= headsets.len(),
            all == headsets@.map_values(|found: Headset| found.name@),
            names@ == text::joined(all.take(at as int), ", "@),
        decreases headsets.len() - at,
    {
        assert(all.take(at + 1).drop_last() =~= all.take(at as int));
        if at > 0 {
            names.append(", ");
        }
        names.append(headsets[at].name.as_str());
        assert(names@ =~= text::joined(all.take(at + 1), ", "@));
        at = at + 1;
    }
    assert(all.take(at as int) =~= all);
    names
}

/// The identifier of a headset's device.
pub open spec fn uniq_of(found: Headset) -> Seq<char> {
    headset::uniq_of(found.vendor_id, found.product_id)
}

/// Whether those are the parameters of the device of that headset.
pub open spec fn identifies(params: CreateParams, found: Headset) -> bool {
    &&& params.name@ == headset::label_of(found.name@)
    &&& params.phys@ == PHYS_PREFIX@ + "/"@ + uniq_of(found)
    &&& params.uniq@ == uniq_of(found)
    &&& params.vendor == found.vendor_id
    &&& params.product == found.product_id
}

/// The device to create for a headset.
pub fn identity(found: &Headset) -> (params: CreateParams)
    ensures
        identifies(params, *found),
{
    let uniq = found.uniq();
    let mut phys = PHYS_PREFIX.to_owned();
    phys.append("/");
    phys.append(uniq.as_str());
    CreateParams {
        name: found.display_name(),
        phys,
        uniq,
        vendor: found.vendor_id as u32,
        product: found.product_id as u32,
    }
}

impl AttachError {
    /// What to tell whoever reads the journal, the device being named `uniq` and
    /// its node being at `path`.
    ///
    /// The kernel accepts a device it then builds no battery for without a word,
    /// which is why that is looked for instead of assumed.
    pub fn message(&self, uniq: &str, path: &str) -> (said: String)
        ensures
            said@ == (match *self {
                AttachError::OutOfDescriptors => OUT_OF_DESCRIPTORS@,
                AttachError::NotOpened => "opening "@ + path@,
                AttachError::NotCreated => "creating the virtual HID battery"@,
                AttachError::NoSupply => "the kernel created the HID device but no hid-"@ + uniq@
                    + "-battery power supply; is CONFIG_HID_BATTERY_STRENGTH enabled? (see `journalctl -k`)"@,
                AttachError::WaitFailed => "waiting for the power supply"@,
            }),
    {
        match *self {
            AttachError::OutOfDescriptors => OUT_OF_DESCRIPTORS.to_owned(),
            AttachError::NotOpened => {
                let mut said = "opening ".to_owned();
                said.append(path);
                said
            },
            AttachError::NotCreated => "creating the virtual HID battery".to_owned(),
            AttachError::NoSupply => {
                let mut said = "the kernel created the HID device but no hid-".to_owned();
                said.append(uniq);
                said.append(
                    "-battery power supply; is CONFIG_HID_BATTERY_STRENGTH enabled? (see `journalctl -k`)",
                );
                said
            },
            AttachError::WaitFailed => "waiting for the power supply".to_owned(),
        }
    }
}

impl<F, H> Bridge<F, H> {
    /// Whether no two batteries mirror the same headset.
    pub open spec fn wf(self) -> bool {
        are_distinct(self.batteries@)
    }

    /// Whether everything but the batteries is the same.
    pub open spec fn same_but_batteries(self, other: Bridge<F, H>) -> bool {
        &&& self.config == other.config
        &&& self.source == other.source
        &&& self.pool == other.pool
        &&& self.probe_failing == other.probe_failing
        &&& self.last_summary == other.last_summary
    }

    /// Builds a bridge from its configuration and any inherited uhid handle.
    #[must_use]
    pub fn new(config: Config, source: Source<F>, inherited: Vec<H>) -> (bridge: Self)
        ensures
            bridge.wf(),
            bridge.config == config,
            bridge.source == source,
            bridge.pool.spare == inherited,
            bridge.pool.path@ == config.uhid_path@,
            bridge.pool.may_open == (inherited@.len() == 0),
            bridge.batteries@.len() == 0,
            !bridge.probe_failing,
            bridge.last_summary is None,
    {
        let pool = DevicePool::new(inherited, config.uhid_path.clone());
        Bridge {
            config,
            source,
            pool,
            batteries: Vec::new(),
            probe_failing: false,
            last_summary: None,
        }
    }

    /// Takes note of a probe that failed, and tells how loud to be about it:
    /// only the first failure of a streak is worth a warning, so that a dongle
    /// that is unplugged for a week does not fill the journal.
    pub fn probe_failed(&mut self) -> (loudness: Loudness)
        ensures
            loudness == (if old(self).probe_failing {
                Loudness::Debug
            } else {
                Loudness::Warn
            }),
            final(self).probe_failing == failing_after(old(self).probe_failing, seq![false]),
            *final(self) == (Bridge { probe_failing: true, ..*old(self) }),
    {
        if self.probe_failing {
            Loudness::Debug
        } else {
            self.probe_failing = true;
            Loudness::Warn
        }
    }

    /// Takes note of a probe that went well, and tells whether that is news.
    pub fn probe_succeeded(&mut self) -> (back: bool)
        ensures
            back == old(self).probe_failing,
            final(self).probe_failing == failing_after(old(self).probe_failing, seq![true]),
            *final(self) == (Bridge { probe_failing: false, ..*old(self) }),
    {
        let back = self.probe_failing;
        self.probe_failing = false;
        back
    }

    /// Says what the poll found, but only when that changed since last time.
    pub fn announce(&mut self, summary: Summary, headsets: &Vec<Headset>) -> (note: Option<Note>)
        ensures
            *final(self) == (Bridge { last_summary: Some(summary), ..*old(self) }),
            (note is None) == (old(self).last_summary == Some(summary)),
            note matches Some(said) ==> said.loudness == loudness_of(summary) && said.text@
                == announcement(summary, names_of(headsets@)),
    {
        if let Some(last) = self.last_summary {
            if last == summary {
                return None;
            }
        }
        self.last_summary = Some(summary);
        let text = match summary {
            Summary::NoDevice => "no supported headset found: check that the dongle is plugged in, and that this service may reach its hidraw node (run `headset-battery-indicator udev-rules` and install the result)".to_owned(),
            Summary::NoBattery => {
                let mut text = list_names(headsets);
                text.append(" found, but none reports a battery");
                text
            },
            Summary::Offline => {
                let mut text = list_names(headsets);
                text.append(
                    " is detected but not answering battery queries (switched off?); keeping its entry for a few more polls",
                );
                text
            },
            Summary::Online => {
                let mut text = list_names(headsets);
                text.append(" is answering");
                text
            },
        };
        let loudness = if summary == Summary::Online {
            Loudness::Debug
        } else {
            Loudness::Info
        };
        Some(Note { loudness, text })
    }

    /// Where the battery of that key stands, if there is one.
    pub fn index_of(&self, key: &str) -> (index: Option<usize>)
        ensures
            match index {
                Some(at) => stands_at(self.batteries@, key@, at as int),
                None => is_absent(self.batteries@, key@),
            },
    {
        let mut at: usize = 0;
        while at < self.batteries.len()
            invariant
                at <= self.batteries.len(),
                forall|i: int| 0 <= i < at ==> (#[trigger] self.batteries@[i]).key@ != key@,
            decreases self.batteries.len() - at,
        {
            if text::same(self.batteries[at].key.as_str(), key) {
                return Some(at);
            }
            at = at + 1;
        }
        None
    }

    /// Takes note of what a headset reported, and says what to do about the
    /// virtual battery backing it.
    pub fn apply(&mut self, found: &Headset, now: Instant) -> (step: Step<H>)
        requires
            old(self).wf(),
        ensures
            final(self).wf(),
            final(self).same_but_batteries(*old(self)),
            applied(old(self).batteries@, *found, now, final(self).batteries@, step),
    {
        if !found.supports_battery {
            return Step::Skip;
        }
        let key = found.key();
        let index: usize = match self.index_of(key.as_str()) {
            Some(index) => index,
            None => {
                return match entry::read(found.battery, None) {
                    Reading::Level { percent, charging } => Step::Attach { percent, charging },
                    Reading::NoLevelYet => Step::NoLevelYet,
                    Reading::Silent | Reading::Gone => Step::Rest,
                };
            },
        };
        assert forall|i: int| stands_at(old(self).batteries@, key@, i) implies i == index by {
            if i != index {
                if i < index {
                    assert(old(self).batteries@[i].key@ != old(self).batteries@[index as int].key@);
                } else {
                    assert(old(self).batteries@[index as int].key@ != old(self).batteries@[i].key@);
                }
            }
        }
        assert(!is_absent(old(self).batteries@, key@)) by {
            assert(old(self).batteries@[index as int].key@ == key@);
        }
        let mut entry = self.batteries[index].entry;
        let next = entry.report(found.battery, found.sample, now);
        self.batteries[index].entry = entry;
        proof {
            let updated = VirtualBattery { entry, ..old(self).batteries@[index as int] };
            assert(self.batteries@ =~= old(self).batteries@.update(index as int, updated));
            assert forall|i: int, j: int| 0 <= i < j < self.batteries@.len() implies (
            #[trigger] self.batteries@[i]).key@ != (#[trigger] self.batteries@[j]).key@ by {
                assert(old(self).batteries@[i].key@ != old(self).batteries@[j].key@);
            }
        }
        match next {
            Move::Rest => Step::Rest,
            Move::Hold => Step::Hold { index },
            Move::Publish { percent, charging, said } => Step::Publish {
                index,
                percent,
                charging,
                said,
            },
            Move::Withdraw => {
                let battery = self.batteries.remove(index);
                assert(self.batteries@ =~= old(self).batteries@.remove(index as int));
                Step::Withdraw(battery)
            },
        }
    }

    /// Takes note that a level has been published on the battery at `index`.
    pub fn published(&mut self, index: usize, percent: u8, charging: bool)
        requires
            old(self).wf(),
            index < old(self).batteries@.len(),
        ensures
            final(self).wf(),
            final(self).same_but_batteries(*old(self)),
            final(self).batteries@ == with_level(
                old(self).batteries@,
                index as int,
                percent,
                charging,
            ),
    {
        self.batteries[index].entry.percent = percent;
        self.batteries[index].entry.charging = charging;
        proof {
            assert(self.batteries@ =~= with_level(
                old(self).batteries@,
                index as int,
                percent,
                charging,
            ));
            assert forall|i: int, j: int| 0 <= i < j < self.batteries@.len() implies (
            #[trigger] self.batteries@[i]).key@ != (#[trigger] self.batteries@[j]).key@ by {
                assert(old(self).batteries@[i].key@ != old(self).batteries@[j].key@);
            }
        }
    }

    /// Takes note of a new virtual battery the kernel has registered, for a
    /// headset that has none.
    pub fn attach(
        &mut self,
        found: &Headset,
        percent: u8,
        charging: bool,
        now: Instant,
        device: H,
    )
        requires
            old(self).wf(),
            is_absent(old(self).batteries@, key_of(*found)),
        ensures
            final(self).wf(),
            final(self).same_but_batteries(*old(self)),
            attached(
                old(self).batteries@,
                *found,
                percent,
                charging,
                now,
                device,
                final(self).batteries@,
            ),
    {
        self.batteries.push(
            VirtualBattery {
                key: found.key(),
                name: found.name.clone(),
                device,
                entry: Entry::new(percent, charging, now),
            },
        );
        assert(self.batteries@.drop_last() =~= old(self).batteries@);
    }

    /// Takes out the batteries that have outlived their grace, saying why each
    /// one goes. Their devices are still to be destroyed, and their handles to
    /// be put back.
    pub fn expire(&mut self, now: Instant) -> (gone: Vec<Withdrawn<H>>)
        requires
            old(self).wf(),
        ensures
            final(self).wf(),
            final(self).same_but_batteries(*old(self)),
            final(self).batteries@ == kept(old(self).batteries@, old(self).config, now),
            gone@ == expired(old(self).batteries@, old(self).config, now),
    {
        let ghost all = self.batteries@;
        let ghost config = self.config;
        let mut gone: Vec<Withdrawn<H>> = Vec::new();
        let mut index: usize = 0;
        let ghost mut done: int = 0;
        proof {
            assert(all.take(0) =~= Seq::<VirtualBattery<H>>::empty());
            assert(self.batteries@ =~= kept(all.take(0), config, now) + all.skip(0));
        }
        while index < self.batteries.len()
            invariant
                self.same_but_batteries(*old(self)),
                self.config == config,
                0 <= done <= all.len(),
                index == kept(all.take(done), config, now).len(),
                self.batteries@ == kept(all.take(done), config, now) + all.skip(done),
                gone@ == expired(all.take(done), config, now),
            decreases all.len() - done,
        {
            assert(done < all.len());
            assert(self.batteries@[index as int] == all[done]);
            assert(all.take(done + 1).drop_last() =~= all.take(done));
            assert(all.take(done + 1).last() == all[done]);
            let entry = self.batteries[index].entry;
            let why = withdrawal(
                now.duration_since(entry.last_reading),
                now.duration_since(entry.last_seen),
                &self.config,
            );
            if why == Withdrawal::Keep {
                index = index + 1;
            } else {
                let battery = self.batteries.remove(index);
                gone.push(Withdrawn { battery, why });
            }
            proof {
                assert(self.batteries@ =~= kept(all.take(done + 1), config, now) + all.skip(
                    done + 1,
                ));
                done = done + 1;
            }
        }
        proof {
            assert(done == all.len()) by {
                assert(self.batteries@.len() == index + (all.len() - done));
            }
            assert(all.take(done) =~= all);
            assert(self.batteries@ =~= kept(all, config, now));
            lemma_kept_are_distinct(all, config, now);
        }
        gone
    }

    /// Whether a published battery went unanswered at `now`, which calls for a
    /// prompt retry rather than the usual wait.
    pub fn unanswered(&self, now: Instant) -> (yes: bool)
        ensures
            yes == is_unanswered(self.batteries@, now),
    {
        let mut at: usize = 0;
        while at < self.batteries.len()
            invariant
                at <= self.batteries.len(),
                forall|i: int|
                    0 <= i < at ==> (#[trigger] self.batteries@[i]).entry.last_reading == now,
            decreases self.batteries.len() - at,
        {
            if self.batteries[at].entry.last_reading != now {
                return true;
            }
            at = at + 1;
        }
        false
    }

    /// When to poll next, the last poll having ended at `now`.
    pub fn next_poll_at(&self, now: Instant, unanswered: bool) -> (at: Instant)
        requires
            now.nanos + delay(unanswered, self.source.native, self.config).nanos <= u128::MAX,
        ensures
            at.nanos == now.nanos + delay(unanswered, self.source.native, self.config).nanos,
    {
        let span = next_delay(unanswered, self.source.last_probe_was_native(), &self.config);
        Instant { nanos: now.nanos + span.nanos }
    }

    /// Takes out every virtual battery, so the applet does not keep a stale
    /// entry around while the daemon is restarting.
    pub fn shutdown(&mut self) -> (gone: Vec<VirtualBattery<H>>)
        requires
            old(self).wf(),
        ensures
            final(self).wf(),
            final(self).same_but_batteries(*old(self)),
            final(self).batteries@.len() == 0,
            gone@ == old(self).batteries@,
    {
        let mut gone: Vec<VirtualBattery<H>> = Vec::new();
        gone.append(&mut self.batteries);
        assert(gone@ =~= old(self).batteries@);
        gone
    }
}

/// Where each battery that is kept stood before.
pub proof fn lemma_kept<H>(batteries: Seq<VirtualBattery<H>>, config: Config, now: Instant, index: int) -> (
    before: int)
    requires
        0 <= index < kept(batteries, config, now).len(),
    ensures
        index <= before < batteries.len(),
        batteries[before] == kept(batteries, config, now)[index],
        fate_of(batteries[before], config, now) == Withdrawal::Keep,
        forall|later: int|
            #![trigger kept(batteries, config, now)[later]]
            index < later < kept(batteries, config, now).len() ==> exists|place: int|
                before < place < batteries.len() && #[trigger] batteries[place] == kept(
                    batteries,
                    config,
                    now,
                )[later],
    decreases batteries.len(),
{
    let rest = batteries.drop_last();
    let all = kept(batteries, config, now);
    let some = kept(rest, config, now);
    if index < some.len() {
        let before = lemma_kept(rest, config, now, index);
        assert(batteries[before] == rest[before]);
        assert forall|later: int|
            #![trigger all[later]]
            index < later < all.len() implies exists|place: int|
            before < place < batteries.len() && #[trigger] batteries[place] == all[later] by {
            if later < some.len() {
                assert(all[later] == some[later]);
                let place = choose|place: int|
                    before < place < rest.len() && #[trigger] rest[place] == some[later];
                assert(batteries[place] == rest[place]);
            } else {
                assert(batteries[batteries.len() - 1] == all[later]);
            }
        }
        before
    } else {
        lemma_kept_len(rest, config, now);
        batteries.len() - 1
    }
}

/// Every battery is either kept or taken out.
pub proof fn lemma_kept_len<H>(batteries: Seq<VirtualBattery<H>>, config: Config, now: Instant)
    ensures
        kept(batteries, config, now).len() + expired(batteries, config, now).len()
            == batteries.len(),
    decreases batteries.len(),
{
    if batteries.len() > 0 {
        lemma_kept_len(batteries.drop_last(), config, now);
    }
}

/// Taking batteries out leaves the others distinct.
proof fn lemma_kept_are_distinct<H>(batteries: Seq<VirtualBattery<H>>, config: Config, now: Instant)
    requires
        are_distinct(batteries),
    ensures
        are_distinct(kept(batteries, config, now)),
{
    let all = kept(batteries, config, now);
    assert forall|i: int, j: int| 0 <= i < j < all.len() implies (#[trigger] all[i]).key@ != (
    #[trigger] all[j]).key@ by {
        let before = lemma_kept(batteries, config, now, i);
        let place = choose|place: int|
            before < place < batteries.len() && #[trigger] batteries[place] == all[j];
        assert(batteries[before].key@ != batteries[place].key@);
    }
}

/// The handles behind those batteries.
pub open spec fn devices<H>(batteries: Seq<VirtualBattery<H>>) -> Seq<H> {
    batteries.map_values(|battery: VirtualBattery<H>| battery.device)
}

/// The handles behind batteries that were taken out.
pub open spec fn freed<H>(gone: Seq<Withdrawn<H>>) -> Seq<H> {
    gone.map_values(|out: Withdrawn<H>| out.battery.device)
}

/// Expiry loses no handle and invents none: each one either still backs a
/// battery or comes out to be put back.
pub proof fn law_expiry_loses_no_handle<H>(
    batteries: Seq<VirtualBattery<H>>,
    config: Config,
    now: Instant,
)
    ensures
        devices(batteries).to_multiset() == devices(kept(batteries, config, now)).to_multiset().add(
            freed(expired(batteries, config, now)).to_multiset(),
        ),
    decreases batteries.len(),
{
    broadcast use vstd::seq_lib::group_to_multiset_ensures;

    let stay = devices(kept(batteries, config, now));
    let leave = freed(expired(batteries, config, now));
    if batteries.len() == 0 {
        assert(devices(batteries) =~= Seq::<H>::empty());
        assert(stay =~= Seq::<H>::empty());
        assert(leave =~= Seq::<H>::empty());
        assert(Seq::<H>::empty().to_multiset().len() == 0);
        assert(devices(batteries).to_multiset() =~= stay.to_multiset().add(leave.to_multiset()));
    } else {
        let rest = batteries.drop_last();
        let last = batteries.last();
        law_expiry_loses_no_handle(rest, config, now);
        let stayed = devices(kept(rest, config, now));
        let left = freed(expired(rest, config, now));
        assert(devices(batteries) =~= devices(rest).push(last.device));
        if fate_of(last, config, now) == Withdrawal::Keep {
            assert(stay =~= stayed.push(last.device));
            assert(leave =~= left);
        } else {
            assert(stay =~= stayed);
            assert(leave =~= left.push(last.device));
        }
        assert(devices(batteries).to_multiset() =~= stay.to_multiset().add(leave.to_multiset()));
    }
}

/// A battery keeps its entry exactly as long as its headset was reported within
/// the one grace and answered within the other.
pub proof fn law_battery_lives_by_two_clocks<H>(
    batteries: Seq<VirtualBattery<H>>,
    config: Config,
    now: Instant,
    index: int,
)
    requires
        0 <= index < batteries.len(),
    ensures
        ({
            let battery = batteries[index];
            let missing_for = time::elapsed(battery.entry.last_seen, now);
            let silent_for = time::elapsed(battery.entry.last_reading, now);
            if missing_for.nanos <= config.missing_grace.nanos && silent_for.nanos
                <= config.offline_grace.nanos {
                kept(batteries, config, now).contains(battery)
            } else {
                expired(batteries, config, now).contains(
                    Withdrawn {
                        battery,
                        why: if missing_for.nanos > config.missing_grace.nanos {
                            Withdrawal::Missing
                        } else {
                            Withdrawal::Silent
                        },
                    },
                )
            }
        }),
    decreases batteries.len(),
{
    let battery = batteries[index];
    let why = fate_of(battery, config, now);
    let stay = kept(batteries, config, now);
    let leave = expired(batteries, config, now);
    if index == batteries.len() - 1 {
        if why == Withdrawal::Keep {
            assert(stay[stay.len() - 1] == battery);
        } else {
            assert(leave[leave.len() - 1] == (Withdrawn { battery, why }));
        }
    } else {
        let rest = batteries.drop_last();
        assert(rest[index] == battery);
        law_battery_lives_by_two_clocks(rest, config, now, index);
        if why == Withdrawal::Keep {
            let i = choose|i: int|
                0 <= i < kept(rest, config, now).len() && kept(rest, config, now)[i] == battery;
            assert(stay[i] == battery);
        } else {
            let out = Withdrawn { battery, why };
            assert(expired(rest, config, now).contains(out));
            let i = choose|i: int|
                0 <= i < expired(rest, config, now).len() && expired(rest, config, now)[i] == out;
            assert(leave[i] == out);
        }
    }
    if why != Withdrawal::Keep {
        assert(leave.contains(Withdrawn { battery, why }));
    }
}

/// A headset that has just given a level keeps its battery, whatever the
/// configuration.
pub proof fn law_answering_headset_keeps_its_battery<H>(
    battery: VirtualBattery<H>,
    found: Headset,
    config: Config,
    now: Instant,
)
    requires
        is_answering(found),
    ensures
        fate_of(
            VirtualBattery {
                entry: entry::after_report(battery.entry, found.battery, found.sample, now).0,
                ..battery
            },
            config,
            now,
        ) == Withdrawal::Keep,
{
}

/// Nothing is published for a headset until it has given a first level, and the
/// first level it gives is published as it is.
pub proof fn law_nothing_before_a_first_level<H>(found: Headset)
    ensures
        first_step::<H>(found) is Attach <==> (found.battery is Discharging || (
        found.battery matches BatteryState::Charging(level) && level is Some)),
        found.battery matches BatteryState::Discharging(level) ==> first_step::<H>(found) == (
        Step::<H>::Attach { percent: level, charging: false }),
        found.battery matches BatteryState::Charging(Some(level)) ==> first_step::<H>(found) == (
        Step::<H>::Attach { percent: level, charging: true }),
{
}

/// The name, the path and the identifier of a virtual device all reach the
/// kernel whole: none of them is ever cut to fit its field.
pub proof fn law_identity_reaches_the_kernel_whole(found: Headset, params: CreateParams)
    requires
        identifies(params, found),
    ensures
        uhid::str_field(params.name@, uhid::LEN_NAME as int) == uhid::padded(
            encode_utf8(params.name@),
            uhid::LEN_NAME as int,
        ),
        uhid::str_field(params.phys@, uhid::LEN_PHYS as int) == uhid::padded(
            encode_utf8(params.phys@),
            uhid::LEN_PHYS as int,
        ),
        uhid::str_field(params.uniq@, uhid::LEN_UNIQ as int) == uhid::padded(
            encode_utf8(params.uniq@),
            uhid::LEN_UNIQ as int,
        ),
{
    headset::law_label_is_presentable(found.name@);
    headset::law_uniq_is_plain_and_identifies(
        found.vendor_id,
        found.product_id,
        found.vendor_id,
        found.product_id,
    );
    reveal_strlit("headset-battery-indicator");
    reveal_strlit("/");
    let uniq = headset::uniq_of(found.vendor_id, found.product_id);
    assert forall|i: int| 0 <= i < params.uniq@.len() implies 0 <= (
    #[trigger] params.uniq@[i]) as int <= 0x7f by {
        assert(headset::is_plain(uniq[i]));
    }
    assert forall|i: int| 0 <= i < params.phys@.len() implies 0 <= (
    #[trigger] params.phys@[i]) as int <= 0x7f by {
        if i >= 26 {
            assert(params.phys@[i] == uniq[i - 26]);
            assert(headset::is_plain(uniq[i - 26]));
        }
    }
    is_ascii_chars_encode_utf8(params.uniq@);
    is_ascii_chars_encode_utf8(params.phys@);
}

/// A battery that went quiet is asked again within seconds, no reader is run
/// less often than the configured interval, and a native one as often as it can
/// afford.
pub proof fn law_cadence(unanswered: bool, native: bool, config: Config)
    ensures
        delay(unanswered, native, config).nanos <= config.interval.nanos,
        native ==> delay(unanswered, native, config).nanos <= config.native_interval.nanos,
        unanswered ==> delay(unanswered, native, config).nanos <= time::seconds(
            UNANSWERED_RETRY_SECS,
        ).nanos,
        !unanswered && !native ==> delay(unanswered, native, config) == config.interval,
{
}

/// Whether the last probe is known to have failed after those outcomes, `true`
/// standing for one that went well.
pub open spec fn failing_after(failing: bool, outcomes: Seq<bool>) -> bool
    decreases outcomes.len(),
{
    if outcomes.len() == 0 {
        failing
    } else {
        !outcomes.last()
    }
}

/// How many warnings those outcomes cost.
pub open spec fn warnings(failing: bool, outcomes: Seq<bool>) -> nat
    decreases outcomes.len(),
{
    if outcomes.len() == 0 {
        0
    } else {
        let earlier = warnings(failing, outcomes.drop_last());
        if !outcomes.last() && !failing_after(failing, outcomes.drop_last()) {
            earlier + 1
        } else {
            earlier
        }
    }
}

/// A streak of failures costs a single warning, however long it is.
pub proof fn law_one_warning_per_streak(failing: bool, streak: Seq<bool>)
    requires
        forall|i: int| 0 <= i < streak.len() ==> !#[trigger] streak[i],
    ensures
        warnings(failing, streak) == (if failing || streak.len() == 0 {
            0nat
        } else {
            1nat
        }),
    decreases streak.len(),
{
    if streak.len() > 0 {
        assert(!streak[streak.len() - 1]);
        assert forall|i: int| 0 <= i < streak.drop_last().len() implies !#[trigger] streak.drop_last()[i] by {
            assert(streak.drop_last()[i] == streak[i]);
        }
        law_one_warning_per_streak(failing, streak.drop_last());
        if streak.len() > 1 {
            assert(!streak.drop_last()[streak.len() - 2]);
        }
    }
}

/// A report reaches the battery of its own headset and no other: each battery
/// that is still there afterwards was there before, and knows what the report
/// tells it, or what it knew.
pub proof fn law_report_reaches_its_own_battery_only<H>(
    before: Seq<VirtualBattery<H>>,
    found: Headset,
    now: Instant,
    after: Seq<VirtualBattery<H>>,
    step: Step<H>,
    index: int,
)
    requires
        are_distinct(before),
        applied(before, found, now, after, step),
        0 <= index < before.len(),
    ensures
        ({
            let battery = before[index];
            let own = found.supports_battery && battery.key@ == key_of(found);
            let told = entry::after_report(battery.entry, found.battery, found.sample, now);
            let fresh = VirtualBattery { entry: told.0, ..battery };
            if !own {
                after.contains(battery)
            } else if told.1 == Move::Withdraw {
                step == Step::Withdraw(fresh) && is_absent(after, battery.key@)
            } else {
                after.len() == before.len() && after[index] == fresh
            }
        }),
{
    let battery = before[index];
    let key = key_of(found);
    if found.supports_battery && !is_absent(before, key) {
        let own = choose|i: int| 0 <= i < before.len() && (#[trigger] before[i]).key@ == key;
        assert(stands_at(before, key, own));
        assert(updated(before, own, found, now, after, step));
        assert forall|i: int| 0 <= i < before.len() && i != own implies (
        #[trigger] before[i]).key@ != key by {
            if i < own {
                assert(before[i].key@ != before[own].key@);
            } else {
                assert(before[own].key@ != before[i].key@);
            }
        }
        if index != own {
            let place = if after.len() < before.len() && index > own {
                index - 1
            } else {
                index
            };
            assert(after[place] == battery);
        } else if step is Withdraw {
            assert forall|i: int| 0 <= i < after.len() implies (#[trigger] after[i]).key@ != key by {
                let place = if i < own {
                    i
                } else {
                    i + 1
                };
                assert(after[i] == before[place]);
            }
        }
    } else {
        assert(after == before);
        assert(after[index] == battery);
        if found.supports_battery {
            assert(battery.key@ != key);
        }
    }
}

/// A headset's report, and what it did to the batteries.
pub struct Applied<H> {
    /// The batteries before it.
    pub before: Seq<VirtualBattery<H>>,
    /// What was reported.
    pub found: Headset,
    /// When.
    pub now: Instant,
    /// The batteries after it.
    pub after: Seq<VirtualBattery<H>>,
    /// What is to be done next.
    pub step: Step<H>,
}

impl<H> Applied<H> {
    /// Whether that is a report on the headset of that key which gives a level,
    /// and what such a report does.
    pub open spec fn is_level_of(self, key: Seq<char>) -> bool {
        &&& applied(self.before, self.found, self.now, self.after, self.step)
        &&& self.found.supports_battery
        &&& key_of(self.found) == key
        &&& entry::level_in(self.found.battery) is Some
    }

    /// The level it gives.
    pub open spec fn level(self) -> u8 {
        entry::level_in(self.found.battery)->0
    }

    /// Whether that level is implausible for the battery at that index.
    pub open spec fn is_far_off(self, index: int) -> bool {
        distance(self.before[index].entry.percent, self.level()) > MAX_PLAUSIBLE_STEP
    }
}

/// Three polls of one headset, its battery published with nothing held back: an
/// implausible level, a plausible one, an implausible one. The first is held
/// back, the second published, and the third held back like the first, whatever
/// the two have in common: the level in between made the bridge forget it.
pub proof fn law_glitches_around_a_reading_do_not_add_up<H>(
    first: Applied<H>,
    second: Applied<H>,
    third: Applied<H>,
    index: int,
)
    requires
        first.before.len() <= usize::MAX,
        0 <= index < first.before.len(),
        first.before[index].entry.deferred is None,
        first.is_level_of(first.before[index].key@),
        second.is_level_of(first.before[index].key@),
        third.is_level_of(first.before[index].key@),
        second.before == first.after,
        // The level in between went through, or did not.
        third.before == second.after || third.before == with_level(
            second.after,
            index,
            second.level(),
            second.found.battery is Charging,
        ),
        first.is_far_off(index),
        !second.is_far_off(index),
        third.is_far_off(index),
    ensures
        first.step == (Step::<H>::Hold { index: index as usize }),
        second.step matches Step::Publish { index: at, percent, charging, said } && at == index
            && percent == second.level(),
        third.step == (Step::<H>::Hold { index: index as usize }),
        third.after[index].entry.percent == third.before[index].entry.percent,
        third.after[index].entry.deferred == Some(
            entry::Deferred { percent: third.level(), sample: third.found.sample },
        ),
{
    let key = first.before[index].key@;
    assert(stands_at(first.before, key, index));
    assert(updated(first.before, index, first.found, first.now, first.after, first.step));
    assert(stands_at(second.before, key, index));
    assert(updated(second.before, index, second.found, second.now, second.after, second.step));
    assert(stands_at(third.before, key, index));
    assert(updated(third.before, index, third.found, third.now, third.after, third.step));
}

/// Once a level has been published on a battery, that battery has exactly that
/// level and that charging flag, charging or not; the rest of what is known of
/// it, and every other battery, is as before.
pub proof fn law_published_level_is_known<H>(
    batteries: Seq<VirtualBattery<H>>,
    index: int,
    percent: u8,
    charging: bool,
)
    requires
        0 <= index < batteries.len(),
    ensures
        ({
            let after = with_level(batteries, index, percent, charging);
            let known = batteries[index];
            let told = after[index];
            &&& after.len() == batteries.len()
            &&& told.entry.percent == percent
            &&& told.entry.charging == charging
            &&& told.entry.last_reading == known.entry.last_reading
            &&& told.entry.last_seen == known.entry.last_seen
            &&& told.entry.deferred == known.entry.deferred
            &&& told.entry.logged_percent == known.entry.logged_percent
            &&& told.key == known.key && told.name == known.name && told.device == known.device
            &&& forall|i: int|
                0 <= i < batteries.len() && i != index ==> #[trigger] after[i] == batteries[i]
        }),
{
}

/// A level that a report led to and that went through leaves the batteries with
/// what a run of reports says its entry is, and one that did not go through
/// leaves them so too.
pub proof fn law_batteries_agree_with_their_reports<H>(
    before: Seq<VirtualBattery<H>>,
    index: int,
    found: Headset,
    now: Instant,
    after: Seq<VirtualBattery<H>>,
    step: Step<H>,
)
    requires
        0 <= index < before.len() <= usize::MAX,
        updated(before, index, found, now, after, step),
    ensures
        step matches Step::Publish { index: at, percent, charging, said } ==> at == index
            && with_level(after, index, percent, charging)[index].entry == entry::after_one(
            before[index].entry,
            entry::Report {
                state: found.battery,
                sample: found.sample,
                now,
                went_through: true,
            },
        ),
        !(step is Withdraw) ==> after[index].entry == entry::after_one(
            before[index].entry,
            entry::Report {
                state: found.battery,
                sample: found.sample,
                now,
                went_through: false,
            },
        ),
{
}

/// What a poll comes to: nothing found, nothing with a battery, at least one
/// headset with a battery that gave a reading, or none that did.
pub proof fn law_summary_tells_four_things_apart(headsets: Seq<Headset>)
    ensures
        summary_of(headsets) == Summary::NoDevice <==> headsets.len() == 0,
        summary_of(headsets) == Summary::NoBattery <==> headsets.len() > 0 && forall|i: int|
            0 <= i < headsets.len() ==> !(#[trigger] headsets[i]).supports_battery,
        summary_of(headsets) == Summary::Online <==> exists|i: int|
            0 <= i < headsets.len() && (#[trigger] headsets[i]).supports_battery && (
            headsets[i].battery is Discharging || headsets[i].battery is Charging),
{
    if summary_of(headsets) == Summary::Online {
        let i = choose|i: int| 0 <= i < headsets.len() && is_answering(#[trigger] headsets[i]);
        assert(headsets[i].supports_battery);
    }
    if exists|i: int|
        0 <= i < headsets.len() && (#[trigger] headsets[i]).supports_battery && (
        headsets[i].battery is Discharging || headsets[i].battery is Charging) {
        let i = choose|i: int|
            0 <= i < headsets.len() && (#[trigger] headsets[i]).supports_battery && (
            headsets[i].battery is Discharging || headsets[i].battery is Charging);
        assert(is_answering(headsets[i]));
    }
}

/// The wait before the next poll is the shortest that applies: the interval, the
/// native one if a native reader answered, three seconds if a battery went
/// unanswered; and never shorter than that.
pub proof fn law_wait_is_the_shortest_that_applies(unanswered: bool, native: bool, config: Config)
    ensures
        ({
            let span = delay(unanswered, native, config).nanos;
            &&& span <= config.interval.nanos
            &&& native ==> span <= config.native_interval.nanos
            &&& unanswered ==> span <= 3_000_000_000
            &&& span == config.interval.nanos || (native && span == config.native_interval.nanos)
                || (unanswered && span == 3_000_000_000)
        }),
{
}

/// What is to be done about a battery, from how long its headset has been quiet
/// and how long it has been gone: past either grace it goes, and being gone is
/// the reason wherever it applies.
pub proof fn law_grace_is_kept_to_the_end(silent_for: Duration, missing_for: Duration, config: Config)
    ensures
        fate(silent_for, missing_for, config) == Withdrawal::Missing <==> missing_for.nanos
            > config.missing_grace.nanos,
        fate(silent_for, missing_for, config) == Withdrawal::Silent <==> missing_for.nanos
            <= config.missing_grace.nanos && silent_for.nanos > config.offline_grace.nanos,
{
}

/// A level is believed if it is within fifteen points of the one published, or
/// within five of the one it confirms.
pub proof fn law_fifteen_points_are_believed(published: u8, candidate: u8, deferred: Option<u8>)
    ensures
        is_credible(published, candidate, deferred) <==> {
            ||| candidate <= published + 15 && published <= candidate + 15
            ||| (deferred matches Some(held) && candidate <= held + 5 && held <= candidate + 5)
        },
        distance(published, candidate) == distance(candidate, published),
        published <= candidate ==> published + distance(published, candidate) == candidate,
{
}

/// A headset without a battery of its own that gives no level is left alone: it
/// is waited for if it is charging, and otherwise at rest.
pub proof fn law_headset_without_a_level_waits<H>(found: Headset)
    ensures
        found.battery == BatteryState::Charging(None) ==> first_step::<H>(found)
            == Step::<H>::NoLevelYet,
        (found.battery is Unavailable || found.battery is Disconnected) ==> first_step::<H>(found)
            == Step::<H>::Rest,
{
}

/// What is done about a report is what the entry of its battery calls for, at
/// the place where that battery stands; a headset that reports none changes
/// nothing, and neither does one that has no battery yet.
pub proof fn law_step_is_what_the_report_calls_for<H>(
    before: Seq<VirtualBattery<H>>,
    found: Headset,
    now: Instant,
    after: Seq<VirtualBattery<H>>,
    step: Step<H>,
    index: int,
)
    requires
        before.len() <= usize::MAX,
        applied(before, found, now, after, step),
    ensures
        !found.supports_battery ==> step == Step::<H>::Skip && after == before,
        found.supports_battery && is_absent(before, key_of(found)) ==> after == before && step
            == first_step::<H>(found),
        found.supports_battery && 0 <= index < before.len() && before[index].key@ == key_of(found)
            ==> {
            let (left, next) = entry::after_report(
                before[index].entry,
                found.battery,
                found.sample,
                now,
            );
            &&& next == Move::Rest ==> step == Step::<H>::Rest
            &&& next == Move::Hold ==> (step matches Step::Hold { index: at } && at == index)
            &&& next matches Move::Publish { percent: level, charging: plugged, said: loudness }
                ==> (step matches Step::Publish { index: at, percent, charging, said } && at
                == index && percent == level && charging == plugged && said == loudness)
            &&& next == Move::Withdraw ==> (step matches Step::Withdraw(battery) && battery.device
                == before[index].device && battery.key == before[index].key && battery.name
                == before[index].name && after == before.remove(index))
            &&& next != Move::Withdraw ==> after.len() == before.len() && after[index].entry == left
                && after[index].device == before[index].device && after[index].key
                == before[index].key && after[index].name == before[index].name && forall|i: int|
                0 <= i < before.len() && i != index ==> #[trigger] after[i] == before[i]
        },
{
    if found.supports_battery && 0 <= index < before.len() && before[index].key@ == key_of(found) {
        assert(stands_at(before, key_of(found), index));
        assert(updated(before, index, found, now, after, step));
    }
}

/// A new battery is published at the level it was registered with: it stands
/// behind the others, under its headset's key and name, read at that moment, and
/// the same level again is no news.
pub proof fn law_new_battery_has_its_first_level<H>(
    before: Seq<VirtualBattery<H>>,
    found: Headset,
    percent: u8,
    charging: bool,
    now: Instant,
    device: H,
    after: Seq<VirtualBattery<H>>,
)
    requires
        attached(before, found, percent, charging, now, device, after),
    ensures
        after.len() == before.len() + 1,
        forall|i: int| 0 <= i < before.len() ==> #[trigger] after[i] == before[i],
        ({
            let new = after[before.len() as int];
            &&& stands_at(after, key_of(found), before.len() as int)
            &&& new.key@ == headset::key_of(found.vendor_id, found.product_id, found.name@)
            &&& new.name@ == found.name@ && new.device == device
            &&& new.entry.percent == percent && new.entry.charging == charging
            &&& new.entry.logged_percent == percent
            &&& new.entry.last_reading == now && new.entry.last_seen == now
            &&& new.entry.deferred is None
            &&& entry::news(new.entry, percent, charging) is None
        }),
{
    assert forall|i: int| 0 <= i < before.len() implies #[trigger] after[i] == before[i] by {
        assert(after.drop_last()[i] == after[i]);
    }
}

/// Each battery is kept or taken out for itself: what becomes of a list is what
/// becomes of its parts, in their order.
pub proof fn law_batteries_expire_one_by_one<H>(
    first: Seq<VirtualBattery<H>>,
    then: Seq<VirtualBattery<H>>,
    config: Config,
    now: Instant,
)
    ensures
        kept(first + then, config, now) == kept(first, config, now) + kept(then, config, now),
        expired(first + then, config, now) == expired(first, config, now) + expired(
            then,
            config,
            now,
        ),
    decreases then.len(),
{
    if then.len() == 0 {
        assert(first + then =~= first);
        assert(kept(first + then, config, now) =~= kept(first, config, now) + kept(
            then,
            config,
            now,
        ));
        assert(expired(first + then, config, now) =~= expired(first, config, now) + expired(
            then,
            config,
            now,
        ));
    } else {
        law_batteries_expire_one_by_one(first, then.drop_last(), config, now);
        assert((first + then).drop_last() =~= first + then.drop_last());
        assert((first + then).last() == then.last());
        assert(kept(first + then, config, now) =~= kept(first, config, now) + kept(
            then,
            config,
            now,
        ));
        assert(expired(first + then, config, now) =~= expired(first, config, now) + expired(
            then,
            config,
            now,
        ));
    }
}

/// The names are listed in the order of the headsets, with a comma in between.
pub proof fn law_names_are_listed_in_order(headsets: Seq<Headset>, found: Headset)
    ensures
        names_of(seq![found]) == found.name@,
        headsets.len() > 0 ==> names_of(headsets.push(found)) == names_of(headsets) + ", "@
            + found.name@,
{
    let names = headsets.map_values(|found: Headset| found.name@);
    assert(seq![found].map_values(|found: Headset| found.name@) =~= seq![found.name@]);
    assert(headsets.push(found).map_values(|found: Headset| found.name@) =~= names.push(
        found.name@,
    ));
    assert(names.push(found.name@).drop_last() =~= names);
}

/// A poll is announced by the names of the headsets it found and what it came
/// to; only readings that are there are not worth a line of their own.
pub proof fn law_announcement_names_the_headsets(names: Seq<char>, summary: Summary)
    ensures
        announcement(Summary::NoBattery, names) == names + " found, but none reports a battery"@,
        announcement(Summary::Online, names) == names + " is answering"@,
        announcement(Summary::Offline, names) == names
            + " is detected but not answering battery queries (switched off?); keeping its entry for a few more polls"@,
        announcement(Summary::NoDevice, names) == announcement(Summary::NoDevice, Seq::empty()),
        loudness_of(summary) == Loudness::Debug <==> summary == Summary::Online,
        loudness_of(summary) != Loudness::Warn,
{
}

/// The virtual device of a headset carries its IDs, its label, and a path that
/// begins as the udev rule expects and ends in its identifier.
pub proof fn law_virtual_device_carries_its_headset(found: Headset, params: CreateParams)
    requires
        identifies(params, found),
    ensures
        params.vendor == found.vendor_id,
        params.product == found.product_id,
        params.name@ == headset::label_of(found.name@),
        params.uniq@ == headset::uniq_of(found.vendor_id, found.product_id),
        params.phys@ == "headset-battery-indicator"@ + "/"@ + params.uniq@,
{
}

/// A success ends a streak without a word, and the next failure is worth a
/// warning again.
pub proof fn law_success_ends_the_streak(failing: bool, outcomes: Seq<bool>)
    ensures
        warnings(failing, outcomes.push(true)) == warnings(failing, outcomes),
        warnings(failing, outcomes.push(true).push(false)) == warnings(failing, outcomes) + 1,
        !failing_after(failing, outcomes.push(true)),
        failing_after(failing, outcomes.push(false)),
{
    assert(outcomes.push(true).drop_last() =~= outcomes);
    assert(outcomes.push(true).push(false).drop_last() =~= outcomes.push(true));
}

} // verus!
