//! What one virtual battery knows, and what a reading does to it.

use vstd::prelude::*;
use crate::bridge::{self, LOG_STEP, Loudness, Verdict};
use crate::headset::BatteryState;
use crate::time::Instant;

verus! {

/// A reading that was too far off to publish, waiting for confirmation.
#[derive(Debug, Clone, Copy, PartialEq, Eq, Structural)]
pub struct Deferred {
    /// The level it gave.
    pub percent: u8,
    /// Which reading it was, where the reader tells them apart.
    pub sample: Option<u64>,
}

/// What is known of the battery behind an entry.
#[derive(Debug, Clone, Copy, PartialEq, Eq, Structural)]
pub struct Entry {
    /// The level last published.
    pub percent: u8,
    /// Whether it was published as charging.
    pub charging: bool,
    /// When the headset last gave us a usable level.
    pub last_reading: Instant,
    /// When the headset was last reported at all, answering or not.
    pub last_seen: Instant,
    /// A reading that was too far off to publish, waiting for confirmation.
    pub deferred: Option<Deferred>,
    /// The level the last INFO line mentioned.
    pub logged_percent: u8,
}

/// What a headset's report comes to.
#[derive(Debug, Clone, Copy, PartialEq, Eq, Structural)]
pub enum Reading {
    /// A level.
    Level {
        /// The level.
        percent: u8,
        /// Whether the battery is charging.
        charging: bool,
    },
    /// It is charging, and no level was ever given.
    NoLevelYet,
    /// It is not answering.
    Silent,
    /// It is switched off, and says so.
    Gone,
}

/// What to do about an entry.
#[derive(Debug, Clone, Copy, PartialEq, Eq, Structural)]
pub enum Move {
    /// Nothing was read: leave it.
    Rest,
    /// Hold back an implausible level.
    Hold,
    /// Publish a level.
    Publish {
        /// The level.
        percent: u8,
        /// Whether the battery is charging.
        charging: bool,
        /// How loudly to say so, if it is news.
        said: Option<Loudness>,
    },
    /// Take it down.
    Withdraw,
}

/// What a report comes to, the level last published being `known`.
///
/// A headset that reports charging without a level keeps whatever we last knew;
/// there is nothing better to show, and dropping the device would make it blink
/// out of the applet.
pub open spec fn reading_of(state: BatteryState, known: Option<u8>) -> Reading {
    match state {
        BatteryState::Discharging(percent) => Reading::Level { percent, charging: false },
        BatteryState::Charging(Some(percent)) => Reading::Level { percent, charging: true },
        BatteryState::Charging(None) => match known {
            Some(percent) => Reading::Level { percent, charging: true },
            None => Reading::NoLevelYet,
        },
        BatteryState::Unavailable => Reading::Silent,
        BatteryState::Disconnected => Reading::Gone,
    }
}

/// Makes sense of a report, the level last published being `known`.
pub fn read(state: BatteryState, known: Option<u8>) -> (reading: Reading)
    ensures
        reading == reading_of(state, known),
{
    match state {
        BatteryState::Discharging(percent) => Reading::Level { percent, charging: false },
        BatteryState::Charging(Some(percent)) => Reading::Level { percent, charging: true },
        BatteryState::Charging(None) => match known {
            Some(percent) => Reading::Level { percent, charging: true },
            None => Reading::NoLevelYet,
        },
        BatteryState::Unavailable => Reading::Silent,
        BatteryState::Disconnected => Reading::Gone,
    }
}

/// Whether `sample` is a reading of its own, and not `earlier` repeated.
pub open spec fn is_second_opinion(earlier: Option<u64>, sample: Option<u64>) -> bool {
    earlier is None || sample is None || earlier != sample
}

/// The deferred level that a reading of that sample can confirm.
pub open spec fn confirmable(deferred: Option<Deferred>, sample: Option<u64>) -> Option<u8> {
    match deferred {
        Some(held) if is_second_opinion(held.sample, sample) => Some(held.percent),
        _ => None,
    }
}

/// How loudly to say that a level is published, if it is news.
pub open spec fn news(entry: Entry, percent: u8, charging: bool) -> Option<Loudness> {
    if percent == entry.percent && charging == entry.charging {
        None
    } else if charging != entry.charging || bridge::distance(entry.logged_percent, percent)
        >= LOG_STEP {
        Some(Loudness::Info)
    } else {
        Some(Loudness::Debug)
    }
}

/// What an entry knows and what is to be done about it, once its headset has
/// reported `state` at `now`.
///
/// Being listed at all is what keeps the entry alive; answering is what
/// refreshes the level. A headset that answered is alive even if the level it
/// gave is not to be trusted.
pub open spec fn after_report(
    entry: Entry,
    state: BatteryState,
    sample: Option<u64>,
    now: Instant,
) -> (Entry, Move) {
    let seen = Entry { last_seen: now, ..entry };
    match reading_of(state, Some(entry.percent)) {
        Reading::Level { percent, charging } => {
            let heard = Entry { last_reading: now, ..seen };
            if bridge::is_credible(entry.percent, percent, confirmable(entry.deferred, sample)) {
                let said = news(entry, percent, charging);
                let logged = if said == Some(Loudness::Info) {
                    percent
                } else {
                    entry.logged_percent
                };
                (
                    Entry { deferred: None, logged_percent: logged, ..heard },
                    Move::Publish { percent, charging, said },
                )
            } else {
                (Entry { deferred: Some(Deferred { percent, sample }), ..heard }, Move::Hold)
            }
        },
        Reading::NoLevelYet => (seen, Move::Rest),
        Reading::Silent => (seen, Move::Rest),
        Reading::Gone => (seen, Move::Withdraw),
    }
}

impl Entry {
    /// The entry of a headset that has just appeared, at that level.
    pub fn new(percent: u8, charging: bool, now: Instant) -> (entry: Entry)
        ensures
            entry == (Entry {
                percent,
                charging,
                last_reading: now,
                last_seen: now,
                deferred: None,
                logged_percent: percent,
            }),
    {
        Entry {
            percent,
            charging,
            last_reading: now,
            last_seen: now,
            deferred: None,
            logged_percent: percent,
        }
    }

    /// Takes note of what the headset reported, and says what to do about it.
    pub fn report(&mut self, state: BatteryState, sample: Option<u64>, now: Instant) -> (next: Move)
        ensures
            (*final(self), next) == after_report(*old(self), state, sample, now),
    {
        self.last_seen = now;
        match read(state, Some(self.percent)) {
            Reading::Level { percent, charging } => {
                self.last_reading = now;
                let confirmed: Option<u8> = match self.deferred {
                    Some(held) => {
                        let repeated = match (held.sample, sample) {
                            (Some(earlier), Some(later)) => earlier == later,
                            _ => false,
                        };
                        if repeated {
                            None
                        } else {
                            Some(held.percent)
                        }
                    },
                    None => None,
                };
                if bridge::vet(self.percent, percent, confirmed) == Verdict::Defer {
                    self.deferred = Some(Deferred { percent, sample });
                    return Move::Hold;
                }
                self.deferred = None;

                // An unchanged level is pushed all the same. The kernel drops
                // input reports without telling anyone while it is probing the
                // device, so this periodic push is what guarantees a lost one
                // is made up for; it rate-limits the resulting uevents itself.
                let said = if percent == self.percent && charging == self.charging {
                    None
                } else if charging != self.charging || bridge::abs_diff(
                    self.logged_percent,
                    percent,
                ) >= LOG_STEP {
                    self.logged_percent = percent;
                    Some(Loudness::Info)
                } else {
                    Some(Loudness::Debug)
                };
                Move::Publish { percent, charging, said }
            },
            Reading::NoLevelYet | Reading::Silent => Move::Rest,
            Reading::Gone => Move::Withdraw,
        }
    }
}

/// Whatever a headset reports, a level is only ever published if it is within
/// the plausible step of the last one published, or within the tolerance of the
/// reading that was held back before it, another reading having brought it.
pub proof fn law_noise_is_never_published(
    entry: Entry,
    state: BatteryState,
    sample: Option<u64>,
    now: Instant,
)
    ensures
        after_report(entry, state, sample, now).1 matches Move::Publish { percent, charging, said }
            ==> {
            ||| bridge::distance(entry.percent, percent) <= bridge::MAX_PLAUSIBLE_STEP
            ||| (entry.deferred matches Some(held) && is_second_opinion(held.sample, sample)
                && bridge::distance(held.percent, percent) <= bridge::CONFIRM_TOLERANCE)
        },
{
}

/// Whether a report gives a level that is held back.
pub open spec fn is_held_back(entry: Entry, state: BatteryState, sample: Option<u64>) -> bool {
    reading_of(state, Some(entry.percent)) matches Reading::Level { percent, .. }
        && !bridge::is_credible(entry.percent, percent, confirmable(entry.deferred, sample))
}

/// A glitch before a plausible reading leaves no trace: it is held back, the
/// reading after it is published, and the entry is then what it would have been
/// without the glitch.
pub proof fn law_glitch_leaves_no_trace(
    entry: Entry,
    glitch: BatteryState,
    sample: Option<u64>,
    moment: Instant,
    state: BatteryState,
    next_sample: Option<u64>,
    now: Instant,
)
    requires
        is_held_back(entry, glitch, sample),
        reading_of(state, Some(entry.percent)) matches Reading::Level { percent, .. }
            && bridge::distance(entry.percent, percent) <= bridge::MAX_PLAUSIBLE_STEP,
    ensures
        after_report(entry, glitch, sample, moment).1 == Move::Hold,
        after_report(after_report(entry, glitch, sample, moment).0, state, next_sample, now)
            == after_report(entry, state, next_sample, now),
        after_report(entry, state, next_sample, now).1 is Publish,
{
}

/// A real change, however large, costs one extra poll and no more: the first
/// reading is held back, and the next one that agrees with it is published.
pub proof fn law_real_change_costs_one_poll(
    entry: Entry,
    first: BatteryState,
    sample: Option<u64>,
    moment: Instant,
    second: BatteryState,
    next_sample: Option<u64>,
    now: Instant,
)
    requires
        is_held_back(entry, first, sample),
        reading_of(first, Some(entry.percent)) matches Reading::Level { percent: a, .. }
            && reading_of(second, Some(entry.percent)) matches Reading::Level { percent: b, .. }
            && bridge::distance(a, b) <= bridge::CONFIRM_TOLERANCE,
        is_second_opinion(sample, next_sample),
    ensures
        after_report(entry, first, sample, moment).1 == Move::Hold,
        after_report(
            after_report(entry, first, sample, moment).0,
            second,
            next_sample,
            now,
        ).1 matches Move::Publish { percent, charging, said } && reading_of(
            second,
            Some(entry.percent),
        ) == (Reading::Level { percent, charging }),
{
}

/// A reading that is merely repeated never confirms itself, however often it
/// comes back.
pub proof fn law_repetition_is_no_confirmation(
    entry: Entry,
    state: BatteryState,
    sample: u64,
    moments: Seq<Instant>,
)
    requires
        entry.deferred is None || entry.deferred->0.sample == Some(sample),
        reading_of(state, Some(entry.percent)) matches Reading::Level { percent, .. }
            && bridge::distance(entry.percent, percent) > bridge::MAX_PLAUSIBLE_STEP,
    ensures
        forall|now: Instant| #[trigger]
            after_report(repeated(entry, state, sample, moments), state, Some(sample), now).1
                == Move::Hold,
        repeated(entry, state, sample, moments).percent == entry.percent,
        repeated(entry, state, sample, moments).deferred is None || repeated(
            entry,
            state,
            sample,
            moments,
        ).deferred->0.sample == Some(sample),
    decreases moments.len(),
{
    if moments.len() > 0 {
        law_repetition_is_no_confirmation(entry, state, sample, moments.drop_last());
    }
}

/// An entry after the same reading was reported at each of those moments.
pub open spec fn repeated(entry: Entry, state: BatteryState, sample: u64, moments: Seq<Instant>) -> Entry
    decreases moments.len(),
{
    if moments.len() == 0 {
        entry
    } else {
        after_report(
            repeated(entry, state, sample, moments.drop_last()),
            state,
            Some(sample),
            moments.last(),
        ).0
    }
}

/// A headset that charges without giving a level keeps the one last known, and
/// a level that did not change is pushed again without a word.
pub proof fn law_last_known_level_is_kept(entry: Entry, sample: Option<u64>, now: Instant)
    ensures
        after_report(
            entry,
            BatteryState::Charging(None),
            sample,
            now,
        ).1 matches Move::Publish { percent, charging, said } && percent == entry.percent
            && charging && (entry.charging ==> said is None),
{
}

/// Not answering never changes what is published, nor what is known of it: only
/// that the headset is still there.
pub proof fn law_silence_changes_nothing(entry: Entry, sample: Option<u64>, now: Instant)
    ensures
        after_report(entry, BatteryState::Unavailable, sample, now) == (
            Entry { last_seen: now, ..entry },
            Move::Rest,
        ),
{
}

/// A report on the headset behind an entry, and what came of publishing its
/// level.
pub struct Report {
    /// What the headset said.
    pub state: BatteryState,
    /// Which reading it was.
    pub sample: Option<u64>,
    /// When.
    pub now: Instant,
    /// Whether a level to be published went through.
    pub went_through: bool,
}

/// The level a report gives of itself.
pub open spec fn level_in(state: BatteryState) -> Option<u8> {
    match state {
        BatteryState::Discharging(percent) => Some(percent),
        BatteryState::Charging(level) => level,
        _ => None,
    }
}

/// Whether a report is a reading: one that charges without a level counts, as it
/// stands for the level last published.
pub open spec fn is_reading(state: BatteryState) -> bool {
    state is Discharging || state is Charging
}

/// What is to be done about a report.
pub open spec fn move_on(entry: Entry, report: Report) -> Move {
    after_report(entry, report.state, report.sample, report.now).1
}

/// An entry after a report, the level it led to published if that went through.
pub open spec fn after_one(entry: Entry, report: Report) -> Entry {
    let left = after_report(entry, report.state, report.sample, report.now).0;
    match move_on(entry, report) {
        Move::Publish { percent, charging, .. } => if report.went_through {
            Entry { percent, charging, ..left }
        } else {
            left
        },
        _ => left,
    }
}

/// An entry after those reports, the first one first.
pub open spec fn after_all(entry: Entry, reports: Seq<Report>) -> Entry
    decreases reports.len(),
{
    if reports.len() == 0 {
        entry
    } else {
        after_one(after_all(entry, reports.drop_last()), reports.last())
    }
}

/// Whether the report at that index was held back when its turn came.
pub open spec fn was_held(entry: Entry, reports: Seq<Report>, index: int) -> bool {
    move_on(after_all(entry, reports.take(index)), reports[index]) == Move::Hold
}

/// Whether the report at that index is the last reading among them.
pub open spec fn is_last_reading(reports: Seq<Report>, index: int) -> bool {
    &&& 0 <= index < reports.len()
    &&& is_reading(reports[index].state)
    &&& forall|i: int| index < i < reports.len() ==> !is_reading((#[trigger] reports[i]).state)
}

/// Whether the last reading among those reports was held back, and `report`
/// confirms it: another reading, of about the same level.
pub open spec fn is_confirmed(entry: Entry, reports: Seq<Report>, report: Report, percent: u8) -> bool {
    exists|index: int| #[trigger]
        is_last_reading(reports, index) && was_held(entry, reports, index) && is_second_opinion(
            reports[index].sample,
            report.sample,
        ) && (level_in(reports[index].state) matches Some(held) && bridge::distance(held, percent)
            <= bridge::CONFIRM_TOLERANCE)
}

/// What waits for confirmation is the last reading, if that was held back, and
/// nothing else.
proof fn lemma_deferred(entry: Entry, reports: Seq<Report>, index: int)
    requires
        is_last_reading(reports, index),
    ensures
        after_all(entry, reports).deferred == (if was_held(entry, reports, index) {
            Some(
                Deferred {
                    percent: level_in(reports[index].state)->0,
                    sample: reports[index].sample,
                },
            )
        } else {
            None
        }),
        was_held(entry, reports, index) ==> level_in(reports[index].state) is Some,
    decreases reports.len(),
{
    let shorter = reports.drop_last();
    if index == reports.len() - 1 {
        assert(reports.take(index) =~= shorter);
    } else {
        assert(is_last_reading(shorter, index)) by {
            assert(shorter[index] == reports[index]);
            assert forall|i: int| index < i < shorter.len() implies !is_reading(
                (#[trigger] shorter[i]).state,
            ) by {
                assert(shorter[i] == reports[i]);
            }
        }
        lemma_deferred(entry, shorter, index);
        assert(shorter.take(index) =~= reports.take(index));
        assert(!is_reading(reports[reports.len() - 1].state));
    }
}

/// While there was no reading, nothing new waits for confirmation.
proof fn lemma_nothing_read(entry: Entry, reports: Seq<Report>)
    requires
        forall|i: int| 0 <= i < reports.len() ==> !is_reading((#[trigger] reports[i]).state),
    ensures
        after_all(entry, reports).deferred == entry.deferred,
    decreases reports.len(),
{
    if reports.len() > 0 {
        let shorter = reports.drop_last();
        assert forall|i: int| 0 <= i < shorter.len() implies !is_reading(
            (#[trigger] shorter[i]).state,
        ) by {
            assert(shorter[i] == reports[i]);
        }
        lemma_nothing_read(entry, shorter);
        assert(!is_reading(reports[reports.len() - 1].state));
    }
}

/// Where the last reading among those reports stands, if there is one.
proof fn lemma_last_reading(reports: Seq<Report>) -> (index: int)
    ensures
        index == -1 ==> forall|i: int|
            0 <= i < reports.len() ==> !is_reading((#[trigger] reports[i]).state),
        index != -1 ==> is_last_reading(reports, index),
    decreases reports.len(),
{
    if reports.len() == 0 {
        -1
    } else if is_reading(reports.last().state) {
        reports.len() - 1
    } else {
        let shorter = reports.drop_last();
        let index = lemma_last_reading(shorter);
        assert forall|i: int| index < i < reports.len() && 0 <= i implies !is_reading(
            (#[trigger] reports[i]).state,
        ) by {
            if i < shorter.len() {
                assert(shorter[i] == reports[i]);
            }
        }
        if index != -1 {
            assert(shorter[index] == reports[index]);
        }
        index
    }
}

/// Over any run of polls a reading is published exactly if it is within the
/// plausible step of the level last published, or confirms the reading held back
/// just before it: the last one before it, within the tolerance, and not merely
/// the same one again. Every other reading is held back.
pub proof fn law_noise_is_never_published_in_any_run(
    entry: Entry,
    reports: Seq<Report>,
    report: Report,
)
    requires
        entry.deferred is None,
        is_reading(report.state),
    ensures
        ({
            let known = after_all(entry, reports);
            let percent = match level_in(report.state) {
                Some(level) => level,
                None => known.percent,
            };
            let credible = bridge::distance(known.percent, percent) <= bridge::MAX_PLAUSIBLE_STEP
                || is_confirmed(entry, reports, report, percent);
            &&& credible ==> (move_on(known, report) matches Move::Publish {
                percent: level,
                charging,
                said,
            } && level == percent && charging == (report.state is Charging))
            &&& !credible ==> move_on(known, report) == Move::Hold && after_one(known, report).percent
                == known.percent
        }),
{
    let known = after_all(entry, reports);
    let percent = match level_in(report.state) {
        Some(level) => level,
        None => known.percent,
    };
    let index = lemma_last_reading(reports);
    if index == -1 {
        lemma_nothing_read(entry, reports);
        assert(!is_confirmed(entry, reports, report, percent));
    } else {
        lemma_deferred(entry, reports, index);
        assert forall|other: int| #[trigger] is_last_reading(reports, other) implies other
            == index by {
            if other < index {
                assert(!is_reading(reports[index].state));
            } else if other > index {
                assert(!is_reading(reports[other].state));
            }
        }
    }
}

/// What was last published stays known until another level is: silence, a
/// reading held back and a level that did not go through leave it alone.
pub proof fn law_known_level_is_the_one_published(entry: Entry, reports: Seq<Report>, report: Report)
    ensures
        ({
            let known = after_all(entry, reports);
            let left = after_all(entry, reports.push(report));
            match move_on(known, report) {
                Move::Publish { percent, charging, .. } if report.went_through => left.percent
                    == percent && left.charging == charging,
                _ => left.percent == known.percent && left.charging == known.charging,
            }
        }),
{
    assert(reports.push(report).drop_last() =~= reports);
}

/// A reading that was not held back makes every glitch before it count for
/// nothing: an implausible reading after it is held back in its turn, however
/// well it agrees with them.
pub proof fn law_accepted_reading_clears_the_past(
    entry: Entry,
    reports: Seq<Report>,
    accepted: int,
    report: Report,
)
    requires
        is_last_reading(reports, accepted),
        !was_held(entry, reports, accepted),
        level_in(report.state) matches Some(percent) && bridge::distance(
            after_all(entry, reports).percent,
            percent,
        ) > bridge::MAX_PLAUSIBLE_STEP,
    ensures
        ({
            let known = after_all(entry, reports);
            let left = after_one(known, report);
            &&& move_on(known, report) == Move::Hold
            &&& left.percent == known.percent
            &&& left.charging == known.charging
            &&& left.deferred == Some(
                Deferred { percent: level_in(report.state)->0, sample: report.sample },
            )
        }),
{
    lemma_deferred(entry, reports, accepted);
}

/// What each thing a headset can say comes to: a level is taken as it stands, a
/// headset that charges without one stands for the level last known, and the
/// two ways of not giving any are told apart.
pub proof fn law_report_comes_to_what_it_says(level: u8, known: u8)
    ensures
        reading_of(BatteryState::Discharging(level), Some(known)) == (Reading::Level {
            percent: level,
            charging: false,
        }),
        reading_of(BatteryState::Charging(Some(level)), Some(known)) == (Reading::Level {
            percent: level,
            charging: true,
        }),
        reading_of(BatteryState::Charging(None), Some(known)) == (Reading::Level {
            percent: known,
            charging: true,
        }),
        reading_of(BatteryState::Charging(None), None) == Reading::NoLevelYet,
        reading_of(BatteryState::Unavailable, Some(known)) == Reading::Silent,
        reading_of(BatteryState::Disconnected, Some(known)) == Reading::Gone,
        forall|state: BatteryState|
            !(state is Charging) ==> #[trigger] reading_of(state, None) == reading_of(
                state,
                Some(known),
            ),
        reading_of(BatteryState::Charging(Some(level)), None) == reading_of(
            BatteryState::Charging(Some(level)),
            Some(known),
        ),
{
}

/// A reading held back can be confirmed by any later one but itself: only where
/// both are numbered, and numbered alike, is the later one the same again.
pub proof fn law_only_the_same_reading_is_no_second_opinion(held: Deferred, sample: Option<u64>)
    ensures
        confirmable(Some(held), sample) == (if held.sample is Some && held.sample == sample {
            None
        } else {
            Some(held.percent)
        }),
        confirmable(None, sample) is None,
{
}

/// A level is news when it differs from what is published: worth knowing if the
/// plug came or went, or if it is five points from the last one said aloud.
pub proof fn law_change_is_news(entry: Entry, percent: u8, charging: bool)
    ensures
        news(entry, percent, charging) is None <==> percent == entry.percent && charging
            == entry.charging,
        charging != entry.charging ==> news(entry, percent, charging) == Some(Loudness::Info),
        charging == entry.charging && percent != entry.percent ==> news(entry, percent, charging)
            == Some(
            if percent >= entry.logged_percent + 5 || percent + 5 <= entry.logged_percent {
                Loudness::Info
            } else {
                Loudness::Debug
            },
        ),
{
}

/// What a report leaves in an entry: that the headset was there, and, if it gave
/// a reading, that it answered. What is published changes only once a level went
/// through. A reading waits for confirmation exactly if it is held back, and the
/// level last said aloud is the one published loudly.
pub proof fn law_report_is_noted(entry: Entry, state: BatteryState, sample: Option<u64>, now: Instant)
    ensures
        ({
            let (left, next) = after_report(entry, state, sample, now);
            &&& left.last_seen == now
            &&& left.percent == entry.percent && left.charging == entry.charging
            &&& (state is Discharging || state is Charging) ==> left.last_reading == now
            &&& (state is Unavailable || state is Disconnected) ==> left == (Entry {
                last_seen: now,
                ..entry
            })
            &&& next == Move::Withdraw <==> state == BatteryState::Disconnected
            &&& next == Move::Rest <==> state == BatteryState::Unavailable
            &&& next == Move::Hold ==> left.deferred is Some && left.deferred->0.sample == sample
                && left.logged_percent == entry.logged_percent
            &&& next matches Move::Publish { percent, charging, said } ==> {
                &&& left.deferred is None
                &&& said == news(entry, percent, charging)
                &&& charging == (state is Charging)
                &&& left.logged_percent == (if said == Some(Loudness::Info) {
                    percent
                } else {
                    entry.logged_percent
                })
            }
        }),
{
}

/// A reading within fifteen points of the level published is published as it
/// stands, whatever is held back; one further off is held back unless it is
/// within five points of a reading held back before, and another one.
pub proof fn law_reading_is_weighed(
    entry: Entry,
    level: u8,
    plugged: bool,
    sample: Option<u64>,
    now: Instant,
)
    ensures
        ({
            let state = if plugged {
                BatteryState::Charging(Some(level))
            } else {
                BatteryState::Discharging(level)
            };
            let next = after_report(entry, state, sample, now).1;
            let near = level <= entry.percent + 15 && entry.percent <= level + 15;
            let confirmed = entry.deferred matches Some(held) && level <= held.percent + 5
                && held.percent <= level + 5 && (held.sample is None || held.sample != sample);
            &&& near || confirmed ==> (next matches Move::Publish { percent, charging, said }
                && percent == level && charging == plugged)
            &&& !near && !confirmed ==> next == Move::Hold && after_report(
                entry,
                state,
                sample,
                now,
            ).0.deferred == Some(Deferred { percent: level, sample })
        }),
{
}

/// A level that went through is what the entry knows from then on, charging or
/// not; one that did not leaves what it knew.
pub proof fn law_level_that_went_through_is_known(entry: Entry, report: Report)
    ensures
        report.went_through ==> (move_on(entry, report) matches Move::Publish {
            percent,
            charging,
            said,
        } ==> after_one(entry, report).percent == percent && after_one(entry, report).charging
            == charging),
        !(move_on(entry, report) is Publish) || !report.went_through ==> after_one(entry, report)
            == after_report(entry, report.state, report.sample, report.now).0,
{
}

} // verus!
