//! Where battery readings come from.
//!
//! HeadsetControl knows a few hundred headsets and is the general answer. For
//! the hardware this crate can talk to itself the native reader goes first: it
//! is far more reliable, and it listens to the dongle instead of polling the
//! headset, which is both quicker to notice a change and kinder to the dongle.

use vstd::prelude::*;
use crate::headset::Headset;
use crate::headsetcontrol::HeadsetControl;
use crate::maxwell::reader::Reader;
use crate::maxwell::session::Link;
use crate::time::{self, Duration, Instant};

verus! {

/// Default for how often the native reader asks a linked headset for its level,
/// in seconds.
pub const DEFAULT_NATIVE_INTERVAL_SECS: u64 = 60;

/// How many seconds a vanished dongle is given to re-enumerate before
/// HeadsetControl is tried instead. It takes two or three.
pub const REENUMERATION_GRACE_SECS: u64 = 30;

/// Which reader to use.
#[derive(Debug, Clone, Copy, PartialEq, Eq, Structural)]
pub enum Backend {
    /// The native reader when it recognises the hardware, HeadsetControl
    /// otherwise.
    Auto,
    /// Only the native reader; HeadsetControl does not need to be installed.
    Native,
    /// Only HeadsetControl.
    HeadsetControl,
}

impl Default for Backend {
    fn default() -> (backend: Self)
        ensures
            backend == Backend::Auto,
    {
        Backend::Auto
    }
}

/// A configured source of battery readings. `F` is an open dongle.
#[derive(Debug)]
pub struct Source<F> {
    /// Which reader to use.
    pub backend: Backend,
    /// The general reader.
    pub control: HeadsetControl,
    /// Whether the last probe was answered by the native reader.
    pub native: bool,
    /// The native reader keeps its dongles open between polls.
    pub reader: Reader<F>,
    /// How often the native reader asks a linked headset for its level.
    pub native_interval: Duration,
    /// When the native reader last had a dongle to listen to.
    pub native_seen_at: Option<Instant>,
}

/// Who answers a probe.
#[derive(Debug)]
pub enum Answer {
    /// The native reader does, and found those.
    Native(Vec<Headset>),
    /// HeadsetControl has to be asked.
    AskHeadsetControl,
}

/// What a source remembers between two probes.
#[derive(Clone, Copy)]
pub struct Memory {
    /// Whether the last probe was answered by the native reader.
    pub native: bool,
    /// When the native reader last had a dongle to listen to.
    pub native_seen_at: Option<Instant>,
}

/// Whether a dongle seen at that moment may still be re-enumerating.
pub open spec fn is_coming_back(native_seen_at: Option<Instant>, now: Instant) -> bool {
    native_seen_at matches Some(at) && time::elapsed(at, now).nanos < time::seconds(
        REENUMERATION_GRACE_SECS,
    ).nanos
}

/// Whether HeadsetControl has to be asked, the native reader having found that
/// many headsets.
pub open spec fn asks_control(
    backend: Backend,
    native_seen_at: Option<Instant>,
    found: nat,
    now: Instant,
) -> bool {
    match backend {
        Backend::Native => false,
        Backend::HeadsetControl => true,
        Backend::Auto => found == 0 && !is_coming_back(native_seen_at, now),
    }
}

/// What a source remembers after a probe in which the native reader found that
/// many headsets.
pub open spec fn after_probe(backend: Backend, memory: Memory, found: nat, now: Instant) -> Memory {
    Memory {
        native: !asks_control(backend, memory.native_seen_at, found, now),
        native_seen_at: if backend == Backend::Auto && found > 0 {
            Some(now)
        } else {
            memory.native_seen_at
        },
    }
}

impl<F> Source<F> {
    /// What this source remembers.
    pub open spec fn memory(self) -> Memory {
        Memory { native: self.native, native_seen_at: self.native_seen_at }
    }

    /// Builds a source.
    #[must_use]
    pub fn new(backend: Backend, control: HeadsetControl, native_interval: Duration) -> (source:
        Self)
        ensures
            source.backend == backend,
            source.control == control,
            source.native_interval == native_interval,
            !source.native,
            source.native_seen_at is None,
            source.reader.wf(),
            source.reader.sessions@.len() == 0,
            source.reader.last_link@ == Map::<u16, Link>::empty(),
            source.reader.readings == 0,
    {
        Source {
            backend,
            control,
            native: false,
            reader: Reader::new(),
            native_interval,
            native_seen_at: None,
        }
    }

    /// A short description, for the startup log line.
    #[must_use]
    pub fn describe(&self) -> (said: String)
        requires
            self.native_interval.is_writable(),
        ensures
            said@ == description(self.backend, self.native_interval.written(), self.control.binary@),
    {
        self.describe_with(self.native_interval.describe().as_str())
    }

    /// A short description, the native interval being written so.
    pub fn describe_with(&self, interval: &str) -> (said: String)
        ensures
            said@ == description(self.backend, interval@, self.control.binary@),
    {
        if self.backend == Backend::HeadsetControl {
            return self.control.binary().to_owned();
        }
        let mut said = "the native reader (asking a linked headset every ".to_owned();
        said.append(interval);
        if self.backend == Backend::Auto {
            said.append("), falling back to ");
            said.append(self.control.binary());
        } else {
            said.append(")");
        }
        said
    }

    /// Whether a dongle the native reader was listening to vanished only
    /// moments ago.
    ///
    /// The Maxwell's dongle re-enumerates on USB whenever the headset comes or
    /// goes, and is gone for a couple of seconds each time. Falling back to
    /// HeadsetControl for that gap would be wrong twice over: it fires its
    /// twenty packets at a headset that has typically just been switched off,
    /// and it drops the daemon to HeadsetControl's slow cadence, so the headset
    /// coming back goes unnoticed for a minute.
    pub fn dongle_is_coming_back(&self, now: Instant) -> (yes: bool)
        ensures
            yes == is_coming_back(self.native_seen_at, now),
    {
        match self.native_seen_at {
            Some(at) => now.duration_since(at).nanos < Duration::from_secs(
                REENUMERATION_GRACE_SECS,
            ).nanos,
            None => false,
        }
    }

    /// Whether the native reader has a say in this source at all.
    pub fn listens(&self) -> (yes: bool)
        ensures
            yes == (self.backend != Backend::HeadsetControl),
    {
        self.backend != Backend::HeadsetControl
    }

    /// A one-shot reading for the `status` command, which cannot wait for the
    /// next poll to collect the answer to the request it just sent. `native` is
    /// what the native reader read, if it has a say.
    #[must_use]
    pub fn probe_once(&self, native: Vec<Headset>) -> (answer: Answer)
        ensures
            answer == (if self.backend == Backend::HeadsetControl || (self.backend == Backend::Auto
                && native@.len() == 0) {
                Answer::AskHeadsetControl
            } else {
                Answer::Native(native)
            }),
            // It asks as a source that never saw a dongle does.
            forall|now: Instant|
                (answer is AskHeadsetControl) == #[trigger] asks_control(
                    self.backend,
                    None,
                    native@.len(),
                    now,
                ),
    {
        if self.backend == Backend::HeadsetControl {
            return Answer::AskHeadsetControl;
        }
        if native.len() == 0 && self.backend == Backend::Auto {
            Answer::AskHeadsetControl
        } else {
            Answer::Native(native)
        }
    }

    /// Whether the last [`Source::probe`] was answered by the native reader.
    ///
    /// It matters for pacing: the native reader only listens, so it can - and
    /// has to - be run every second, where HeadsetControl replays twenty packets
    /// over 2.7 s.
    #[must_use]
    pub fn last_probe_was_native(&self) -> (yes: bool)
        ensures
            yes == self.native,
    {
        self.native
    }

    /// Decides who answers for the headsets this source can see, `native` being
    /// what the native reader heard, if it has a say.
    ///
    /// The two views are deliberately not merged: running HeadsetControl's
    /// twenty-packet sequence against the same dongle every poll is what the
    /// native reader is there to get away from.
    #[must_use]
    pub fn probe(&mut self, native: Vec<Headset>, now: Instant) -> (answer: Answer)
        ensures
            answer == (if asks_control(
                old(self).backend,
                old(self).native_seen_at,
                native@.len(),
                now,
            ) {
                Answer::AskHeadsetControl
            } else {
                Answer::Native(native)
            }),
            final(self).memory() == after_probe(
                old(self).backend,
                old(self).memory(),
                native@.len(),
                now,
            ),
            final(self).backend == old(self).backend,
            final(self).control == old(self).control,
            final(self).reader == old(self).reader,
            final(self).native_interval == old(self).native_interval,
    {
        match self.backend {
            Backend::Native => {
                self.native = true;
                Answer::Native(native)
            },
            Backend::HeadsetControl => {
                self.native = false;
                Answer::AskHeadsetControl
            },
            Backend::Auto => {
                if native.len() > 0 {
                    self.native_seen_at = Some(now);
                    self.native = true;
                    Answer::Native(native)
                } else if self.dongle_is_coming_back(now) {
                    // Still the native reader's turn.
                    self.native = true;
                    Answer::Native(native)
                } else {
                    self.native = false;
                    Answer::AskHeadsetControl
                }
            },
        }
    }
}

/// How a source is described, its native interval being written so.
pub open spec fn description(backend: Backend, interval: Seq<char>, binary: Seq<char>) -> Seq<char> {
    match backend {
        Backend::Auto => "the native reader (asking a linked headset every "@ + interval
            + "), falling back to "@ + binary,
        Backend::Native => "the native reader (asking a linked headset every "@ + interval + ")"@,
        Backend::HeadsetControl => binary,
    }
}

/// What a source remembers after a run of probes, each given as how many
/// headsets the native reader found and when, the first one first.
pub open spec fn after_probes(backend: Backend, memory: Memory, probes: Seq<(nat, Instant)>) -> Memory
    decreases probes.len(),
{
    if probes.len() == 0 {
        memory
    } else {
        let (found, now) = probes.last();
        after_probe(backend, after_probes(backend, memory, probes.drop_last()), found, now)
    }
}

/// A dongle that vanishes is waited for: from the probe that last saw it,
/// however many find nothing, HeadsetControl is left alone for as long as the
/// grace lasts, and asked at the first probe after it.
pub proof fn law_vanished_dongle_is_waited_for(
    memory: Memory,
    seen: (nat, Instant),
    gap: Seq<(nat, Instant)>,
    now: Instant,
)
    requires
        seen.0 > 0,
        forall|i: int| 0 <= i < gap.len() ==> (#[trigger] gap[i]).0 == 0,
    ensures
        ({
            let later = after_probes(
                Backend::Auto,
                after_probe(Backend::Auto, memory, seen.0, seen.1),
                gap,
            );
            asks_control(Backend::Auto, later.native_seen_at, 0, now) <==> time::elapsed(
                seen.1,
                now,
            ).nanos >= time::seconds(REENUMERATION_GRACE_SECS).nanos
        }),
    decreases gap.len(),
{
    if gap.len() > 0 {
        assert(gap.last().0 == 0);
        assert forall|i: int| 0 <= i < gap.drop_last().len() implies (
        #[trigger] gap.drop_last()[i]).0 == 0 by {
            assert(gap.drop_last()[i] == gap[i]);
        }
        law_vanished_dongle_is_waited_for(memory, seen, gap.drop_last(), now);
    }
}

/// A forced backend is never left: whatever is found, now or before, the other
/// reader has no say, and every probe is put down to the reader that was forced.
pub proof fn law_forced_backend_is_never_left(
    memory: Memory,
    probes: Seq<(nat, Instant)>,
    native_seen_at: Option<Instant>,
    found: nat,
    now: Instant,
)
    ensures
        !asks_control(Backend::Native, native_seen_at, found, now),
        asks_control(Backend::HeadsetControl, native_seen_at, found, now),
        probes.len() > 0 ==> after_probes(Backend::Native, memory, probes).native,
        probes.len() > 0 ==> !after_probes(Backend::HeadsetControl, memory, probes).native,
{
}

/// Hardware the native reader recognises is never handed to HeadsetControl.
pub proof fn law_recognised_hardware_stays_native(memory: Memory, found: nat, now: Instant)
    requires
        found > 0,
    ensures
        !asks_control(Backend::Auto, memory.native_seen_at, found, now),
        after_probe(Backend::Auto, memory, found, now).native,
{
}

/// A dongle may be coming back for thirty seconds after it was last seen, and
/// not at all if none ever was.
pub proof fn law_grace_lasts_half_a_minute(at: Instant, now: Instant)
    ensures
        at.nanos <= now.nanos ==> (is_coming_back(Some(at), now) <==> now.nanos < at.nanos
            + 30_000_000_000),
        at.nanos > now.nanos ==> is_coming_back(Some(at), now),
        !is_coming_back(None, now),
{
}

/// HeadsetControl is asked when it is forced, and where either reader may answer
/// only if the native one found nothing and has no dongle on its way back.
pub proof fn law_headsetcontrol_is_the_last_resort(
    backend: Backend,
    memory: Memory,
    found: nat,
    now: Instant,
)
    ensures
        ({
            let asked = asks_control(backend, memory.native_seen_at, found, now);
            let left = after_probe(backend, memory, found, now);
            &&& asked <==> backend == Backend::HeadsetControl || (backend == Backend::Auto && found
                == 0 && (memory.native_seen_at matches Some(at) ==> at.nanos + 30_000_000_000
                <= now.nanos))
            &&& left.native != asked
            &&& backend == Backend::Auto && found > 0 ==> left.native_seen_at == Some(now)
            &&& backend != Backend::Auto || found == 0 ==> left.native_seen_at
                == memory.native_seen_at
        }),
{
}

/// A source is described by the readers it may use: the native one with its
/// interval, HeadsetControl by its binary, and both where both may be.
pub proof fn law_description_names_the_readers(interval: Seq<char>, binary: Seq<char>)
    ensures
        description(Backend::HeadsetControl, interval, binary) == binary,
        description(Backend::Native, interval, binary)
            == "the native reader (asking a linked headset every "@ + interval + ")"@,
        description(Backend::Auto, interval, binary) == description(
            Backend::Native,
            interval,
            binary,
        ) + ", falling back to "@ + binary,
{
    reveal_strlit(")");
    reveal_strlit(", falling back to ");
    reveal_strlit("), falling back to ");
    assert("), falling back to "@ =~= ")"@ + ", falling back to "@);
    assert(description(Backend::Auto, interval, binary) =~= description(
        Backend::Native,
        interval,
        binary,
    ) + ", falling back to "@ + binary);
}

} // verus!
