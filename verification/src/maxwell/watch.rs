//! When a dongle that cannot be reached is worth a warning.

use vstd::prelude::*;
use crate::time::{self, Duration, Instant};

verus! {

/// How many seconds an access error has to last before it is worth a warning.
/// Right after the dongle re-enumerates its new node exists for a moment
/// without the permissions udev is about to give it, and that happens at every
/// link change.
pub const ERROR_SETTLE_SECS: u64 = 5;

/// The access error being watched.
#[derive(Debug)]
pub struct Watched {
    /// Its text.
    pub message: String,
    /// Since when it has been there.
    pub since: Instant,
    /// Whether it has been reported yet: once it has, it is not reported again.
    pub reported: bool,
}

/// Keeps an eye on a dongle that is listed but cannot be reached.
#[derive(Debug)]
pub struct ErrorWatch {
    /// The error being watched, if there is one.
    pub last: Option<Watched>,
}

/// How loud to be about an access error.
#[derive(Debug, Clone, Copy, PartialEq, Eq, Structural)]
pub enum Loudness {
    /// Not worth more than a debug line.
    Quiet,
    /// Warn that the node may not be opened.
    Denied,
    /// Warn that the dongle cannot be queried.
    Unreachable,
}

/// Since when the error `message` has been there, and whether it was reported.
pub open spec fn known_since(last: Option<Watched>, message: Seq<char>, now: Instant) -> (
    Instant,
    bool,
) {
    match last {
        Some(watched) => if watched.message@ == message {
            (watched.since, watched.reported)
        } else {
            (now, false)
        },
        None => (now, false),
    }
}

/// Whether an access error is worth a warning now: it has lasted, and none was
/// given yet.
pub open spec fn worth_a_warning(last: Option<Watched>, message: Seq<char>, now: Instant) -> bool {
    let (since, reported) = known_since(last, message, now);
    !reported && time::elapsed(since, now).nanos >= time::seconds(ERROR_SETTLE_SECS).nanos
}

impl ErrorWatch {
    /// Nothing to watch yet.
    pub fn new() -> (watch: ErrorWatch)
        ensures
            watch.last is None,
    {
        ErrorWatch { last: None }
    }

    /// Notes a failure to reach a dongle that sysfs says is there, and tells how
    /// loud to be about it.
    ///
    /// This is loud on purpose, once it has lasted. A dongle that is listed but
    /// cannot be opened looks, from the outside, exactly like a headset that is
    /// switched off - and the usual cause is a udev rule that sorts after
    /// `73-seat-late.rules`.
    pub fn report_error(&mut self, message: String, denied: bool, now: Instant) -> (loudness:
        Loudness)
        ensures
            ({
                let (since, reported) = known_since(old(self).last, message@, now);
                let warn = worth_a_warning(old(self).last, message@, now);
                &&& final(self).last == Some(
                    Watched { message, since, reported: reported || warn },
                )
                &&& loudness == (if !warn {
                    Loudness::Quiet
                } else if denied {
                    Loudness::Denied
                } else {
                    Loudness::Unreachable
                })
            }),
    {
        let mut since = now;
        let mut reported = false;
        if let Some(watched) = &self.last {
            if watched.message == message {
                since = watched.since;
                reported = watched.reported;
            }
        }
        let settled = now.duration_since(since).nanos >= Duration::from_secs(
            ERROR_SETTLE_SECS,
        ).nanos;
        if reported || !settled {
            self.last = Some(Watched { message, since, reported });
            return Loudness::Quiet;
        }
        self.last = Some(Watched { message, since, reported: true });
        if denied {
            Loudness::Denied
        } else {
            Loudness::Unreachable
        }
    }

    /// Notes that the dongle was reached, and tells whether that is worth a line:
    /// only if the failure was.
    pub fn report_recovery(&mut self) -> (worth_a_line: bool)
        ensures
            final(self).last is None,
            worth_a_line == (old(self).last matches Some(watched) && watched.reported),
    {
        match self.last.take() {
            Some(watched) => watched.reported,
            None => false,
        }
    }
}

/// The error watched after `message` was seen at each of those moments, the
/// first one first.
pub open spec fn after_errors(last: Option<Watched>, message: String, moments: Seq<Instant>) -> Option<
    Watched,
>
    decreases moments.len(),
{
    if moments.len() == 0 {
        last
    } else {
        let before = after_errors(last, message, moments.drop_last());
        let (since, reported) = known_since(before, message@, moments.last());
        Some(
            Watched {
                message,
                since,
                reported: reported || worth_a_warning(before, message@, moments.last()),
            },
        )
    }
}

/// How many warnings that took.
pub open spec fn warnings(last: Option<Watched>, message: String, moments: Seq<Instant>) -> nat
    decreases moments.len(),
{
    if moments.len() == 0 {
        0
    } else {
        let before = after_errors(last, message, moments.drop_last());
        let earlier = warnings(last, message, moments.drop_last());
        if worth_a_warning(before, message@, moments.last()) {
            earlier + 1
        } else {
            earlier
        }
    }
}

/// An error that keeps coming back is warned about once, however long that
/// lasts, and not at all once it has been.
pub proof fn law_one_warning_per_error(last: Option<Watched>, message: String, moments: Seq<Instant>)
    ensures
        warnings(last, message, moments) <= 1,
        warnings(last, message, moments) == 1 ==> (after_errors(
            last,
            message,
            moments,
        ) matches Some(watched) && watched.message@ == message@ && watched.reported),
        (last matches Some(watched) && watched.message@ == message@ && watched.reported) ==> warnings(
            last,
            message,
            moments,
        ) == 0,
    decreases moments.len(),
{
    lemma_reported_stays_reported(last, message, moments);
    if moments.len() > 0 {
        law_one_warning_per_error(last, message, moments.drop_last());
        lemma_reported_stays_reported(last, message, moments.drop_last());
    }
}

proof fn lemma_reported_stays_reported(
    last: Option<Watched>,
    message: String,
    moments: Seq<Instant>,
)
    ensures
        (last matches Some(watched) && watched.message@ == message@ && watched.reported) ==> (
        after_errors(last, message, moments) matches Some(watched) && watched.message@ == message@
            && watched.reported),
    decreases moments.len(),
{
    if moments.len() > 0 {
        lemma_reported_stays_reported(last, message, moments.drop_last());
    }
}

/// An error that has just turned up is never worth a warning yet.
pub proof fn law_new_error_is_not_warned_about(last: Option<Watched>, message: Seq<char>, now: Instant)
    requires
        last matches Some(watched) ==> watched.message@ != message,
    ensures
        !worth_a_warning(last, message, now),
{
}

/// An error is worth a warning once it has been there for five seconds, unless
/// it was warned about before; how long it has been there, and whether it was
/// warned about, is known as long as it stays the same.
pub proof fn law_lasting_error_is_worth_a_warning(watched: Watched, message: Seq<char>, now: Instant)
    ensures
        watched.message@ == message ==> (worth_a_warning(Some(watched), message, now) <==> !watched.reported
            && now.nanos >= watched.since.nanos + 5_000_000_000),
        watched.message@ == message ==> known_since(Some(watched), message, now) == (
            watched.since,
            watched.reported,
        ),
        watched.message@ != message ==> known_since(Some(watched), message, now) == (now, false),
        known_since(None, message, now) == (now, false),
{
}

/// An error that turns up and stays is warned about exactly if it stays for five
/// seconds.
pub proof fn law_error_that_stays_is_warned_about_once(message: String, moments: Seq<Instant>)
    requires
        moments.len() > 0,
        forall|i: int, j: int|
            0 <= i < j < moments.len() ==> (#[trigger] moments[i]).nanos <= (
            #[trigger] moments[j]).nanos,
    ensures
        warnings(None, message, moments) == (if moments.last().nanos >= moments[0].nanos
            + 5_000_000_000 {
            1nat
        } else {
            0nat
        }),
        after_errors(None, message, moments) matches Some(watched) && watched.message == message
            && watched.since == moments[0] && watched.reported == (moments.last().nanos
            >= moments[0].nanos + 5_000_000_000),
    decreases moments.len(),
{
    if moments.len() == 1 {
        assert(moments.drop_last() =~= Seq::<Instant>::empty());
        assert(after_errors(None, message, moments.drop_last()) is None);
        assert(warnings(None, message, moments.drop_last()) == 0);
    } else {
        let earlier = moments.drop_last();
        assert forall|i: int, j: int| 0 <= i < j < earlier.len() implies (
        #[trigger] earlier[i]).nanos <= (#[trigger] earlier[j]).nanos by {
            assert(earlier[i] == moments[i] && earlier[j] == moments[j]);
        }
        law_error_that_stays_is_warned_about_once(message, earlier);
        assert(moments[0].nanos <= moments[moments.len() - 1].nanos);
        assert(earlier.last() == moments[moments.len() - 2]);
        assert(moments[moments.len() - 2].nanos <= moments[moments.len() - 1].nanos);
    }
}

} // verus!
