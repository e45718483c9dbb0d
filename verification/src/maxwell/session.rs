//! What is known about the headset behind one open dongle, and when to ask it
//! for its level.
//!
//! The dongle announces the headset's link state on its own, and volunteers the
//! battery level when the headset connects. So a session is passive: it takes
//! in what the report says, and only asks for the level while the headset is
//! known to be linked, plus a handful of times per opened node - the first
//! after listening for a few seconds - to learn where things stand.
//!
//! That restraint is not politeness. A daemon that kept sending a request every
//! ten seconds to a headset that was switched off left the dongle's command
//! channel dead after an hour or so, and only a power cycle brought it back.
//! As a second line of defence a session stops asking when a headset that is
//! supposed to be linked stops answering.

use vstd::prelude::*;
use crate::headset::BatteryState;
use crate::maxwell::frame::{self, Message};
use crate::time::{self, Duration, Instant};

verus! {

/// Requests a linked headset may leave unanswered before the session stops
/// asking.
pub const MAX_UNANSWERED: u32 = 3;

/// After opening a dongle, listen this many seconds before asking anything: if
/// the headset is there the dongle usually says so on its own, and if it just
/// left there is nobody to ask.
pub const LISTEN_FIRST_SECS: u64 = 3;

/// How many seconds to wait before asking again a session that has heard
/// nothing, one entry per extra question.
pub const ASK_AGAIN_AFTER_SECS: [u64; 2] = [10, 30];

/// The most questions a session that hears nothing may ask: the first one and
/// the extra ones.
pub const MAX_QUESTIONS: u32 = 3;

/// What the dongle last said about the headset's radio link.
#[derive(Debug, Clone, Copy, PartialEq, Eq, Structural)]
pub enum Link {
    /// Nothing heard yet, either way.
    Unknown,
    /// The headset is linked.
    Up,
    /// The headset is gone: switched off, or out of range.
    Down,
}

/// What is known about the headset behind an open dongle.
#[derive(Debug, Clone, Copy, PartialEq, Eq, Structural)]
pub struct Session {
    /// Product ID of the dongle.
    pub product_id: u16,
    /// The headset's radio link.
    pub link: Link,
    /// The last level heard, while it still means something.
    pub level: Option<u8>,
    /// Which report that level was heard in.
    pub sample: Option<u64>,
    /// When the dongle was opened.
    pub opened_at: Instant,
    /// When a battery request was last sent, or given up on.
    pub asked_at: Option<Instant>,
    /// How many requests were sent in this session.
    pub asks: u32,
    /// Whether the last request is still waiting for its answer.
    pub pending: bool,
    /// How many requests in a row went unanswered.
    pub unanswered: u32,
}

/// What to do about a battery request that is due.
#[derive(Debug, Clone, Copy, PartialEq, Eq, Structural)]
pub enum Ask {
    /// Send it.
    Send,
    /// Do not: the headset is reported linked but does not answer.
    GiveUp,
}

/// A session that has heard one more message. `reading` is the number of the
/// report the message came in.
pub open spec fn after_message(session: Session, message: Message, reading: u64) -> Session {
    match message {
        Message::Link(true) => Session { link: Link::Up, unanswered: 0, ..session },
        Message::Link(false) => Session {
            link: Link::Down,
            level: None,
            sample: None,
            pending: false,
            unanswered: 0,
            ..session
        },
        Message::Battery(level) => Session {
            link: Link::Up,
            level: Some(level),
            sample: Some(reading),
            pending: false,
            unanswered: 0,
            ..session
        },
    }
}

/// A session that has heard those messages, the first one first.
pub open spec fn after_messages(session: Session, list: Seq<Message>, reading: u64) -> Session
    decreases list.len(),
{
    if list.len() == 0 {
        session
    } else {
        after_message(after_messages(session, list.drop_last(), reading), list.last(), reading)
    }
}

/// Whether a battery request is due.
pub open spec fn is_due(
    session: Session,
    now: Instant,
    interval: Duration,
    listen_first: Duration,
) -> bool {
    let listened = time::elapsed(session.opened_at, now).nanos >= listen_first.nanos;
    match session.link {
        Link::Up => match session.asked_at {
            Some(at) => time::elapsed(at, now).nanos >= interval.nanos,
            None => true,
        },
        Link::Unknown => match session.asked_at {
            Some(at) => 1 <= session.asks < MAX_QUESTIONS && time::elapsed(at, now).nanos
                >= time::seconds(ASK_AGAIN_AFTER_SECS@[session.asks - 1]).nanos,
            None => listened,
        },
        Link::Down => session.asked_at is None && listened,
    }
}

/// How many requests in a row will have gone unanswered if another one goes out
/// now: one that is still open was lost.
pub open spec fn lost(session: Session) -> int {
    if session.pending {
        session.unanswered + 1
    } else {
        session.unanswered as int
    }
}

/// Whether the headset is reported linked but has left too much unanswered.
pub open spec fn is_mute(session: Session) -> bool {
    session.link == Link::Up && lost(session) >= MAX_UNANSWERED
}

/// A session about to send a request, or giving up on it.
pub open spec fn about_to_ask(session: Session, now: Instant) -> Session {
    if is_mute(session) {
        Session {
            link: Link::Unknown,
            level: None,
            sample: None,
            pending: false,
            unanswered: 0,
            asked_at: Some(now),
            ..session
        }
    } else {
        Session { unanswered: lost(session) as u32, ..session }
    }
}

/// A session that has just sent a request.
pub open spec fn having_asked(session: Session, now: Instant) -> Session {
    Session {
        asked_at: Some(now),
        asks: (session.asks + 1) as u32,
        pending: true,
        ..session
    }
}

/// What a session makes of the battery, with the headset on a cable or not.
pub open spec fn battery_of(session: Session, wired: bool) -> BatteryState {
    match (session.link, session.level) {
        (Link::Down, _) => BatteryState::Disconnected,
        (_, Some(level)) => if wired {
            BatteryState::Charging(Some(level))
        } else {
            BatteryState::Discharging(level)
        },
        (_, None) => BatteryState::Unavailable,
    }
}

impl Session {
    /// A request was sent before any is remembered as sent, lost or open.
    pub open spec fn wf(self) -> bool {
        &&& self.asked_at is Some ==> self.asks >= 1
        &&& self.pending ==> self.asked_at is Some
        &&& self.unanswered > 0 ==> self.asked_at is Some
    }

    /// Starts a session on a dongle opened at `now`. `link` is what the previous
    /// session on this dongle knew: the dongle re-enumerates a second or two
    /// after every link change, and forgetting what it had just announced would
    /// turn an instant "the headset is gone" back into a guess.
    pub fn open(product_id: u16, link: Link, now: Instant) -> (session: Session)
        ensures
            session == (Session {
                product_id,
                link,
                level: None,
                sample: None,
                opened_at: now,
                asked_at: None,
                asks: 0,
                pending: false,
                unanswered: 0,
            }),
            session.wf(),
    {
        Session {
            product_id,
            link,
            level: None,
            sample: None,
            opened_at: now,
            asked_at: None,
            asks: 0,
            pending: false,
            unanswered: 0,
        }
    }

    /// Takes in whatever a report says.
    pub fn listen(&mut self, report: &[u8], reading: u64)
        ensures
            *final(self) == after_messages(*old(self), frame::messages_in(report@), reading),
            old(self).wf() ==> final(self).wf(),
    {
        let list = frame::messages(report);
        let ghost before = *self;
        let mut at: usize = 0;
        assert(list@.take(0) =~= Seq::<Message>::empty());
        while at < list.len()
            invariant
                at <= list.len(),
                *self == after_messages(before, list@.take(at as int), reading),
                before.wf() ==> self.wf(),
            decreases list.len() - at,
        {
            assert(list@.take(at + 1).drop_last() =~= list@.take(at as int));
            match list[at] {
                Message::Link(true) => {
                    self.link = Link::Up;
                    self.unanswered = 0;
                },
                Message::Link(false) => {
                    self.link = Link::Down;
                    self.level = None;
                    self.sample = None;
                    self.pending = false;
                    self.unanswered = 0;
                },
                Message::Battery(level) => {
                    self.link = Link::Up;
                    self.level = Some(level);
                    self.sample = Some(reading);
                    self.pending = false;
                    self.unanswered = 0;
                },
            }
            at = at + 1;
        }
        assert(list@.take(at as int) =~= list@);
    }

    /// Whether a battery request is due. Hardly ever while the headset is known
    /// to be gone, which is the whole point.
    pub fn should_ask(&self, now: Instant, interval: Duration, listen_first: Duration) -> (due: bool)
        requires
            self.link == Link::Unknown && self.asked_at is Some ==> self.asks >= 1,
        ensures
            due == is_due(*self, now, interval, listen_first),
    {
        match self.link {
            Link::Up => match self.asked_at {
                Some(at) => now.duration_since(at).nanos >= interval.nanos,
                None => true,
            },
            // A few times per session at most, the first after having listened
            // for a while. Requests sent to nobody are what this reader exists
            // to avoid, so there is a hard ceiling rather than a slow retry.
            Link::Unknown => match self.asked_at {
                Some(at) => {
                    if self.asks < MAX_QUESTIONS {
                        let extra: usize = (self.asks - 1) as usize;
                        let delay = Duration::from_secs(ASK_AGAIN_AFTER_SECS[extra]);
                        now.duration_since(at).nanos >= delay.nanos
                    } else {
                        false
                    }
                },
                None => now.duration_since(self.opened_at).nanos >= listen_first.nanos,
            },
            // The dongle said the headset is gone - possibly to the previous
            // session, this belief being inherited. One question, in case the
            // event announcing its return was lost with the re-enumeration.
            Link::Down => self.asked_at.is_none() && now.duration_since(self.opened_at).nanos
                >= listen_first.nanos,
        }
    }

    /// Prepares a request that is due. It is only on its way once
    /// [`Session::asked`] is told so.
    pub fn ask(&mut self, now: Instant) -> (verdict: Ask)
        requires
            old(self).pending ==> old(self).unanswered < u32::MAX,
        ensures
            *final(self) == about_to_ask(*old(self), now),
            verdict == (if is_mute(*old(self)) {
                Ask::GiveUp
            } else {
                Ask::Send
            }),
            old(self).wf() ==> final(self).wf(),
    {
        if self.pending {
            // Asking again with the previous request still open: it was lost.
            self.unanswered = self.unanswered + 1;
        }
        if self.link == Link::Up && self.unanswered >= MAX_UNANSWERED {
            self.link = Link::Unknown;
            self.level = None;
            self.sample = None;
            self.pending = false;
            self.unanswered = 0;
            self.asked_at = Some(now);
            return Ask::GiveUp;
        }
        Ask::Send
    }

    /// Notes that a request was sent.
    pub fn asked(&mut self, now: Instant)
        requires
            old(self).asks < u32::MAX,
        ensures
            *final(self) == having_asked(*old(self), now),
            old(self).wf() ==> final(self).wf(),
    {
        self.asked_at = Some(now);
        self.asks = self.asks + 1;
        self.pending = true;
    }

    /// The state of the battery, as far as is known. A headset on a cable is
    /// what charging looks like.
    pub fn battery(&self, wired: bool) -> (state: BatteryState)
        ensures
            state == battery_of(*self, wired),
    {
        match (self.link, self.level) {
            (Link::Down, _) => BatteryState::Disconnected,
            (_, Some(level)) => if wired {
                BatteryState::Charging(Some(level))
            } else {
                BatteryState::Discharging(level)
            },
            (_, None) => BatteryState::Unavailable,
        }
    }
}

/// Hearing something never adds to what is unanswered, and keeps a session
/// sound.
pub proof fn lemma_hearing_calms(session: Session, list: Seq<Message>, reading: u64)
    ensures
        after_messages(session, list, reading).unanswered <= session.unanswered,
        after_messages(session, list, reading).asks == session.asks,
        session.wf() ==> after_messages(session, list, reading).wf(),
    decreases list.len(),
{
    if list.len() > 0 {
        lemma_hearing_calms(session, list.drop_last(), reading);
    }
}

/// A moment at which a session that heard nothing gets to ask, and the pace it
/// asks at.
pub struct Turn {
    /// The moment.
    pub now: Instant,
    /// How often to ask a linked headset.
    pub interval: Duration,
    /// How long to listen before asking anything.
    pub listen_first: Duration,
}

/// A session after a turn at which it heard nothing.
pub open spec fn after_silence(session: Session, turn: Turn) -> Session {
    if !is_due(session, turn.now, turn.interval, turn.listen_first) {
        session
    } else if is_mute(session) {
        about_to_ask(session, turn.now)
    } else {
        having_asked(about_to_ask(session, turn.now), turn.now)
    }
}

/// A session after several such turns, the first one first.
pub open spec fn after_silences(session: Session, turns: Seq<Turn>) -> Session
    decreases turns.len(),
{
    if turns.len() == 0 {
        session
    } else {
        after_silence(after_silences(session, turns.drop_last()), turns.last())
    }
}

/// The most requests a session may still send if it hears nothing any more.
pub open spec fn questions_left(session: Session) -> int {
    let unasked = if session.asks < MAX_QUESTIONS {
        MAX_QUESTIONS - session.asks
    } else {
        0
    };
    let patience = if lost(session) < MAX_UNANSWERED {
        MAX_UNANSWERED - lost(session)
    } else {
        0
    };
    match session.link {
        Link::Unknown => unasked,
        Link::Down => if session.asked_at is None {
            1
        } else {
            0
        },
        Link::Up => if unasked > patience {
            unasked
        } else {
            patience
        },
    }
}

/// A turn in silence uses up a question for every request it sends.
proof fn lemma_silence_spends_questions(session: Session, turn: Turn)
    requires
        session.wf(),
        session.asked_at is None ==> session.asks == 0,
        session.asks + questions_left(session) <= u32::MAX,
    ensures
        ({
            let after = after_silence(session, turn);
            &&& after.wf()
            &&& after.asked_at is None ==> after.asks == 0
            &&& session.asks <= after.asks
            &&& after.asks + questions_left(after) <= session.asks + questions_left(session)
        }),
{
}

/// However long the silence lasts and however short the interval, a session
/// that hears nothing sends three requests at the most: one if the headset is
/// known to be gone, none if it has asked already; and never more than three in
/// all if nothing was ever heard.
pub proof fn law_silence_is_left_alone(session: Session, turns: Seq<Turn>)
    requires
        session.wf(),
        session.asked_at is None ==> session.asks == 0,
        session.asks + MAX_QUESTIONS <= u32::MAX,
    ensures
        ({
            let after = after_silences(session, turns);
            &&& session.asks <= after.asks <= session.asks + MAX_QUESTIONS
            &&& session.link == Link::Down ==> after.asks <= session.asks + 1
            &&& session.link == Link::Down && session.asked_at is Some ==> after == session
            &&& session.link == Link::Unknown && session.asks <= MAX_QUESTIONS ==> after.asks
                <= MAX_QUESTIONS
            &&& session.link == Link::Unknown && session.asks >= MAX_QUESTIONS ==> after == session
        }),
{
    lemma_silences_spend_questions(session, turns);
}

proof fn lemma_silences_spend_questions(session: Session, turns: Seq<Turn>)
    requires
        session.wf(),
        session.asked_at is None ==> session.asks == 0,
        session.asks + MAX_QUESTIONS <= u32::MAX,
    ensures
        ({
            let after = after_silences(session, turns);
            &&& after.wf()
            &&& after.asked_at is None ==> after.asks == 0
            &&& session.asks <= after.asks
            &&& after.asks + questions_left(after) <= session.asks + questions_left(session)
            &&& questions_left(session) == 0 && session.link != Link::Up ==> after == session
        }),
    decreases turns.len(),
{
    if turns.len() > 0 {
        lemma_silences_spend_questions(session, turns.drop_last());
        lemma_silence_spends_questions(after_silences(session, turns.drop_last()), turns.last());
    }
}

/// A linked headset is not asked again before the interval is over.
pub proof fn law_linked_headset_is_asked_once_per_interval(session: Session, asked: Instant, turn:
    Turn)
    requires
        session.link == Link::Up,
        session.asks < u32::MAX,
        time::elapsed(asked, turn.now).nanos < turn.interval.nanos,
    ensures
        !is_due(having_asked(session, asked), turn.now, turn.interval, turn.listen_first),
{
}

/// A linked headset that leaves three requests unanswered is not sent a fourth,
/// and its level is no longer reported.
pub proof fn law_mute_headset_is_given_up(session: Session, now: Instant, wired: bool)
    requires
        session.link == Link::Up,
        session.pending,
        session.unanswered + 1 >= MAX_UNANSWERED,
    ensures
        is_mute(session),
        about_to_ask(session, now).asks == session.asks,
        battery_of(about_to_ask(session, now), wired) == BatteryState::Unavailable,
{
}

/// The headset is reported disconnected exactly as long as the dongle's last
/// word on it is that it is gone, and a level is reported only while it is not.
pub proof fn law_battery_follows_the_link(session: Session, list: Seq<Message>, reading: u64, wired:
    bool)
    requires
        list.len() > 0,
    ensures
        battery_of(after_messages(session, list, reading), wired) == BatteryState::Disconnected
            <==> list.last() == Message::Link(false),
        list.last() matches Message::Battery(level) ==> battery_of(
            after_messages(session, list, reading),
            wired,
        ) == (if wired {
            BatteryState::Charging(Some(level))
        } else {
            BatteryState::Discharging(level)
        }),
{
}

/// A level above 100 is never known, whatever the reports say.
pub proof fn law_level_is_a_percentage(session: Session, report: Seq<u8>, reading: u64)
    requires
        session.level matches Some(level) ==> level <= frame::MAX_LEVEL,
    ensures
        after_messages(session, frame::messages_in(report), reading).level matches Some(level)
            ==> level <= frame::MAX_LEVEL,
{
    let list = frame::messages_in(report);
    let data = frame::fresh_part(report);
    assert forall|i: int| 0 <= i < list.len() implies (#[trigger] list[i] matches Message::Battery(
        level,
    ) ==> level <= frame::MAX_LEVEL) by {
        frame::law_messages_are_genuine(data, data.len() as int, i);
    }
    lemma_level_was_heard(session, list, reading);
}

proof fn lemma_level_was_heard(session: Session, list: Seq<Message>, reading: u64)
    requires
        session.level matches Some(level) ==> level <= frame::MAX_LEVEL,
        forall|i: int|
            0 <= i < list.len() ==> (#[trigger] list[i] matches Message::Battery(level) ==> level
                <= frame::MAX_LEVEL),
    ensures
        after_messages(session, list, reading).level matches Some(level) ==> level
            <= frame::MAX_LEVEL,
    decreases list.len(),
{
    if list.len() > 0 {
        assert forall|i: int| 0 <= i < list.drop_last().len() implies (
        #[trigger] list.drop_last()[i] matches Message::Battery(level) ==> level
            <= frame::MAX_LEVEL) by {
            assert(list.drop_last()[i] == list[i]);
        }
        lemma_level_was_heard(session, list.drop_last(), reading);
    }
}

/// What each message does to a session, and that it does nothing else: a link
/// that comes up or goes down is known from then on, a level is known together
/// with the report it came in, and either way nothing counts as unanswered.
pub proof fn law_message_changes_what_it_speaks_of(session: Session, message: Message, reading: u64)
    ensures
        ({
            let after = after_message(session, message, reading);
            &&& after.link == (if message == Message::Link(false) {
                Link::Down
            } else {
                Link::Up
            })
            &&& after.unanswered == 0
            &&& message matches Message::Battery(level) ==> after.level == Some(level)
                && after.sample == Some(reading) && !after.pending
            &&& message == Message::Link(false) ==> after.level is None && after.sample is None
                && !after.pending
            &&& message == Message::Link(true) ==> after.level == session.level && after.sample
                == session.sample && after.pending == session.pending
            &&& after.product_id == session.product_id && after.opened_at == session.opened_at
            &&& after.asked_at == session.asked_at && after.asks == session.asks
        }),
{
}

/// Messages are taken in one after the other: hearing one lot and then another
/// is hearing both in a row.
pub proof fn law_messages_are_taken_in_turn(
    session: Session,
    first: Seq<Message>,
    then: Seq<Message>,
    reading: u64,
)
    ensures
        after_messages(session, first + then, reading) == after_messages(
            after_messages(session, first, reading),
            then,
            reading,
        ),
        first.len() == 1 ==> after_messages(session, first, reading) == after_message(
            session,
            first[0],
            reading,
        ),
        first.len() == 0 ==> after_messages(session, first, reading) == session,
    decreases then.len(),
{
    if first.len() == 1 {
        assert(first.drop_last() =~= Seq::<Message>::empty());
        assert(after_messages(session, first.drop_last(), reading) == session);
    }
    if then.len() == 0 {
        assert(first + then =~= first);
    } else {
        law_messages_are_taken_in_turn(session, first, then.drop_last(), reading);
        assert((first + then).drop_last() =~= first + then.drop_last());
        assert((first + then).last() == then.last());
    }
}

/// Once an answer is heard no request is open and none counts as lost, whatever
/// else is heard with it: the headset is not taken to be mute.
pub proof fn law_answer_closes_the_request(
    session: Session,
    list: Seq<Message>,
    reading: u64,
    answer: int,
)
    requires
        0 <= answer < list.len(),
        list[answer] is Battery,
    ensures
        ({
            let after = after_messages(session, list, reading);
            &&& !after.pending && after.unanswered == 0
            &&& lost(after) == 0
            &&& !is_mute(after)
        }),
    decreases list.len(),
{
    if answer < list.len() - 1 {
        assert(list.drop_last()[answer] == list[answer]);
        law_answer_closes_the_request(session, list.drop_last(), reading, answer);
    }
}

/// The level known after hearing something is that of the last answer, and
/// which report it came in is known with it, unless the link was said to be down
/// since.
pub proof fn law_last_level_heard_is_known(
    session: Session,
    list: Seq<Message>,
    reading: u64,
    answer: int,
    level: u8,
)
    requires
        0 <= answer < list.len(),
        list[answer] == Message::Battery(level),
        forall|i: int| answer < i < list.len() ==> list[i] == Message::Link(true),
    ensures
        ({
            let after = after_messages(session, list, reading);
            &&& after.level == Some(level)
            &&& after.sample == Some(reading)
            &&& after.link == Link::Up
        }),
    decreases list.len(),
{
    if answer < list.len() - 1 {
        assert(list.drop_last()[answer] == list[answer]);
        assert(list[list.len() - 1] == Message::Link(true));
        assert forall|i: int| answer < i < list.drop_last().len() implies list.drop_last()[i]
            == Message::Link(true) by {
            assert(list[i] == Message::Link(true));
        }
        law_last_level_heard_is_known(session, list.drop_last(), reading, answer, level);
    }
}

/// A turn to ask, and what is heard after it.
pub struct Exchange {
    /// The turn.
    pub turn: Turn,
    /// What is heard.
    pub heard: Seq<Message>,
    /// The number of the report it is heard in.
    pub reading: u64,
}

/// A session after several exchanges, the first one first.
pub open spec fn after_exchanges(session: Session, exchanges: Seq<Exchange>) -> Session
    decreases exchanges.len(),
{
    if exchanges.len() == 0 {
        session
    } else {
        let last = exchanges.last();
        after_messages(
            after_silence(after_exchanges(session, exchanges.drop_last()), last.turn),
            last.heard,
            last.reading,
        )
    }
}

/// Whether an answer is among those messages.
pub open spec fn holds_an_answer(list: Seq<Message>) -> bool {
    exists|i: int| 0 <= i < list.len() && #[trigger] list[i] is Battery
}

/// A headset that answers each time it is asked is never taken to be mute,
/// however often it is asked and however short the interval is.
pub proof fn law_answering_headset_is_never_given_up(session: Session, exchanges: Seq<Exchange>)
    requires
        lost(session) == 0,
        forall|i: int| 0 <= i < exchanges.len() ==> holds_an_answer(#[trigger] exchanges[i].heard),
    ensures
        lost(after_exchanges(session, exchanges)) == 0,
        !is_mute(after_exchanges(session, exchanges)),
    decreases exchanges.len(),
{
    if exchanges.len() > 0 {
        let known = exchanges.drop_last();
        assert forall|i: int| 0 <= i < known.len() implies holds_an_answer(
            #[trigger] known[i].heard,
        ) by {
            assert(known[i] == exchanges[i]);
        }
        law_answering_headset_is_never_given_up(session, known);
        let last = exchanges[exchanges.len() - 1];
        assert(holds_an_answer(last.heard));
        let answer = choose|i: int| 0 <= i < last.heard.len() && #[trigger] last.heard[i] is Battery;
        law_answer_closes_the_request(
            after_silence(after_exchanges(session, known), last.turn),
            last.heard,
            last.reading,
            answer,
        );
    }
}

/// A request that is sent is open until it is answered, and counts as lost with
/// those before it if another one follows; sending it changes nothing that is
/// known of the headset.
pub proof fn law_request_counts_until_answered(session: Session, now: Instant)
    requires
        !is_mute(session),
        lost(session) < u32::MAX,
        session.asks < u32::MAX,
    ensures
        about_to_ask(session, now) == (Session { unanswered: lost(session) as u32, ..session }),
        ({
            let after = having_asked(about_to_ask(session, now), now);
            &&& lost(after) == lost(session) + 1
            &&& after.pending && after.asked_at == Some(now) && after.asks == session.asks + 1
            &&& after.link == session.link && after.level == session.level
            &&& after.sample == session.sample && after.opened_at == session.opened_at
            &&& after.product_id == session.product_id
        }),
{
}

/// A linked headset is mute after three lost requests and not before; another
/// never is.
pub proof fn law_three_lost_requests_make_it_mute(session: Session, now: Instant)
    ensures
        session.link == Link::Up ==> (is_mute(session) <==> session.unanswered + (if session.pending {
            1int
        } else {
            0
        }) >= 3),
        session.link != Link::Up ==> !is_mute(session),
        is_mute(session) ==> ({
            let after = about_to_ask(session, now);
            &&& after.link == Link::Unknown && after.level is None && after.sample is None
            &&& lost(after) == 0 && after.asked_at == Some(now) && after.asks == session.asks
            &&& after.opened_at == session.opened_at && after.product_id == session.product_id
        }),
{
}

/// When a request is due. A linked headset is asked at once, and again once the
/// interval has passed. Where nothing is known, the first request waits until
/// the dongle was listened to, the second ten seconds, the third thirty, and
/// there is no fourth. A headset known to be gone is asked once, after listening.
/// A span of no time has always passed, and no other has before its beginning.
pub proof fn law_requests_wait_their_time(
    session: Session,
    now: Instant,
    interval: Duration,
    listen_first: Duration,
)
    ensures
        ({
            let due = is_due(session, now, interval, listen_first);
            let listened = listen_first.nanos == 0 || session.opened_at.nanos + listen_first.nanos
                <= now.nanos;
            match (session.link, session.asked_at) {
                (Link::Up, None) => due,
                (Link::Up, Some(at)) => due == (interval.nanos == 0 || at.nanos + interval.nanos
                    <= now.nanos),
                (Link::Unknown, None) => due == listened,
                (Link::Unknown, Some(at)) => due == (session.asks == 1 && at.nanos + 10_000_000_000
                    <= now.nanos || session.asks == 2 && at.nanos + 30_000_000_000 <= now.nanos),
                (Link::Down, None) => due == listened,
                (Link::Down, Some(_)) => !due,
            }
        }),
{
    assert(ASK_AGAIN_AFTER_SECS@[0] == 10 && ASK_AGAIN_AFTER_SECS@[1] == 30);
}

/// What is reported of a battery: a headset that is gone is disconnected, and
/// any other has the level last heard, charging exactly if it is on a cable, or
/// none if none was.
pub proof fn law_level_known_is_the_level_reported(session: Session, wired: bool)
    ensures
        session.link == Link::Down ==> battery_of(session, wired) == BatteryState::Disconnected,
        session.link != Link::Down ==> (session.level matches Some(level) ==> battery_of(
            session,
            true,
        ) == BatteryState::Charging(Some(level)) && battery_of(session, false)
            == BatteryState::Discharging(level)),
        session.link != Link::Down && session.level is None ==> battery_of(session, wired)
            == BatteryState::Unavailable,
{
}

} // verus!
