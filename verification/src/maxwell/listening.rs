//! One poll of the dongles: each of them has its turn, in the order in which
//! they were discovered, and each of them is reported once.
//!
//! Whoever runs the reader does what [`Reader::listen_to`] asks for and hands
//! back what came of it, until every dongle has a headset in the list.

use vstd::prelude::*;
use crate::headset::Headset;
use crate::maxwell::dongle::{self, Dongle, DongleView, HidrawEntry};
use crate::maxwell::reader::{self, DongleAction, DongleEvent, Poll, Reader};
use crate::maxwell::VENDOR_ID;

verus! {

/// What the reader is waiting to hear about.
#[derive(Debug, Clone, Copy, PartialEq, Eq, Structural)]
pub enum Waiting {
    /// Nothing: it is the next dongle's turn.
    Turn,
    /// The node being opened.
    Opening,
    /// The report being fetched.
    Fetching,
    /// The request being sent.
    Sending,
}

/// How far a poll has come.
#[derive(Debug)]
pub struct Listening {
    /// The dongles, in the order of their turns.
    pub dongles: Vec<Dongle>,
    /// What the poll goes by.
    pub poll: Poll,
    /// What the reader is waiting to hear about.
    pub waiting: Waiting,
    /// The headsets behind the dongles that have had their turn.
    pub headsets: Vec<Headset>,
}

/// What the reader wants next of the dongle whose turn it is.
#[derive(Debug, PartialEq, Eq)]
pub enum ListenAction {
    /// Open its node.
    Open,
    /// Fetch its input report.
    Fetch,
    /// Send it this.
    Send(Vec<u8>),
    /// Nothing more: the headset behind it is in the list.
    Next {
        /// Whether the reader has just stopped asking that headset.
        gave_up: bool,
    },
}

/// Whether that event can answer what the reader is waiting for.
pub open spec fn answers<F>(waiting: Waiting, event: DongleEvent<F>) -> bool {
    match event {
        DongleEvent::Turn => waiting == Waiting::Turn,
        DongleEvent::Opened { .. } => waiting == Waiting::Opening,
        DongleEvent::Report(_) => waiting == Waiting::Fetching,
        DongleEvent::Sent => waiting == Waiting::Sending,
        DongleEvent::Failed => waiting != Waiting::Turn,
    }
}

/// Whether that headset is the one behind that dongle.
pub open spec fn is_behind(headset: Headset, dongle: DongleView) -> bool {
    &&& headset.name@ == "Audeze Maxwell"@
    &&& headset.product@ == dongle.product
    &&& headset.vendor_id == VENDOR_ID
    &&& headset.product_id == dongle.product_id
    &&& headset.supports_battery
}

impl Listening {
    /// Whether every dongle has had its turn.
    pub open spec fn is_over(self) -> bool {
        self.headsets@.len() == self.dongles@.len()
    }

    /// The dongle whose turn it is.
    pub open spec fn current(self) -> Dongle {
        self.dongles@[self.headsets@.len() as int]
    }

    /// A poll that has come that far makes sense beside that reader.
    pub open spec fn wf<F>(self, reader: Reader<F>) -> bool {
        &&& self.headsets@.len() <= self.dongles@.len()
        &&& self.waiting != Waiting::Turn ==> !self.is_over()
        &&& self.waiting == Waiting::Opening ==> reader.session_on(self.current().node@) is None
        &&& self.waiting == Waiting::Fetching || self.waiting == Waiting::Sending
            ==> reader.session_on(self.current().node@) is Some
        &&& forall|i: int|
            0 <= i < self.headsets@.len() ==> is_behind(
                #[trigger] self.headsets@[i],
                self.dongles@[i]@,
            )
    }
}

/// Whether the reader can take in that event: it answers what was asked for, and
/// no count of requests is at its end.
pub open spec fn is_ready<F>(
    reader: Reader<F>,
    listening: Listening,
    event: DongleEvent<F>,
) -> bool {
    let session = reader.session_on(listening.current().node@);
    &&& !listening.is_over()
    &&& answers(listening.waiting, event)
    &&& event is Report ==> session->0.unanswered < u32::MAX
    &&& event is Sent ==> session->0.asks < u32::MAX
}

/// Whether that is where an event takes the reader and its poll: the dongle whose
/// turn it is goes one step further, and once there is a headset to report it
/// joins the list.
pub open spec fn followed<F>(
    before: Reader<F>,
    listening: Listening,
    event: DongleEvent<F>,
    after: Reader<F>,
    next: Listening,
    action: ListenAction,
) -> bool {
    &&& next.dongles == listening.dongles
    &&& next.poll == listening.poll
    &&& exists|said: DongleAction| #[trigger]
        reader::advanced(before, listening.current(), event, listening.poll, after, said)
            && match said {
            DongleAction::Open => next.waiting == Waiting::Opening && next.headsets@
                == listening.headsets@ && action == ListenAction::Open,
            DongleAction::Fetch => next.waiting == Waiting::Fetching && next.headsets@
                == listening.headsets@ && action == ListenAction::Fetch,
            DongleAction::Send(request) => next.waiting == Waiting::Sending && next.headsets@
                == listening.headsets@ && action == ListenAction::Send(request),
            DongleAction::Done { headset, gave_up } => next.waiting == Waiting::Turn
                && next.headsets@ == listening.headsets@.push(headset) && action
                == (ListenAction::Next { gave_up }),
        }
}

impl<F> Reader<F> {
    /// Starts a poll of the dongles among those hidraw nodes. Dongles that are
    /// no longer there are closed first: a node that is gone takes its session
    /// with it.
    pub fn start_poll(&mut self, entries: &Vec<HidrawEntry>, poll: Poll) -> (listening: Listening)
        requires
            old(self).wf(),
        ensures
            final(self).wf(),
            listening.wf(*final(self)),
            dongle::views(listening.dongles@) == dongle::discovered(entries@),
            listening.poll == poll,
            listening.waiting == Waiting::Turn,
            listening.headsets@.len() == 0,
            final(self).sessions@ == reader::still_there(
                old(self).sessions@,
                dongle::discovered(entries@),
            ),
            final(self).last_link@ == reader::remembered(
                old(self).last_link@,
                old(self).sessions@,
                dongle::discovered(entries@),
            ),
            final(self).readings == old(self).readings,
    {
        let dongles = dongle::discover(entries);
        self.forget_missing(&dongles);
        Listening { dongles, poll, waiting: Waiting::Turn, headsets: Vec::new() }
    }

    /// Whether the reader can take in that event.
    pub fn expects(&self, listening: &Listening, event: &DongleEvent<F>) -> (yes: bool)
        requires
            listening.wf(*self),
        ensures
            yes == is_ready(*self, *listening, *event),
    {
        if listening.headsets.len() == listening.dongles.len() {
            return false;
        }
        let node = listening.dongles[listening.headsets.len()].node.as_str();
        match event {
            DongleEvent::Turn => matches!(listening.waiting, Waiting::Turn),
            DongleEvent::Opened { .. } => matches!(listening.waiting, Waiting::Opening),
            DongleEvent::Report(_) => matches!(listening.waiting, Waiting::Fetching)
                && match self.session(node) {
                Some(session) => session.unanswered < u32::MAX,
                None => false,
            },
            DongleEvent::Sent => matches!(listening.waiting, Waiting::Sending)
                && match self.session(node) {
                Some(session) => session.asks < u32::MAX,
                None => false,
            },
            DongleEvent::Failed => !matches!(listening.waiting, Waiting::Turn),
        }
    }

    /// Takes a poll one step further: from what came of the last action to the
    /// next one, until every dongle has had its turn.
    pub fn listen_to(&mut self, listening: &mut Listening, event: DongleEvent<F>) -> (action:
        ListenAction)
        requires
            old(self).wf(),
            old(listening).wf(*old(self)),
            is_ready(*old(self), *old(listening), event),
        ensures
            final(self).wf(),
            final(listening).wf(*final(self)),
            followed(*old(self), *old(listening), event, *final(self), *final(listening), action),
            forall|node: Seq<char>|
                node != old(listening).current().node@ ==> #[trigger] final(self).session_on(node)
                    == old(self).session_on(node),
    {
        let at: usize = listening.headsets.len();
        let said = self.advance(&listening.dongles[at], event, &listening.poll);
        let ghost wanted = said;
        let action = match said {
            DongleAction::Open => {
                listening.waiting = Waiting::Opening;
                ListenAction::Open
            },
            DongleAction::Fetch => {
                listening.waiting = Waiting::Fetching;
                ListenAction::Fetch
            },
            DongleAction::Send(request) => {
                listening.waiting = Waiting::Sending;
                ListenAction::Send(request)
            },
            DongleAction::Done { headset, gave_up } => {
                listening.waiting = Waiting::Turn;
                listening.headsets.push(headset);
                ListenAction::Next { gave_up }
            },
        };
        assert(reader::advanced(
            *old(self),
            old(listening).current(),
            event,
            old(listening).poll,
            *self,
            wanted,
        ));
        action
    }
}

/// How many steps a poll has left at the most: four for every dongle, less those
/// that the one whose turn it is has taken.
pub open spec fn steps_left(listening: Listening) -> int {
    let taken: int = match listening.waiting {
        Waiting::Turn => 0,
        Waiting::Opening => 1,
        Waiting::Fetching => 2,
        Waiting::Sending => 3,
    };
    4 * (listening.dongles@.len() - listening.headsets@.len()) - taken
}

/// A poll, step by step: each event takes the reader and the poll from where they
/// stand to where they stand next, with that action.
pub open spec fn is_run<F>(
    readers: Seq<Reader<F>>,
    polls: Seq<Listening>,
    events: Seq<DongleEvent<F>>,
    actions: Seq<ListenAction>,
) -> bool {
    &&& readers.len() == events.len() + 1
    &&& polls.len() == events.len() + 1
    &&& actions.len() == events.len()
    &&& forall|i: int|
        #![trigger polls[i]]
        0 <= i < polls.len() ==> polls[i].wf(readers[i])
    &&& forall|i: int|
        #![trigger events[i]]
        0 <= i < events.len() ==> is_ready(readers[i], polls[i], events[i]) && followed(
            readers[i],
            polls[i],
            events[i],
            readers[i + 1],
            polls[i + 1],
            actions[i],
        )
}

proof fn lemma_steps_count<F>(
    readers: Seq<Reader<F>>,
    polls: Seq<Listening>,
    events: Seq<DongleEvent<F>>,
    actions: Seq<ListenAction>,
    upto: int,
)
    requires
        is_run(readers, polls, events, actions),
        0 <= upto <= events.len(),
    ensures
        steps_left(polls[upto]) + upto <= steps_left(polls[0]),
        polls[upto].dongles == polls[0].dongles,
    decreases upto,
{
    if upto > 0 {
        lemma_steps_count(readers, polls, events, actions, upto - 1);
        assert(polls[upto - 1].wf(readers[upto - 1]) && polls[upto].wf(readers[upto]));
        law_exchange_goes_forward(
            readers[upto - 1],
            polls[upto - 1],
            events[upto - 1],
            readers[upto],
            polls[upto],
            actions[upto - 1],
        );
    }
}

/// A poll takes four steps for every dongle at the most, whatever comes of them,
/// and is over after that many. Once it is over, every dongle has been reported
/// once, in the order of discovery, with the headset behind it.
pub proof fn law_poll_reports_every_dongle_once<F>(
    readers: Seq<Reader<F>>,
    polls: Seq<Listening>,
    events: Seq<DongleEvent<F>>,
    actions: Seq<ListenAction>,
)
    requires
        is_run(readers, polls, events, actions),
        polls[0].waiting == Waiting::Turn,
        polls[0].headsets@.len() == 0,
    ensures
        events.len() <= 4 * polls[0].dongles@.len(),
        events.len() == 4 * polls[0].dongles@.len() ==> polls.last().is_over(),
        polls.last().is_over() ==> {
            &&& polls.last().headsets@.len() == polls[0].dongles@.len()
            &&& forall|i: int|
                0 <= i < polls[0].dongles@.len() ==> is_behind(
                    #[trigger] polls.last().headsets@[i],
                    polls[0].dongles@[i]@,
                )
        },
{
    let count = events.len() as int;
    lemma_steps_count(readers, polls, events, actions, count);
    assert(polls[count].wf(readers[count]));
}

/// The exchange with one dongle takes four steps at the most: from its turn it
/// goes forward only, to the opening of its node, the fetching of its report, the
/// sending of a request, and the report of its headset.
pub proof fn law_exchange_goes_forward<F>(
    before: Reader<F>,
    listening: Listening,
    event: DongleEvent<F>,
    after: Reader<F>,
    next: Listening,
    action: ListenAction,
)
    requires
        listening.wf(before),
        next.wf(after),
        is_ready(before, listening, event),
        followed(before, listening, event, after, next, action),
    ensures
        steps_left(next) < steps_left(listening),
        next.dongles == listening.dongles,
        event is Sent || event is Failed ==> action is Next,
        event is Report ==> action is Send || action is Next,
        event is Opened ==> action is Fetch,
        event is Turn ==> action is Open || action is Fetch,
        action is Next <==> next.headsets@.len() == listening.headsets@.len() + 1,
{
}

/// What is waited for is answered by its own outcome, or by its failure; a turn
/// cannot fail before anything was asked for.
pub proof fn law_only_its_own_outcome_is_an_answer<F>(waiting: Waiting, event: DongleEvent<F>)
    ensures
        answers(waiting, event) <==> match waiting {
            Waiting::Turn => event is Turn,
            Waiting::Opening => event is Opened || event is Failed,
            Waiting::Fetching => event is Report || event is Failed,
            Waiting::Sending => event is Sent || event is Failed,
        },
{
}

/// An outcome that is waited for can always be taken in, short of a count at its
/// very end.
pub proof fn law_awaited_outcome_is_taken_in<F>(
    reader: Reader<F>,
    listening: Listening,
    event: DongleEvent<F>,
)
    requires
        listening.headsets@.len() < listening.dongles@.len(),
        answers(listening.waiting, event),
        reader.session_on(listening.dongles@[listening.headsets@.len() as int].node@) matches Some(
            session,
        ) ==> session.unanswered < u32::MAX && session.asks < u32::MAX,
        event is Report || event is Sent ==> reader.session_on(
            listening.dongles@[listening.headsets@.len() as int].node@,
        ) is Some,
    ensures
        is_ready(reader, listening, event),
{
}

/// What is asked for next is what is waited for next, and the list of headsets
/// grows exactly when a dongle's turn is over: by the headset behind that dongle,
/// with no level if it failed, and else with what its session knows.
pub proof fn law_finished_turn_joins_the_list<F>(
    before: Reader<F>,
    listening: Listening,
    event: DongleEvent<F>,
    after: Reader<F>,
    next: Listening,
    action: ListenAction,
)
    requires
        listening.wf(before),
        is_ready(before, listening, event),
        followed(before, listening, event, after, next, action),
    ensures
        action is Open <==> next.waiting == Waiting::Opening,
        action is Fetch <==> next.waiting == Waiting::Fetching,
        action is Send <==> next.waiting == Waiting::Sending,
        action is Next <==> next.waiting == Waiting::Turn,
        !(action is Next) ==> next.headsets@ == listening.headsets@,
        action matches ListenAction::Send(request) ==> request@ == crate::maxwell::frame::request_bytes(),
        action is Next ==> {
            let last = next.headsets@.last();
            let dongle = listening.current()@;
            &&& next.headsets@.drop_last() == listening.headsets@
            &&& last.name@ == "Audeze Maxwell"@ && last.product@ == dongle.product
            &&& last.vendor_id == 0x3329 && last.product_id == dongle.product_id
            &&& last.supports_battery
            &&& event is Failed ==> last.battery == crate::headset::BatteryState::Unavailable && last.sample is None
            &&& !(event is Failed) ==> (after.session_on(listening.current().node@) matches Some(
                session,
            ) && last.battery == crate::maxwell::session::battery_of(session, listening.poll.wired) && last.sample
                == session.sample)
        },
{
    if action is Next {
        assert(next.headsets@.drop_last() =~= listening.headsets@);
    }
}

/// The reader is said to have stopped asking a headset exactly when a report
/// leaves that headset mute as another request comes due.
pub proof fn law_mute_headset_is_told<F>(
    before: Reader<F>,
    listening: Listening,
    event: DongleEvent<F>,
    after: Reader<F>,
    next: Listening,
    gave_up: bool,
)
    requires
        listening.wf(before),
        is_ready(before, listening, event),
        followed(before, listening, event, after, next, ListenAction::Next { gave_up }),
    ensures
        event is Sent || event is Failed ==> !gave_up,
        event matches DongleEvent::Report(bytes) ==> {
            let heard = crate::maxwell::session::after_messages(
                before.session_on(listening.current().node@)->0,
                crate::maxwell::frame::messages_in(bytes@),
                after.readings,
            );
            gave_up <==> crate::maxwell::session::is_mute(heard)
                && crate::maxwell::session::is_due(
                heard,
                listening.poll.now,
                listening.poll.interval,
                listening.poll.listen_first,
            )
        },
{
}

} // verus!
