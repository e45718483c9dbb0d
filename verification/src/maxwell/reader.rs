//! A reader that keeps its dongles open between polls.
//!
//! The reader never touches a device itself. Whoever runs it lists the dongles,
//! and for each of them does what [`Reader::advance`] asks for - open the node,
//! fetch its report, send it a request - and hands back what came of it, until
//! the reader has a headset to report.
//!
//! The dongle re-enumerates on USB a second or two after every link change, so
//! its hidraw node vanishes and comes back; the reader remembers what it had
//! said of the link.

use std::collections::BTreeMap;
use vstd::prelude::*;
use crate::headset::{BatteryState, Headset};
use crate::maxwell::dongle::{self, Dongle, DongleView};
use crate::maxwell::frame;
use crate::maxwell::session::{self, Ask, Link, Session};
use crate::maxwell::VENDOR_ID;
use crate::text;
use crate::time::{self, Duration, Instant};

verus! {

/// How many times a one-shot reading looks for its answer.
pub const ANSWER_POLLS: u32 = 10;

/// How long a one-shot reading waits before looking again, in milliseconds.
pub const ANSWER_DELAY_MILLIS: u64 = 60;

/// An open dongle.
#[derive(Debug)]
pub struct OpenDongle<F> {
    /// Path of its hidraw node.
    pub node: String,
    /// The open node.
    pub file: F,
    /// What is known about the headset behind it.
    pub session: Session,
}

/// A native reader that keeps its dongles open between polls.
#[derive(Debug)]
pub struct Reader<F> {
    /// The open dongles, sorted by node.
    pub sessions: Vec<OpenDongle<F>>,
    /// What the last session on each dongle (by product ID) knew of the link,
    /// handed to the session that replaces it.
    pub last_link: BTreeMap<u16, Link>,
    /// How many reports were taken in.
    pub readings: u64,
}

/// What one poll of the dongles goes by.
#[derive(Debug, Clone, Copy, PartialEq, Eq, Structural)]
pub struct Poll {
    /// When it takes place.
    pub now: Instant,
    /// How often to ask a linked headset for its level.
    pub interval: Duration,
    /// How long to listen before asking anything.
    pub listen_first: Duration,
    /// Whether the headset is on a cable.
    pub wired: bool,
}

/// What came of the reader's last wish.
#[derive(Debug)]
pub enum DongleEvent<F> {
    /// Nothing was asked for yet: it is this dongle's turn.
    Turn,
    /// The node was opened.
    Opened {
        /// The open node.
        file: F,
        /// When it was.
        at: Instant,
    },
    /// The report was fetched.
    Report(Vec<u8>),
    /// The request was sent.
    Sent,
    /// It did not work.
    Failed,
}

/// What the reader wants next of a dongle.
#[derive(Debug, PartialEq, Eq)]
pub enum DongleAction {
    /// Open its node.
    Open,
    /// Fetch its input report.
    Fetch,
    /// Send it this.
    Send(Vec<u8>),
    /// Nothing more.
    Done {
        /// The headset behind it.
        headset: Headset,
        /// Whether the reader has just stopped asking it, since it is reported
        /// linked but does not answer.
        gave_up: bool,
    },
}

/// Where the open dongle with that node stands in the list.
pub open spec fn position<F>(sessions: Seq<OpenDongle<F>>, node: Seq<char>) -> Option<int>
    decreases sessions.len(),
{
    if sessions.len() == 0 {
        None
    } else if sessions.last().node@ == node {
        Some(sessions.len() - 1)
    } else {
        position(sessions.drop_last(), node)
    }
}

/// Where an open dongle with that node belongs: after those whose nodes precede
/// its own.
pub open spec fn slot<F>(sessions: Seq<OpenDongle<F>>, node: Seq<char>) -> int
    decreases sessions.len(),
{
    if sessions.len() > 0 && text::before(node, sessions.last().node@) {
        slot(sessions.drop_last(), node)
    } else {
        sessions.len() as int
    }
}

/// Whether a dongle with that node is listed.
pub open spec fn is_listed(dongles: Seq<DongleView>, node: Seq<char>) -> bool {
    exists|i: int| 0 <= i < dongles.len() && (#[trigger] dongles[i]).node == node
}

/// The open dongles that are still listed.
pub open spec fn still_there<F>(
    sessions: Seq<OpenDongle<F>>,
    dongles: Seq<DongleView>,
) -> Seq<OpenDongle<F>>
    decreases sessions.len(),
{
    if sessions.len() == 0 {
        sessions
    } else {
        let others = still_there(sessions.drop_last(), dongles);
        if is_listed(dongles, sessions.last().node@) {
            others.push(sessions.last())
        } else {
            others
        }
    }
}

/// What is remembered of the links once the open dongles that are no longer
/// listed are gone, the last in the list having the last word.
pub open spec fn remembered<F>(
    links: Map<u16, Link>,
    sessions: Seq<OpenDongle<F>>,
    dongles: Seq<DongleView>,
) -> Map<u16, Link>
    decreases sessions.len(),
{
    if sessions.len() == 0 {
        links
    } else {
        let others = remembered(links, sessions.drop_last(), dongles);
        let last = sessions.last();
        if is_listed(dongles, last.node@) {
            others
        } else {
            others.insert(last.session.product_id, last.session.link)
        }
    }
}

/// What is remembered of the link of the dongle with that product ID.
pub open spec fn inherited(links: Map<u16, Link>, product_id: u16) -> Link {
    if links.contains_key(product_id) {
        links[product_id]
    } else {
        Link::Unknown
    }
}

/// The number after `reading`, starting over at the very end.
pub open spec fn next_reading(reading: u64) -> u64 {
    if reading == u64::MAX {
        0
    } else {
        (reading + 1) as u64
    }
}

/// Whether `headset` is the one behind `dongle`, with that battery.
pub open spec fn reports(
    headset: Headset,
    dongle: DongleView,
    battery: BatteryState,
    sample: Option<u64>,
) -> bool {
    &&& headset.name@ == "Audeze Maxwell"@
    &&& headset.product@ == dongle.product
    &&& headset.vendor_id == VENDOR_ID
    &&& headset.product_id == dongle.product_id
    &&& headset.supports_battery
    &&& headset.battery == battery
    &&& headset.sample == sample
}

/// Whether `action` is to report what `session` knows, and whether the reader
/// has `stopped` asking.
pub open spec fn is_done(
    action: DongleAction,
    dongle: DongleView,
    session: Session,
    wired: bool,
    stopped: bool,
) -> bool {
    action matches DongleAction::Done { headset, gave_up } && gave_up == stopped && reports(
        headset,
        dongle,
        session::battery_of(session, wired),
        session.sample,
    )
}

fn headset_behind(dongle: &Dongle, battery: BatteryState, sample: Option<u64>) -> (headset: Headset)
    ensures
        reports(headset, dongle@, battery, sample),
{
    Headset {
        name: "Audeze Maxwell".to_owned(),
        product: dongle.product.clone(),
        vendor_id: VENDOR_ID,
        product_id: dongle.product_id,
        supports_battery: true,
        battery,
        sample,
    }
}

impl<F> Reader<F> {
    /// The open dongles are sorted by node, no two of them share one, and their
    /// sessions make sense.
    pub open spec fn wf(self) -> bool {
        &&& forall|i: int, j: int|
            0 <= i < j < self.sessions@.len() ==> text::before(
                #[trigger] self.sessions@[i].node@,
                #[trigger] self.sessions@[j].node@,
            )
        &&& forall|i: int|
            0 <= i < self.sessions@.len() ==> (#[trigger] self.sessions@[i]).session.wf()
    }

    /// The session on the dongle with that node.
    pub open spec fn session_on(self, node: Seq<char>) -> Option<Session> {
        match position(self.sessions@, node) {
            Some(i) => Some(self.sessions@[i].session),
            None => None,
        }
    }

    /// A reader with no dongle open yet.
    #[must_use]
    pub fn new() -> (reader: Reader<F>)
        ensures
            reader.wf(),
            reader.sessions@ == Seq::<OpenDongle<F>>::empty(),
            reader.last_link@ == Map::<u16, Link>::empty(),
            reader.readings == 0,
    {
        Reader { sessions: Vec::new(), last_link: BTreeMap::new(), readings: 0 }
    }

    fn find(&self, node: &str) -> (found: Option<usize>)
        ensures
            match found {
                Some(i) => position(self.sessions@, node@) == Some(i as int) && i
                    < self.sessions@.len() && self.sessions@[i as int].node@ == node@,
                None => position(self.sessions@, node@) is None,
            },
    {
        let mut at: usize = self.sessions.len();
        assert(self.sessions@.take(at as int) =~= self.sessions@);
        while at > 0
            invariant
                at <= self.sessions@.len(),
                position(self.sessions@, node@) == position(self.sessions@.take(at as int), node@),
            decreases at,
        {
            assert(self.sessions@.take(at as int).drop_last() =~= self.sessions@.take(at - 1));
            if text::same(self.sessions[at - 1].node.as_str(), node) {
                return Some(at - 1);
            }
            at = at - 1;
        }
        None
    }

    /// What is known about the headset behind the dongle with that node, if it
    /// is open.
    pub fn session(&self, node: &str) -> (session: Option<Session>)
        ensures
            session == self.session_on(node@),
    {
        match self.find(node) {
            Some(i) => Some(self.sessions[i].session),
            None => None,
        }
    }

    /// The open node of that name.
    pub fn file(&self, node: &str) -> (file: Option<&F>)
        ensures
            match file {
                Some(f) => position(self.sessions@, node@) matches Some(i) && *f
                    == self.sessions@[i].file,
                None => position(self.sessions@, node@) is None,
            },
    {
        match self.find(node) {
            Some(i) => Some(&self.sessions[i].file),
            None => None,
        }
    }

    /// Closes the dongles that are no longer listed, and remembers what they
    /// said of the link.
    pub fn forget_missing(&mut self, dongles: &Vec<Dongle>)
        requires
            old(self).wf(),
        ensures
            final(self).wf(),
            final(self).sessions@ == still_there(old(self).sessions@, dongle::views(dongles@)),
            final(self).last_link@ == remembered(
                old(self).last_link@,
                old(self).sessions@,
                dongle::views(dongles@),
            ),
            final(self).readings == old(self).readings,
    {
        let ghost all = self.sessions@;
        let ghost listed = dongle::views(dongles@);
        let ghost mut seen: int = 0;
        let mut at: usize = 0;
        assert(all.take(0) =~= Seq::<OpenDongle<F>>::empty());
        assert(self.sessions@ =~= still_there(all.take(0), listed) + all.skip(0));
        while at < self.sessions.len()
            invariant
                listed == dongle::views(dongles@),
                all == old(self).sessions@,
                old(self).wf(),
                self.wf(),
                0 <= seen <= all.len(),
                at == still_there(all.take(seen), listed).len(),
                self.sessions@ == still_there(all.take(seen), listed) + all.skip(seen),
                self.last_link@ == remembered(old(self).last_link@, all.take(seen), listed),
                self.readings == old(self).readings,
            decreases self.sessions@.len() - at,
        {
            let ghost kept = still_there(all.take(seen), listed);
            let ghost next = all[seen];
            assert(all.take(seen + 1).drop_last() =~= all.take(seen));
            assert(self.sessions@[at as int] == next);
            let ghost before = self.sessions@;
            let listed_still = Self::lists(dongles, self.sessions[at].node.as_str());
            if listed_still {
                at = at + 1;
                assert(kept.push(next) + all.skip(seen + 1) =~= before);
            } else {
                let gone = self.sessions.remove(at);
                self.last_link.insert(gone.session.product_id, gone.session.link);
                assert(self.sessions@ =~= kept + all.skip(seen + 1));
                assert(self.wf()) by {
                    assert forall|i: int, j: int|
                        0 <= i < j < self.sessions@.len() implies text::before(
                        #[trigger] self.sessions@[i].node@,
                        #[trigger] self.sessions@[j].node@,
                    ) by {
                        let p = if i < at {
                            i
                        } else {
                            i + 1
                        };
                        let q = if j < at {
                            j
                        } else {
                            j + 1
                        };
                        assert(self.sessions@[i] == before[p] && self.sessions@[j] == before[q]);
                    }
                    assert forall|i: int| 0 <= i < self.sessions@.len() implies (
                    #[trigger] self.sessions@[i]).session.wf() by {
                        let p = if i < at {
                            i
                        } else {
                            i + 1
                        };
                        assert(self.sessions@[i] == before[p]);
                    }
                }
            }
            proof {
                seen = seen + 1;
            }
        }
        assert(all.take(seen) =~= all);
        assert(self.sessions@ =~= still_there(all, listed));
    }

    fn lists(dongles: &Vec<Dongle>, node: &str) -> (yes: bool)
        ensures
            yes == is_listed(dongle::views(dongles@), node@),
    {
        let ghost listed = dongle::views(dongles@);
        let mut at: usize = 0;
        while at < dongles.len()
            invariant
                listed == dongle::views(dongles@),
                at <= dongles.len(),
                forall|i: int| 0 <= i < at ==> (#[trigger] listed[i]).node != node@,
            decreases dongles.len() - at,
        {
            assert(listed[at as int] == dongles@[at as int]@);
            if text::same(dongles[at].node.as_str(), node) {
                return true;
            }
            at = at + 1;
        }
        false
    }

    fn start(&mut self, dongle: &Dongle, file: F, now: Instant)
        requires
            old(self).wf(),
            position(old(self).sessions@, dongle.node@) is None,
        ensures
            final(self).wf(),
            final(self).sessions@ == old(self).sessions@.insert(
                slot(old(self).sessions@, dongle.node@),
                opened(*dongle, file, old(self).last_link@, now),
            ),
            0 <= slot(old(self).sessions@, dongle.node@) <= old(self).sessions@.len(),
            final(self).last_link@ == old(self).last_link@,
            final(self).readings == old(self).readings,
            final(self).session_on(dongle.node@) == Some(
                opened(*dongle, file, old(self).last_link@, now).session,
            ),
            forall|node: Seq<char>|
                node != dongle.node@ ==> #[trigger] final(self).session_on(node) == old(
                    self,
                ).session_on(node),
    {
        let link = match self.last_link.get(&dongle.product_id) {
            Some(link) => *link,
            None => Link::Unknown,
        };
        let fresh = OpenDongle {
            node: dongle.node.clone(),
            file,
            session: Session::open(dongle.product_id, link, now),
        };
        let ghost all = self.sessions@;
        let mut at: usize = self.sessions.len();
        assert(all.take(at as int) =~= all);
        while at > 0 && text::precedes(fresh.node.as_str(), self.sessions[at - 1].node.as_str())
            invariant
                all == self.sessions@,
                at <= self.sessions.len(),
                slot(all, fresh.node@) == slot(all.take(at as int), fresh.node@),
            decreases at,
        {
            assert(all.take(at as int).drop_last() =~= all.take(at - 1));
            at = at - 1;
        }
        proof {
            lemma_slot(all, fresh.node@);
        }
        self.sessions.insert(at, fresh);
        assert(self.wf()) by {
            assert forall|i: int, j: int|
                0 <= i < j < self.sessions@.len() implies text::before(
                #[trigger] self.sessions@[i].node@,
                #[trigger] self.sessions@[j].node@,
            ) by {
                let p = if i < at {
                    i
                } else {
                    i - 1
                };
                let q = if j < at {
                    j
                } else {
                    j - 1
                };
                assert(i != at ==> self.sessions@[i] == all[p]);
                assert(j != at ==> self.sessions@[j] == all[q]);
            }
            assert forall|i: int| 0 <= i < self.sessions@.len() implies (
            #[trigger] self.sessions@[i]).session.wf() by {
                let p = if i < at {
                    i
                } else {
                    i - 1
                };
                assert(i != at ==> self.sessions@[i] == all[p]);
            }
        }
        proof {
            lemma_position(self.sessions@, dongle.node@);
            assert(self.sessions@[at as int].node@ == dongle.node@);
            assert forall|node: Seq<char>| node != dongle.node@ implies #[trigger] self.session_on(
                node,
            ) == old(self).session_on(node) by {
                lemma_position(self.sessions@, node);
                lemma_position(all, node);
                if let Some(i) = position(all, node) {
                    let p = if i < at {
                        i
                    } else {
                        i + 1
                    };
                    assert(self.sessions@[p] == all[i]);
                }
                if let Some(i) = position(self.sessions@, node) {
                    let p = if i < at {
                        i
                    } else {
                        i - 1
                    };
                    assert(self.sessions@[i] == all[p]);
                }
            }
        }
    }

    fn replace(&mut self, at: usize, session: Session)
        requires
            old(self).wf(),
            at < old(self).sessions@.len(),
            session.wf(),
        ensures
            final(self).wf(),
            final(self).sessions@ == with_session(old(self).sessions@, at as int, session),
            final(self).last_link@ == old(self).last_link@,
            final(self).readings == old(self).readings,
            final(self).session_on(old(self).sessions@[at as int].node@) == Some(session),
            forall|node: Seq<char>|
                node != old(self).sessions@[at as int].node@ ==> #[trigger] final(self).session_on(
                    node,
                ) == old(self).session_on(node),
    {
        let ghost all = self.sessions@;
        let ghost own = all[at as int].node@;
        self.sessions[at].session = session;
        assert(self.sessions@ =~= with_session(all, at as int, session));
        proof {
            lemma_position(self.sessions@, own);
            assert(self.sessions@[at as int].node@ == own);
            assert forall|node: Seq<char>| node != own implies #[trigger] self.session_on(node)
                == old(self).session_on(node) by {
                lemma_position(self.sessions@, node);
                lemma_position(all, node);
                if let Some(i) = position(all, node) {
                    assert(self.sessions@[i].node@ == node);
                }
                if let Some(i) = position(self.sessions@, node) {
                    assert(all[i].node@ == node);
                }
            }
        }
    }

    fn give_up_on(&mut self, node: &str)
        requires
            old(self).wf(),
        ensures
            final(self).wf(),
            final(self).readings == old(self).readings,
            match position(old(self).sessions@, node@) {
                Some(i) => {
                    let gone = old(self).sessions@[i].session;
                    &&& final(self).sessions@ == old(self).sessions@.remove(i)
                    &&& final(self).last_link@ == old(self).last_link@.insert(
                        gone.product_id,
                        gone.link,
                    )
                },
                None => {
                    &&& final(self).sessions@ == old(self).sessions@
                    &&& final(self).last_link@ == old(self).last_link@
                },
            },
            final(self).session_on(node@) is None,
            forall|other: Seq<char>|
                other != node@ ==> #[trigger] final(self).session_on(other) == old(self).session_on(
                    other,
                ),
    {
        let ghost all = self.sessions@;
        if let Some(at) = self.find(node) {
            let gone = self.sessions.remove(at);
            self.last_link.insert(gone.session.product_id, gone.session.link);
            assert(self.wf()) by {
                assert forall|i: int, j: int|
                    0 <= i < j < self.sessions@.len() implies text::before(
                    #[trigger] self.sessions@[i].node@,
                    #[trigger] self.sessions@[j].node@,
                ) by {
                    let p = if i < at {
                        i
                    } else {
                        i + 1
                    };
                    let q = if j < at {
                        j
                    } else {
                        j + 1
                    };
                    assert(self.sessions@[i] == all[p] && self.sessions@[j] == all[q]);
                }
                assert forall|i: int| 0 <= i < self.sessions@.len() implies (
                #[trigger] self.sessions@[i]).session.wf() by {
                    let p = if i < at {
                        i
                    } else {
                        i + 1
                    };
                    assert(self.sessions@[i] == all[p]);
                }
            }
            proof {
                assert forall|other: Seq<char>| true implies #[trigger] self.session_on(other) == (
                if other == node@ {
                    None
                } else {
                    old(self).session_on(other)
                }) by {
                    lemma_position(self.sessions@, other);
                    lemma_position(all, other);
                    if let Some(i) = position(all, other) {
                        let p = if i < at {
                            i
                        } else {
                            i - 1
                        };
                        assert(i != at ==> self.sessions@[p] == all[i]);
                    }
                    if let Some(i) = position(self.sessions@, other) {
                        let p = if i < at {
                            i
                        } else {
                            i + 1
                        };
                        assert(self.sessions@[i] == all[p]);
                    }
                }
            }
        }
    }

    /// Takes a dongle one step further through a poll: from what came of the
    /// last action to the next one, until there is a headset to report.
    ///
    /// A dongle that cannot be opened, fetched from or written to is closed and
    /// reported with an unavailable battery; most often its node vanished
    /// mid-exchange, or does not have its permissions yet right after coming
    /// back.
    pub fn advance(&mut self, dongle: &Dongle, event: DongleEvent<F>, poll: &Poll) -> (action:
        DongleAction)
        requires
            old(self).wf(),
            match event {
                DongleEvent::Turn => true,
                DongleEvent::Opened { .. } => old(self).session_on(dongle.node@) is None,
                DongleEvent::Report(_) => old(self).session_on(dongle.node@) matches Some(s)
                    && s.unanswered < u32::MAX,
                DongleEvent::Sent => old(self).session_on(dongle.node@) matches Some(s) && s.asks
                    < u32::MAX,
                DongleEvent::Failed => true,
            },
        ensures
            final(self).wf(),
            forall|node: Seq<char>|
                node != dongle.node@ ==> #[trigger] final(self).session_on(node) == old(
                    self,
                ).session_on(node),
            advanced(*old(self), *dongle, event, *poll, *final(self), action),
    {
        match event {
            DongleEvent::Turn => match self.find(dongle.node.as_str()) {
                Some(_) => DongleAction::Fetch,
                None => DongleAction::Open,
            },
            DongleEvent::Opened { file, at } => {
                self.start(dongle, file, at);
                DongleAction::Fetch
            },
            DongleEvent::Report(bytes) => match self.find(dongle.node.as_str()) {
                Some(at) => {
                    let reading: u64 = if self.readings == u64::MAX {
                        0
                    } else {
                        self.readings + 1
                    };
                    self.readings = reading;
                    let mut session = self.sessions[at].session;
                    session.listen(bytes.as_slice(), reading);
                    proof {
                        session::lemma_hearing_calms(
                            old(self).sessions@[at as int].session,
                            frame::messages_in(bytes@),
                            reading,
                        );
                    }
                    let mut sending = false;
                    let mut gave_up = false;
                    if session.should_ask(poll.now, poll.interval, poll.listen_first) {
                        sending = session.ask(poll.now) == Ask::Send;
                        gave_up = !sending;
                    }
                    self.replace(at, session);
                    if sending {
                        DongleAction::Send(frame::battery_request())
                    } else {
                        DongleAction::Done {
                            headset: headset_behind(
                                dongle,
                                session.battery(poll.wired),
                                session.sample,
                            ),
                            gave_up,
                        }
                    }
                },
                None => DongleAction::Open,
            },
            DongleEvent::Sent => match self.find(dongle.node.as_str()) {
                Some(at) => {
                    let mut session = self.sessions[at].session;
                    session.asked(poll.now);
                    self.replace(at, session);
                    DongleAction::Done {
                        headset: headset_behind(
                            dongle,
                            session.battery(poll.wired),
                            session.sample,
                        ),
                        gave_up: false,
                    }
                },
                None => DongleAction::Open,
            },
            DongleEvent::Failed => {
                self.give_up_on(dongle.node.as_str());
                DongleAction::Done {
                    headset: headset_behind(dongle, BatteryState::Unavailable, None),
                    gave_up: false,
                }
            },
        }
    }
}

/// Whether that is where an event takes the reader and a dongle.
pub open spec fn advanced<F>(
    before: Reader<F>,
    dongle: Dongle,
    event: DongleEvent<F>,
    poll: Poll,
    after: Reader<F>,
    action: DongleAction,
) -> bool {
    match event {
        DongleEvent::Turn => {
            &&& after == before
            &&& action == (if before.session_on(dongle.node@) is Some {
                DongleAction::Fetch
            } else {
                DongleAction::Open
            })
        },
        DongleEvent::Opened { file, at } => {
            &&& after.sessions@ == before.sessions@.insert(
                slot(before.sessions@, dongle.node@),
                opened(dongle, file, before.last_link@, at),
            )
            &&& after.last_link@ == before.last_link@
            &&& after.readings == before.readings
            &&& after.session_on(dongle.node@) == Some(
                opened(dongle, file, before.last_link@, at).session,
            )
            &&& action == DongleAction::Fetch
        },
        DongleEvent::Report(bytes) => {
            let at = position(before.sessions@, dongle.node@)->0;
            let reading = next_reading(before.readings);
            let heard = session::after_messages(
                before.sessions@[at].session,
                frame::messages_in(bytes@),
                reading,
            );
            let due = session::is_due(heard, poll.now, poll.interval, poll.listen_first);
            let left = if due {
                session::about_to_ask(heard, poll.now)
            } else {
                heard
            };
            &&& after.sessions@ == with_session(before.sessions@, at, left)
            &&& after.session_on(dongle.node@) == Some(left)
            &&& after.last_link@ == before.last_link@
            &&& after.readings == reading
            &&& if due && !session::is_mute(heard) {
                action matches DongleAction::Send(request) && request@
                    == frame::request_bytes()
            } else {
                is_done(action, dongle@, left, poll.wired, due)
            }
        },
        DongleEvent::Sent => {
            let at = position(before.sessions@, dongle.node@)->0;
            let left = session::having_asked(
                before.sessions@[at].session,
                poll.now,
            );
            &&& after.sessions@ == with_session(before.sessions@, at, left)
            &&& after.session_on(dongle.node@) == Some(left)
            &&& after.last_link@ == before.last_link@
            &&& after.readings == before.readings
            &&& is_done(action, dongle@, left, poll.wired, false)
        },
        DongleEvent::Failed => {
            &&& after.readings == before.readings
            &&& after.session_on(dongle.node@) is None
            &&& action matches DongleAction::Done { headset, gave_up } && !gave_up && reports(
                headset,
                dongle@,
                BatteryState::Unavailable,
                None,
            )
            &&& match position(before.sessions@, dongle.node@) {
                Some(i) => {
                    let gone = before.sessions@[i].session;
                    &&& after.sessions@ == before.sessions@.remove(i)
                    &&& after.last_link@ == before.last_link@.insert(
                        gone.product_id,
                        gone.link,
                    )
                },
                None => after.sessions@ == before.sessions@
                    && after.last_link@ == before.last_link@,
            }
        },
    }
}

/// The open dongles with the session of one of them replaced.
pub open spec fn with_session<F>(
    sessions: Seq<OpenDongle<F>>,
    at: int,
    session: Session,
) -> Seq<OpenDongle<F>> {
    sessions.update(
        at,
        OpenDongle { node: sessions[at].node, file: sessions[at].file, session },
    )
}

/// A dongle just opened, with what is remembered of its link.
pub open spec fn opened<F>(dongle: Dongle, file: F, links: Map<u16, Link>, now: Instant) -> OpenDongle<
    F,
> {
    OpenDongle {
        node: dongle.node,
        file,
        session: Session {
            product_id: dongle.product_id,
            link: inherited(links, dongle.product_id),
            level: None,
            sample: None,
            opened_at: now,
            asked_at: None,
            asks: 0,
            pending: false,
            unanswered: 0,
        },
    }
}

/// In a sorted list every node stands in one place only.
pub proof fn lemma_position<F>(sessions: Seq<OpenDongle<F>>, node: Seq<char>)
    requires
        forall|i: int, j: int|
            0 <= i < j < sessions.len() ==> text::before(
                #[trigger] sessions[i].node@,
                #[trigger] sessions[j].node@,
            ),
    ensures
        position(sessions, node) matches Some(i) ==> 0 <= i < sessions.len() && sessions[i].node@
            == node,
        forall|i: int|
            0 <= i < sessions.len() && (#[trigger] sessions[i]).node@ == node ==> position(
                sessions,
                node,
            ) == Some(i),
    decreases sessions.len(),
{
    if sessions.len() > 0 {
        let shorter = sessions.drop_last();
        assert forall|i: int, j: int| 0 <= i < j < shorter.len() implies text::before(
            #[trigger] shorter[i].node@,
            #[trigger] shorter[j].node@,
        ) by {
            assert(shorter[i] == sessions[i] && shorter[j] == sessions[j]);
        }
        lemma_position(shorter, node);
        assert forall|i: int|
            0 <= i < sessions.len() && (#[trigger] sessions[i]).node@ == node implies position(
            sessions,
            node,
        ) == Some(i) by {
            if i < sessions.len() - 1 {
                assert(shorter[i] == sessions[i]);
                text::lemma_before_total(sessions[i].node@, sessions.last().node@);
                assert(sessions[sessions.len() - 1] == sessions.last());
            }
        }
    }
}

/// In a sorted list a node that is not there belongs between those that precede
/// it and those it precedes.
proof fn lemma_slot<F>(sessions: Seq<OpenDongle<F>>, node: Seq<char>)
    requires
        forall|i: int, j: int|
            0 <= i < j < sessions.len() ==> text::before(
                #[trigger] sessions[i].node@,
                #[trigger] sessions[j].node@,
            ),
        position(sessions, node) is None,
    ensures
        0 <= slot(sessions, node) <= sessions.len(),
        forall|i: int|
            0 <= i < slot(sessions, node) ==> text::before(#[trigger] sessions[i].node@, node),
        forall|i: int|
            slot(sessions, node) <= i < sessions.len() ==> text::before(
                node,
                #[trigger] sessions[i].node@,
            ),
    decreases sessions.len(),
{
    if sessions.len() > 0 {
        let shorter = sessions.drop_last();
        let last = sessions.last().node@;
        text::lemma_before_total(node, last);
        if text::before(node, last) {
            assert forall|i: int, j: int| 0 <= i < j < shorter.len() implies text::before(
                #[trigger] shorter[i].node@,
                #[trigger] shorter[j].node@,
            ) by {
                assert(shorter[i] == sessions[i] && shorter[j] == sessions[j]);
            }
            lemma_slot(shorter, node);
            assert forall|i: int| 0 <= i < slot(sessions, node) implies text::before(
                #[trigger] sessions[i].node@,
                node,
            ) by {
                assert(shorter[i] == sessions[i]);
            }
            assert forall|i: int|
                slot(sessions, node) <= i < sessions.len() implies text::before(
                node,
                #[trigger] sessions[i].node@,
            ) by {
                if i < shorter.len() {
                    assert(shorter[i] == sessions[i]);
                }
            }
        } else {
            assert forall|i: int| 0 <= i < sessions.len() implies text::before(
                #[trigger] sessions[i].node@,
                node,
            ) by {
                if i < sessions.len() - 1 {
                    text::lemma_before_transitive(sessions[i].node@, last, node);
                }
            }
        }
    }
}

impl Poll {
    /// The regular poll, meant to take place about once a second.
    pub fn regular(now: Instant, interval: Duration, wired: bool) -> (poll: Poll)
        ensures
            poll == (Poll {
                now,
                interval,
                listen_first: time::seconds(session::LISTEN_FIRST_SECS),
                wired,
            }),
            poll.listen_first.nanos == 3_000_000_000,
    {
        Poll {
            now,
            interval,
            listen_first: Duration::from_secs(session::LISTEN_FIRST_SECS),
            wired,
        }
    }

    /// A poll of a one-shot reading: the first one asks at once, the others only
    /// listen, the one request being out already.
    pub fn one_shot(now: Instant, first: bool, wired: bool) -> (poll: Poll)
        ensures
            poll.now == now,
            poll.interval.nanos == (if first {
                0
            } else {
                u128::MAX
            }),
            poll.listen_first.nanos == 0,
            poll.wired == wired,
    {
        Poll {
            now,
            interval: if first {
                Duration::zero()
            } else {
                Duration::longest()
            },
            listen_first: Duration::zero(),
            wired,
        }
    }
}

/// Whether a one-shot reading should look for its answer once more, having
/// looked `polls` times since it asked: ten times at most, and only while some
/// battery is unavailable.
pub fn look_again(headsets: &Vec<Headset>, polls: u32) -> (again: bool)
    ensures
        again == (polls < ANSWER_POLLS && exists|i: int|
            0 <= i < headsets@.len() && (#[trigger] headsets@[i]).battery
                == BatteryState::Unavailable),
        again ==> polls < 10,
{
    if polls >= ANSWER_POLLS {
        return false;
    }
    let mut at: usize = 0;
    while at < headsets.len()
        invariant
            polls < ANSWER_POLLS,
            at <= headsets.len(),
            forall|i: int|
                0 <= i < at ==> (#[trigger] headsets@[i]).battery != BatteryState::Unavailable,
        decreases headsets.len() - at,
    {
        if let BatteryState::Unavailable = headsets[at].battery {
            assert(headsets@[at as int].battery == BatteryState::Unavailable);
            return true;
        }
        at = at + 1;
    }
    false
}

/// What the last dongle of its kind to vanish had said of the link is what the
/// next one to be opened starts from: the re-enumeration that follows every
/// link change does not turn an announcement back into a guess.
pub proof fn law_link_survives_re_enumeration<F>(
    links: Map<u16, Link>,
    sessions: Seq<OpenDongle<F>>,
    dongles: Seq<DongleView>,
    index: int,
    dongle: Dongle,
    file: F,
    now: Instant,
)
    requires
        0 <= index < sessions.len(),
        !is_listed(dongles, sessions[index].node@),
        dongle.product_id == sessions[index].session.product_id,
        forall|j: int|
            index < j < sessions.len() && (#[trigger] sessions[j]).session.product_id
                == dongle.product_id ==> is_listed(dongles, sessions[j].node@),
    ensures
        opened(dongle, file, remembered(links, sessions, dongles), now).session.link
            == sessions[index].session.link,
    decreases sessions.len(),
{
    let shorter = sessions.drop_last();
    if index < sessions.len() - 1 {
        assert(shorter[index] == sessions[index]);
        assert forall|j: int|
            index < j < shorter.len() && (#[trigger] shorter[j]).session.product_id
                == dongle.product_id implies is_listed(dongles, shorter[j].node@) by {
            assert(shorter[j] == sessions[j]);
        }
        law_link_survives_re_enumeration(links, shorter, dongles, index, dongle, file, now);
        assert(sessions.last() == sessions[sessions.len() - 1]);
    }
}

/// A one-shot reading sends each dongle one request: once it has asked, the
/// polls that follow are not due, whatever is heard meanwhile - nor if nothing
/// is heard at all, for as long as a lost request is waited for.
pub proof fn law_one_shot_asks_once(
    session: Session,
    asked: Instant,
    poll: Poll,
    list: Seq<frame::Message>,
    reading: u64,
)
    requires
        session.asked_at == Some(asked),
        asked.nanos > 0,
        poll.interval.nanos == u128::MAX,
        list.len() > 0 || session.link != Link::Unknown || time::elapsed(asked, poll.now).nanos
            < time::seconds(session::ASK_AGAIN_AFTER_SECS@[0]).nanos,
    ensures
        !session::is_due(
            session::after_messages(session, list, reading),
            poll.now,
            poll.interval,
            poll.listen_first,
        ),
{
    lemma_hearing_settles(session, list, reading);
    assert(session::ASK_AGAIN_AFTER_SECS@[0] == 10 && session::ASK_AGAIN_AFTER_SECS@[1] == 30);
}

proof fn lemma_hearing_settles(session: Session, list: Seq<frame::Message>, reading: u64)
    ensures
        session::after_messages(session, list, reading).asked_at == session.asked_at,
        session.link != Link::Unknown || list.len() > 0 ==> session::after_messages(
            session,
            list,
            reading,
        ).link != Link::Unknown,
        list.len() == 0 ==> session::after_messages(session, list, reading) == session,
    decreases list.len(),
{
    if list.len() > 0 {
        lemma_hearing_settles(session, list.drop_last(), reading);
    }
}

/// A session is found by the node of its dongle, and by no other.
pub proof fn law_session_is_found_by_its_node<F>(reader: Reader<F>, index: int, node: Seq<char>)
    requires
        reader.wf(),
    ensures
        0 <= index < reader.sessions@.len() ==> reader.session_on(
            reader.sessions@[index].node@,
        ) == Some(reader.sessions@[index].session),
        reader.session_on(node) is Some ==> exists|i: int|
            0 <= i < reader.sessions@.len() && (#[trigger] reader.sessions@[i]).node@ == node
                && reader.session_on(node) == Some(reader.sessions@[i].session),
{
    lemma_position(reader.sessions@, node);
    if 0 <= index < reader.sessions@.len() {
        lemma_position(reader.sessions@, reader.sessions@[index].node@);
    }
    if let Some(i) = position(reader.sessions@, node) {
        assert(reader.sessions@[i].node@ == node);
    }
}

/// An open dongle stays open exactly as long as a dongle with its node is
/// listed, each for itself and in their order.
pub proof fn law_listed_dongles_stay_open<F>(
    first: Seq<OpenDongle<F>>,
    then: Seq<OpenDongle<F>>,
    dongles: Seq<DongleView>,
)
    ensures
        still_there(first + then, dongles) == still_there(first, dongles) + still_there(
            then,
            dongles,
        ),
        first.len() == 1 ==> still_there(first, dongles) == (if exists|i: int|
            0 <= i < dongles.len() && (#[trigger] dongles[i]).node == first[0].node@ {
            first
        } else {
            Seq::empty()
        }),
    decreases then.len(),
{
    if first.len() == 1 {
        assert(first.drop_last() =~= Seq::<OpenDongle<F>>::empty());
        assert(still_there(first.drop_last(), dongles) =~= Seq::<OpenDongle<F>>::empty());
        assert(Seq::<OpenDongle<F>>::empty().push(first[0]) =~= first);
    }
    if then.len() == 0 {
        assert(first + then =~= first);
        assert(still_there(first, dongles) + still_there(then, dongles) =~= still_there(
            first,
            dongles,
        ));
    } else {
        law_listed_dongles_stay_open(first, then.drop_last(), dongles);
        assert((first + then).drop_last() =~= first + then.drop_last());
        assert((first + then).last() == then.last());
        assert(still_there(first + then, dongles) =~= still_there(first, dongles) + still_there(
            then,
            dongles,
        ));
    }
}

/// What is remembered of a link changes only when an open dongle of that product
/// vanishes: a dongle that is still listed, or of another product, leaves it.
pub proof fn law_other_links_are_remembered<F>(
    links: Map<u16, Link>,
    sessions: Seq<OpenDongle<F>>,
    dongles: Seq<DongleView>,
    product_id: u16,
)
    requires
        forall|i: int|
            0 <= i < sessions.len() && (#[trigger] sessions[i]).session.product_id == product_id
                ==> is_listed(dongles, sessions[i].node@),
    ensures
        inherited(remembered(links, sessions, dongles), product_id) == inherited(
            links,
            product_id,
        ),
        !links.contains_key(product_id) ==> inherited(links, product_id) == Link::Unknown,
        links.contains_key(product_id) ==> inherited(links, product_id) == links[product_id],
    decreases sessions.len(),
{
    if sessions.len() > 0 {
        let shorter = sessions.drop_last();
        assert forall|i: int|
            0 <= i < shorter.len() && (#[trigger] shorter[i]).session.product_id
                == product_id implies is_listed(dongles, shorter[i].node@) by {
            assert(shorter[i] == sessions[i]);
        }
        law_other_links_are_remembered(links, shorter, dongles, product_id);
        assert(sessions.last() == sessions[sessions.len() - 1]);
    }
}

/// A report never has the number of the one before it: they are counted, and the
/// count starts over only at its very end.
pub proof fn law_reports_are_counted(reading: u64)
    ensures
        next_reading(reading) != reading,
        reading < u64::MAX ==> next_reading(reading) == reading + 1,
        next_reading(u64::MAX) == 0,
{
}

/// A dongle's turn begins with its report if it is open, and with its node if it
/// is not. Once opened, it starts from what is remembered of its link, with
/// nothing heard and nothing asked.
pub proof fn law_turn_begins_with_what_is_open<F>(
    before: Reader<F>,
    dongle: Dongle,
    poll: Poll,
    after: Reader<F>,
    action: DongleAction,
    file: F,
    at: Instant,
)
    ensures
        advanced(before, dongle, DongleEvent::Turn, poll, after, action) ==> {
            &&& after == before
            &&& before.session_on(dongle.node@) is Some ==> action == DongleAction::Fetch
            &&& before.session_on(dongle.node@) is None ==> action == DongleAction::Open
        },
        advanced(before, dongle, DongleEvent::Opened { file, at }, poll, after, action) ==> {
            &&& action == DongleAction::Fetch
            &&& after.sessions@.len() == before.sessions@.len() + 1
            &&& after.last_link@ == before.last_link@ && after.readings == before.readings
            &&& after.session_on(dongle.node@) matches Some(session)
            &&& session.product_id == dongle.product_id && session.opened_at == at
            &&& session.link == inherited(before.last_link@, dongle.product_id)
            &&& session.level is None && session.sample is None
            &&& session.asked_at is None && session.asks == 0
            &&& !session.pending && session.unanswered == 0
            &&& exists|i: int|
                0 <= i < after.sessions@.len() && (#[trigger] after.sessions@[i]).node
                    == dongle.node && after.sessions@[i].file == file
        },
{
    if advanced(before, dongle, DongleEvent::Opened { file, at }, poll, after, action) {
        lemma_slot_is_in_range(before.sessions@, dongle.node@);
        let place = slot(before.sessions@, dongle.node@);
        assert(after.sessions@[place] == opened(dongle, file, before.last_link@, at));
    }
}

/// A dongle keeps its node and its open file while its session moves on, and no
/// other dongle is touched.
pub proof fn law_session_moves_on_alone<F>(sessions: Seq<OpenDongle<F>>, at: int, session: Session)
    requires
        0 <= at < sessions.len(),
    ensures
        ({
            let after = with_session(sessions, at, session);
            &&& after.len() == sessions.len()
            &&& after[at].session == session
            &&& after[at].node == sessions[at].node && after[at].file == sessions[at].file
            &&& forall|i: int|
                0 <= i < sessions.len() && i != at ==> #[trigger] after[i] == sessions[i]
        }),
{
}

proof fn lemma_slot_is_in_range<F>(sessions: Seq<OpenDongle<F>>, node: Seq<char>)
    ensures
        0 <= slot(sessions, node) <= sessions.len(),
    decreases sessions.len(),
{
    if sessions.len() > 0 {
        lemma_slot_is_in_range(sessions.drop_last(), node);
    }
}

/// A report is taken in whole and counted. If no request is due, what is then
/// known is reported; if one is, it is sent, unless the headset is mute: then the
/// reader says that it stopped asking, and reports no level.
pub proof fn law_report_is_taken_in<F>(
    before: Reader<F>,
    dongle: Dongle,
    bytes: Vec<u8>,
    poll: Poll,
    after: Reader<F>,
    action: DongleAction,
    session: Session,
)
    requires
        before.session_on(dongle.node@) == Some(session),
        advanced(before, dongle, DongleEvent::Report(bytes), poll, after, action),
    ensures
        after.readings == next_reading(before.readings),
        after.last_link@ == before.last_link@,
        ({
            let heard = session::after_messages(
                session,
                frame::messages_in(bytes@),
                after.readings,
            );
            let due = session::is_due(heard, poll.now, poll.interval, poll.listen_first);
            &&& after.session_on(dongle.node@) matches Some(left)
            &&& !due ==> left == heard && (action matches DongleAction::Done { headset, gave_up }
                && !gave_up && headset.battery == session::battery_of(heard, poll.wired)
                && headset.sample == heard.sample)
            &&& due && !session::is_mute(heard) ==> (action matches DongleAction::Send(request)
                && request@ == frame::request_bytes()) && left == session::about_to_ask(
                heard,
                poll.now,
            )
            &&& due && session::is_mute(heard) ==> (action matches DongleAction::Done {
                headset,
                gave_up,
            } && gave_up && headset.battery == BatteryState::Unavailable && headset.sample is None)
                && left.link == Link::Unknown
        }),
{
}

/// A level in the report is reported at once if no request is due, under the
/// number of that report.
pub proof fn law_level_heard_is_reported<F>(
    before: Reader<F>,
    dongle: Dongle,
    bytes: Vec<u8>,
    poll: Poll,
    after: Reader<F>,
    action: DongleAction,
    session: Session,
    level: u8,
)
    requires
        before.session_on(dongle.node@) == Some(session),
        advanced(before, dongle, DongleEvent::Report(bytes), poll, after, action),
        frame::messages_in(bytes@).len() > 0,
        frame::messages_in(bytes@).last() == frame::Message::Battery(level),
        session.asked_at matches Some(asked) && time::elapsed(asked, poll.now).nanos
            < poll.interval.nanos,
    ensures
        action matches DongleAction::Done { headset, gave_up } && !gave_up && headset.battery == (
        if poll.wired {
            BatteryState::Charging(Some(level))
        } else {
            BatteryState::Discharging(level)
        }) && headset.sample == Some(after.readings),
        after.readings != before.readings,
{
    let list = frame::messages_in(bytes@);
    lemma_hearing_settles(session, list, after.readings);
    session::law_last_level_heard_is_known(
        session,
        list,
        after.readings,
        list.len() - 1,
        level,
    );
}

/// A request that went out is remembered as open, and what was known is reported
/// all the same.
pub proof fn law_sent_request_is_remembered<F>(
    before: Reader<F>,
    dongle: Dongle,
    poll: Poll,
    after: Reader<F>,
    action: DongleAction,
    session: Session,
)
    requires
        before.session_on(dongle.node@) == Some(session),
        session.asks < u32::MAX,
        advanced(before, dongle, DongleEvent::Sent, poll, after, action),
    ensures
        after.readings == before.readings,
        after.last_link@ == before.last_link@,
        after.session_on(dongle.node@) == Some(
            Session {
                asked_at: Some(poll.now),
                asks: (session.asks + 1) as u32,
                pending: true,
                ..session
            },
        ),
        action matches DongleAction::Done { headset, gave_up } && !gave_up && headset.battery
            == session::battery_of(session, poll.wired) && headset.sample == session.sample,
{
}

/// A dongle that fails is closed and reported without a level, and what it had
/// said of the link is what the next one of its product starts from.
pub proof fn law_failed_dongle_keeps_its_link<F>(
    before: Reader<F>,
    dongle: Dongle,
    poll: Poll,
    after: Reader<F>,
    action: DongleAction,
    other: Dongle,
    file: F,
    now: Instant,
)
    requires
        before.wf(),
        advanced(before, dongle, DongleEvent::Failed, poll, after, action),
    ensures
        after.session_on(dongle.node@) is None,
        after.readings == before.readings,
        action matches DongleAction::Done { headset, gave_up } && !gave_up && headset.battery
            == BatteryState::Unavailable && headset.sample is None,
        before.session_on(dongle.node@) matches Some(session) ==> after.sessions@.len()
            == before.sessions@.len() - 1 && (other.product_id == session.product_id ==> opened(
            other,
            file,
            after.last_link@,
            now,
        ).session.link == session.link) && (other.product_id != session.product_id ==> opened(
            other,
            file,
            after.last_link@,
            now,
        ).session.link == inherited(before.last_link@, other.product_id)),
        before.session_on(dongle.node@) is None ==> after.sessions@ == before.sessions@
            && after.last_link@ == before.last_link@,
{
    lemma_position(before.sessions@, dongle.node@);
}

/// A headset is reported under the name of its kind and what its dongle is
/// called, with the IDs of the dongle.
pub proof fn law_headset_is_reported_as_its_dongle(
    headset: Headset,
    dongle: DongleView,
    battery: BatteryState,
    sample: Option<u64>,
)
    requires
        reports(headset, dongle, battery, sample),
    ensures
        headset.name@ == "Audeze Maxwell"@,
        headset.product@ == dongle.product,
        headset.vendor_id == 0x3329,
        headset.product_id == dongle.product_id,
        headset.supports_battery,
        headset.battery == battery,
        headset.sample == sample,
{
}

} // verus!
