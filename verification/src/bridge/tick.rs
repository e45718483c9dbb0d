//! One round of the daemon: what was read is applied headset by headset, then
//! the batteries that have outlived their grace go.
//!
//! The bridge never touches a device itself. Whoever runs it does what
//! [`Bridge::advance`] asks for - open the node, create a device, publish a
//! level - and hands back what came of it, until the round is over. A handle
//! that an action hands out comes back with the event that answers it.

use vstd::prelude::*;
use vstd::multiset::Multiset;
use crate::bridge::pool::Acquired;
use crate::bridge::{
    self, AttachError, Bridge, Loudness, Note, Step, Summary, VirtualBattery, Withdrawal, Withdrawn,
};
use crate::headset::Headset;
use crate::time::Instant;
use crate::uhid::CreateParams;

verus! {

/// What the bridge is waiting to hear about.
#[derive(Debug, Clone, Copy, PartialEq, Eq, Structural)]
pub enum Pending {
    /// Nothing: it can carry on.
    Nothing,
    /// The device node being opened, for a battery at that level.
    Opening {
        /// The level.
        percent: u8,
        /// Whether it is charging.
        charging: bool,
    },
    /// A device being created, for a battery at that level.
    Creating {
        /// The level.
        percent: u8,
        /// Whether it is charging.
        charging: bool,
    },
    /// The kernel registering a power supply for it.
    Registering {
        /// The level.
        percent: u8,
        /// Whether it is charging.
        charging: bool,
    },
    /// A device that came to nothing being destroyed.
    Discarding(AttachError),
    /// A level being published on the battery at `index`.
    Publishing {
        /// Which battery.
        index: usize,
        /// The level.
        percent: u8,
        /// Whether it is charging.
        charging: bool,
    },
    /// The device of a withdrawn battery being destroyed.
    Withdrawing,
}

/// How far a round has come.
#[derive(Debug)]
pub struct Tick<H> {
    /// What was read.
    pub headsets: Vec<Headset>,
    /// How many of them have had their turn.
    pub at: usize,
    /// When the round takes place.
    pub now: Instant,
    /// What the bridge is waiting to hear about.
    pub pending: Pending,
    /// Whether the batteries that have outlived their grace were taken out.
    pub swept: bool,
    /// Those whose devices are still to be destroyed, the next one first.
    pub gone: Vec<Withdrawn<H>>,
}

/// What came of the last action.
#[derive(Debug)]
pub enum TickEvent<H> {
    /// There was nothing to do, or it is done.
    Next,
    /// The node was opened.
    Opened(H),
    /// The node could not be opened.
    NotOpened,
    /// The device was created.
    Created(H),
    /// The kernel would not create it.
    NotCreated(H),
    /// The kernel registered a power supply for it.
    Registered(H),
    /// No power supply showed up in time.
    NotRegistered(H),
    /// Waiting for it failed.
    WaitFailed(H),
    /// The level was published.
    Published,
    /// The level could not be published.
    NotPublished,
    /// The device was destroyed.
    Destroyed(H),
}

/// Why a device is to be destroyed.
#[derive(Debug, Clone, Copy, PartialEq, Eq, Structural)]
pub enum Reason {
    /// Its headset says it is switched off.
    Off,
    /// Its battery has outlived its grace.
    Expired(Withdrawal),
    /// It came to nothing.
    Useless(AttachError),
}

/// What to do next.
#[derive(Debug)]
pub enum TickAction<H> {
    /// Nothing: the headset whose turn it was does not report a battery.
    Skip,
    /// Nothing: it is charging but has not reported a level yet.
    NoLevelYet,
    /// Nothing: it is not answering.
    Rest,
    /// Nothing: the level of the battery at that index is implausible.
    Hold(usize),
    /// Nothing: that is settled.
    Settled,
    /// Open the device node at that path.
    Open(String),
    /// Create a device at that level.
    Create {
        /// The handle to create it on.
        device: H,
        /// What it is.
        params: CreateParams,
        /// The level.
        percent: u8,
        /// Whether it is charging.
        charging: bool,
    },
    /// Wait for the kernel to register a power supply.
    Wait {
        /// The handle of the device.
        device: H,
        /// Its identifier.
        uniq: String,
        /// The level.
        percent: u8,
        /// Whether it is charging.
        charging: bool,
    },
    /// Publish a level on the battery at `index`.
    Publish {
        /// Which battery.
        index: usize,
        /// The level.
        percent: u8,
        /// Whether it is charging.
        charging: bool,
        /// How loudly to say so, if it is news.
        said: Option<Loudness>,
    },
    /// Destroy a device.
    Destroy {
        /// Its handle.
        device: H,
        /// The name of its headset.
        name: String,
        /// Why.
        why: Reason,
    },
    /// Nothing: the headset has a battery now, the last in the list.
    Attached,
    /// Nothing: the headset gets no battery.
    Fail(AttachError),
    /// The round is over. A battery that went unanswered calls for a prompt
    /// retry rather than the usual wait.
    Done {
        /// Whether one did.
        unanswered: bool,
    },
}

/// What a probe is worth saying.
#[derive(Debug)]
pub struct ProbeNotes {
    /// How loud to be about its failure, if it failed.
    pub failure: Option<Loudness>,
    /// Whether readings are back after a failure.
    pub back: bool,
    /// What it found, if that changed.
    pub summary: Option<Note>,
}

/// The handle an action hands out.
pub open spec fn lent<H>(action: TickAction<H>) -> Multiset<H> {
    match action {
        TickAction::Create { device, .. } => Multiset::singleton(device),
        TickAction::Wait { device, .. } => Multiset::singleton(device),
        TickAction::Destroy { device, .. } => Multiset::singleton(device),
        _ => Multiset::empty(),
    }
}

/// The handle an event brings back.
pub open spec fn returned<H>(event: TickEvent<H>) -> Multiset<H> {
    match event {
        TickEvent::Opened(device) => Multiset::singleton(device),
        TickEvent::Created(device) => Multiset::singleton(device),
        TickEvent::NotCreated(device) => Multiset::singleton(device),
        TickEvent::Registered(device) => Multiset::singleton(device),
        TickEvent::NotRegistered(device) => Multiset::singleton(device),
        TickEvent::WaitFailed(device) => Multiset::singleton(device),
        TickEvent::Destroyed(device) => Multiset::singleton(device),
        _ => Multiset::empty(),
    }
}

/// Whether that event can answer what the bridge is waiting for.
pub open spec fn answers<H>(pending: Pending, event: TickEvent<H>) -> bool {
    match event {
        TickEvent::Next => pending == Pending::Nothing,
        TickEvent::Opened(_) => pending is Opening,
        TickEvent::NotOpened => pending is Opening,
        TickEvent::Created(_) => pending is Creating,
        TickEvent::NotCreated(_) => pending is Creating,
        TickEvent::Registered(_) => pending is Registering,
        TickEvent::NotRegistered(_) => pending is Registering,
        TickEvent::WaitFailed(_) => pending is Registering,
        TickEvent::Published => pending is Publishing,
        TickEvent::NotPublished => pending is Publishing,
        TickEvent::Destroyed(_) => pending is Discarding || pending is Withdrawing,
    }
}

impl<H> Tick<H> {
    /// Whether that event can answer what the bridge is waiting for.
    pub fn expects(&self, event: &TickEvent<H>) -> (yes: bool)
        ensures
            yes == answers(self.pending, *event),
    {
        match event {
            TickEvent::Next => matches!(self.pending, Pending::Nothing),
            TickEvent::Opened(_) => matches!(self.pending, Pending::Opening { .. }),
            TickEvent::NotOpened => matches!(self.pending, Pending::Opening { .. }),
            TickEvent::Created(_) => matches!(self.pending, Pending::Creating { .. }),
            TickEvent::NotCreated(_) => matches!(self.pending, Pending::Creating { .. }),
            TickEvent::Registered(_) => matches!(self.pending, Pending::Registering { .. }),
            TickEvent::NotRegistered(_) => matches!(self.pending, Pending::Registering { .. }),
            TickEvent::WaitFailed(_) => matches!(self.pending, Pending::Registering { .. }),
            TickEvent::Published => matches!(self.pending, Pending::Publishing { .. }),
            TickEvent::NotPublished => matches!(self.pending, Pending::Publishing { .. }),
            TickEvent::Destroyed(_) => matches!(
                self.pending,
                Pending::Discarding(_) | Pending::Withdrawing
            ),
        }
    }

    /// Whether a battery is being registered.
    pub open spec fn is_attaching(self) -> bool {
        self.pending is Opening || self.pending is Creating || self.pending is Registering
            || self.pending is Discarding
    }

    /// A round that has come that far makes sense beside those batteries.
    pub open spec fn wf(self, batteries: Seq<VirtualBattery<H>>) -> bool {
        &&& self.at <= self.headsets@.len()
        &&& self.is_attaching() ==> 1 <= self.at && bridge::is_absent(
            batteries,
            bridge::key_of(self.headsets@[self.at - 1]),
        )
        &&& self.pending matches Pending::Publishing { index, .. } ==> index < batteries.len()
        &&& !self.swept ==> self.gone@.len() == 0
        &&& self.swept ==> self.at == self.headsets@.len()
    }

    /// Whether everything but what is pending is the same.
    pub open spec fn same_but_pending(self, other: Tick<H>) -> bool {
        &&& self.headsets == other.headsets
        &&& self.at == other.at
        &&& self.now == other.now
        &&& self.swept == other.swept
        &&& self.gone == other.gone
    }
}

/// Every handle the bridge holds in a round: spare, behind a battery, or behind
/// one that is about to go.
pub open spec fn held<F, H>(daemon: Bridge<F, H>, tick: Tick<H>) -> Multiset<H> {
    daemon.pool.spare@.to_multiset().add(bridge::devices(daemon.batteries@).to_multiset()).add(
        bridge::freed(tick.gone@).to_multiset(),
    )
}

/// What carrying on comes to while headsets are left.
pub open spec fn turn_taken<F, H>(
    before: Bridge<F, H>,
    tick: Tick<H>,
    after: Bridge<F, H>,
    next: Tick<H>,
    action: TickAction<H>,
) -> bool {
    let found = tick.headsets@[tick.at as int];
    &&& next.headsets == tick.headsets
    &&& next.at == tick.at + 1
    &&& next.now == tick.now
    &&& next.swept == tick.swept
    &&& next.gone == tick.gone
    &&& exists|step: Step<H>| #[trigger]
        bridge::applied(before.batteries@, found, tick.now, after.batteries@, step) && match step {
            Step::Skip => next.pending == Pending::Nothing && action == TickAction::<H>::Skip
                && after.pool == before.pool,
            Step::NoLevelYet => next.pending == Pending::Nothing && action
                == TickAction::<H>::NoLevelYet && after.pool == before.pool,
            Step::Rest => next.pending == Pending::Nothing && action == TickAction::<H>::Rest
                && after.pool == before.pool,
            Step::Hold { index } => next.pending == Pending::Nothing && action
                == TickAction::<H>::Hold(index) && after.pool == before.pool,
            Step::Publish { index, percent, charging, said } => next.pending
                == (Pending::Publishing { index, percent, charging }) && action
                == (TickAction::<H>::Publish { index, percent, charging, said }) && after.pool
                == before.pool,
            Step::Withdraw(battery) => next.pending == Pending::Withdrawing && action
                == (TickAction::Destroy {
                device: battery.device,
                name: battery.name,
                why: Reason::Off,
            }) && after.pool == before.pool,
            Step::Attach { percent, charging } => {
                &&& after.pool.path == before.pool.path
                &&& after.pool.may_open == before.pool.may_open
                &&& if before.pool.spare@.len() > 0 {
                    &&& after.pool.spare@ == before.pool.spare@.drop_last()
                    &&& next.pending == (Pending::Creating { percent, charging })
                    &&& is_creation(action, before.pool.spare@.last(), found, percent, charging)
                } else if before.pool.may_open {
                    &&& after.pool.spare@ == before.pool.spare@
                    &&& next.pending == (Pending::Opening { percent, charging })
                    &&& action matches TickAction::Open(path)
                    &&& path@ == before.pool.path@
                } else {
                    &&& after.pool.spare@ == before.pool.spare@
                    &&& next.pending == Pending::Nothing
                    &&& action == TickAction::<H>::Fail(AttachError::OutOfDescriptors)
                }
            },
        }
}

/// Whether `action` is to create the device of that headset.
pub open spec fn is_creation<H>(
    action: TickAction<H>,
    handle: H,
    found: Headset,
    level: u8,
    plugged: bool,
) -> bool {
    &&& action matches TickAction::Create { device, params, percent, charging }
    &&& device == handle
    &&& bridge::identifies(params, found)
    &&& percent == level
    &&& charging == plugged
}

/// What carrying on comes to once every headset has had its turn.
pub open spec fn sweep_taken<F, H>(
    before: Bridge<F, H>,
    tick: Tick<H>,
    after: Bridge<F, H>,
    next: Tick<H>,
    action: TickAction<H>,
) -> bool {
    let gone = if tick.swept {
        tick.gone@
    } else {
        bridge::expired(before.batteries@, before.config, tick.now)
    };
    &&& next.headsets == tick.headsets
    &&& next.at == tick.at
    &&& next.now == tick.now
    &&& next.swept
    &&& after.pool == before.pool
    &&& after.batteries@ == (if tick.swept {
        before.batteries@
    } else {
        bridge::kept(before.batteries@, before.config, tick.now)
    })
    &&& if gone.len() > 0 {
        &&& next.gone@ == gone.drop_first()
        &&& next.pending == Pending::Withdrawing
        &&& action == (TickAction::Destroy {
            device: gone.first().battery.device,
            name: gone.first().battery.name,
            why: Reason::Expired(gone.first().why),
        })
    } else {
        &&& next.gone@ == gone
        &&& next.pending == Pending::Nothing
        &&& action == (TickAction::<H>::Done {
            unanswered: bridge::is_unanswered(after.batteries@, tick.now),
        })
    }
}

/// Whether that is where an event takes the bridge and its round.
pub open spec fn advanced<F, H>(
    before: Bridge<F, H>,
    tick: Tick<H>,
    event: TickEvent<H>,
    after: Bridge<F, H>,
    next: Tick<H>,
    action: TickAction<H>,
) -> bool {
    let found = tick.headsets@[tick.at - 1];
    let put_back = |handle: H| after.pool.spare@ == before.pool.spare@.push(handle)
        && after.pool.path == before.pool.path && after.pool.may_open == before.pool.may_open;
    match event {
        TickEvent::Next => if tick.at < tick.headsets@.len() {
            turn_taken(before, tick, after, next, action)
        } else {
            sweep_taken(before, tick, after, next, action)
        },
        TickEvent::Opened(handle) => {
            &&& tick.pending matches Pending::Opening { percent, charging }
            &&& after.batteries@ == before.batteries@
            &&& after.pool == before.pool
            &&& next.same_but_pending(tick)
            &&& next.pending == (Pending::Creating { percent, charging })
            &&& is_creation(action, handle, found, percent, charging)
        },
        TickEvent::NotOpened => {
            &&& after.batteries@ == before.batteries@
            &&& after.pool == before.pool
            &&& next.same_but_pending(tick)
            &&& next.pending == Pending::Nothing
            &&& action == TickAction::<H>::Fail(AttachError::NotOpened)
        },
        TickEvent::Created(handle) => {
            &&& tick.pending matches Pending::Creating { percent: level, charging: plugged }
            &&& after.batteries@ == before.batteries@
            &&& after.pool == before.pool
            &&& next.same_but_pending(tick)
            &&& next.pending == (Pending::Registering { percent: level, charging: plugged })
            &&& action matches TickAction::Wait { device, uniq, percent, charging }
            &&& device == handle
            &&& uniq@ == bridge::uniq_of(found)
            &&& percent == level
            &&& charging == plugged
        },
        TickEvent::NotCreated(handle) => {
            &&& after.batteries@ == before.batteries@
            &&& put_back(handle)
            &&& next.same_but_pending(tick)
            &&& next.pending == Pending::Nothing
            &&& action == TickAction::<H>::Fail(AttachError::NotCreated)
        },
        TickEvent::Registered(handle) => {
            &&& tick.pending matches Pending::Registering { percent, charging }
            &&& bridge::attached(
                before.batteries@,
                found,
                percent,
                charging,
                tick.now,
                handle,
                after.batteries@,
            )
            &&& after.pool == before.pool
            &&& next.same_but_pending(tick)
            &&& next.pending == Pending::Nothing
            &&& action == TickAction::<H>::Attached
        },
        TickEvent::NotRegistered(handle) => {
            &&& after.batteries@ == before.batteries@
            &&& after.pool == before.pool
            &&& next.same_but_pending(tick)
            &&& next.pending == Pending::Discarding(AttachError::NoSupply)
            &&& is_discarding(action, handle, found, AttachError::NoSupply)
        },
        TickEvent::WaitFailed(handle) => {
            &&& after.batteries@ == before.batteries@
            &&& after.pool == before.pool
            &&& next.same_but_pending(tick)
            &&& next.pending == Pending::Discarding(AttachError::WaitFailed)
            &&& is_discarding(action, handle, found, AttachError::WaitFailed)
        },
        TickEvent::Published => {
            &&& tick.pending matches Pending::Publishing { index, percent, charging }
            &&& after.batteries@ == bridge::with_level(
                before.batteries@,
                index as int,
                percent,
                charging,
            )
            &&& after.pool == before.pool
            &&& next.same_but_pending(tick)
            &&& next.pending == Pending::Nothing
            &&& action == TickAction::<H>::Settled
        },
        TickEvent::NotPublished => {
            &&& after.batteries@ == before.batteries@
            &&& after.pool == before.pool
            &&& next.same_but_pending(tick)
            &&& next.pending == Pending::Nothing
            &&& action == TickAction::<H>::Settled
        },
        TickEvent::Destroyed(handle) => {
            &&& after.batteries@ == before.batteries@
            &&& put_back(handle)
            &&& next.same_but_pending(tick)
            &&& next.pending == Pending::Nothing
            &&& action == (match tick.pending {
                Pending::Discarding(error) => TickAction::<H>::Fail(error),
                _ => TickAction::<H>::Settled,
            })
        },
    }
}

/// Whether `action` is to destroy a device that came to nothing.
pub open spec fn is_discarding<H>(
    action: TickAction<H>,
    handle: H,
    found: Headset,
    error: AttachError,
) -> bool {
    &&& action matches TickAction::Destroy { device, name, why }
    &&& device == handle
    &&& name@ == found.name@
    &&& why == Reason::Useless(error)
}

impl<F, H> Bridge<F, H> {
    /// Starts a round at `now` with what a probe found, or with nothing if it
    /// failed, and tells what is worth saying about it.
    ///
    /// Only the first failure of a streak is worth a warning, so that a dongle
    /// that is unplugged for a week does not fill the journal.
    pub fn begin(&mut self, found: Option<Vec<Headset>>, now: Instant) -> (begun: (
        Tick<H>,
        ProbeNotes,
    ))
        requires
            old(self).wf(),
        ensures
            final(self).wf(),
            begun.0.wf(final(self).batteries@),
            begun.0.at == 0,
            begun.0.now == now,
            begun.0.pending == Pending::Nothing,
            !begun.0.swept,
            begun.0.gone@.len() == 0,
            match found {
                Some(headsets) => {
                    let summary = bridge::summary_of(headsets@);
                    &&& begun.0.headsets == headsets
                    &&& begun.1.failure is None
                    &&& begun.1.back == old(self).probe_failing
                    &&& (begun.1.summary is None) == (old(self).last_summary == Some(summary))
                    &&& begun.1.summary matches Some(note) ==> note.loudness == bridge::loudness_of(
                        summary,
                    ) && note.text@ == bridge::announcement(summary, bridge::names_of(headsets@))
                    &&& *final(self) == (Bridge {
                        probe_failing: false,
                        last_summary: Some(summary),
                        ..*old(self)
                    })
                },
                None => {
                    &&& begun.0.headsets@.len() == 0
                    &&& begun.1.failure == Some(
                        if old(self).probe_failing {
                            Loudness::Debug
                        } else {
                            Loudness::Warn
                        },
                    )
                    &&& !begun.1.back
                    &&& begun.1.summary is None
                    &&& *final(self) == (Bridge { probe_failing: true, ..*old(self) })
                },
            },
    {
        match found {
            Some(headsets) => {
                let back = self.probe_succeeded();
                let summary = self.announce(Summary::of(&headsets), &headsets);
                let tick = Tick {
                    headsets,
                    at: 0,
                    now,
                    pending: Pending::Nothing,
                    swept: false,
                    gone: Vec::new(),
                };
                (tick, ProbeNotes { failure: None, back, summary })
            },
            None => {
                let loudness = self.probe_failed();
                let tick = Tick {
                    headsets: Vec::new(),
                    at: 0,
                    now,
                    pending: Pending::Nothing,
                    swept: false,
                    gone: Vec::new(),
                };
                (tick, ProbeNotes { failure: Some(loudness), back: false, summary: None })
            },
        }
    }

    /// Takes the round one step further: from what came of the last action to
    /// the next one, until the round is over.
    pub fn advance(&mut self, tick: &mut Tick<H>, event: TickEvent<H>) -> (action: TickAction<H>)
        requires
            old(self).wf(),
            old(tick).wf(old(self).batteries@),
            answers(old(tick).pending, event),
        ensures
            final(self).wf(),
            final(tick).wf(final(self).batteries@),
            final(self).config == old(self).config,
            final(self).source == old(self).source,
            final(self).probe_failing == old(self).probe_failing,
            final(self).last_summary == old(self).last_summary,
            advanced(*old(self), *old(tick), event, *final(self), *final(tick), action),
            held(*final(self), *final(tick)).add(lent(action)) == held(*old(self), *old(tick)).add(
                returned(event),
            ),
    {
        broadcast use vstd::seq_lib::group_to_multiset_ensures;

        match event {
            TickEvent::Next => if tick.at < tick.headsets.len() {
                self.take_turn(tick)
            } else {
                self.sweep(tick)
            },
            TickEvent::Opened(device) => {
                if let Pending::Opening { percent, charging } = tick.pending {
                    tick.pending = Pending::Creating { percent, charging };
                    let params = bridge::identity(&tick.headsets[tick.at - 1]);
                    TickAction::Create { device, params, percent, charging }
                } else {
                    TickAction::Settled
                }
            },
            TickEvent::NotOpened => {
                tick.pending = Pending::Nothing;
                TickAction::Fail(AttachError::NotOpened)
            },
            TickEvent::Created(device) => {
                if let Pending::Creating { percent, charging } = tick.pending {
                    tick.pending = Pending::Registering { percent, charging };
                    let uniq = tick.headsets[tick.at - 1].uniq();
                    TickAction::Wait { device, uniq, percent, charging }
                } else {
                    TickAction::Settled
                }
            },
            TickEvent::NotCreated(device) => {
                tick.pending = Pending::Nothing;
                self.pool.put_back(device);
                assert(held(*self, *tick) =~= held(*old(self), *old(tick)).add(returned(event)));
                TickAction::Fail(AttachError::NotCreated)
            },
            TickEvent::Registered(device) => {
                if let Pending::Registering { percent, charging } = tick.pending {
                    tick.pending = Pending::Nothing;
                    self.attach(&tick.headsets[tick.at - 1], percent, charging, tick.now, device);
                    proof {
                        assert(bridge::devices(self.batteries@) =~= bridge::devices(
                            old(self).batteries@,
                        ).push(device));
                        assert(held(*self, *tick) =~= held(*old(self), *old(tick)).add(
                            returned(event),
                        ));
                    }
                    TickAction::Attached
                } else {
                    TickAction::Settled
                }
            },
            TickEvent::NotRegistered(device) => {
                tick.pending = Pending::Discarding(AttachError::NoSupply);
                let name = tick.headsets[tick.at - 1].name.clone();
                TickAction::Destroy { device, name, why: Reason::Useless(AttachError::NoSupply) }
            },
            TickEvent::WaitFailed(device) => {
                tick.pending = Pending::Discarding(AttachError::WaitFailed);
                let name = tick.headsets[tick.at - 1].name.clone();
                TickAction::Destroy { device, name, why: Reason::Useless(AttachError::WaitFailed) }
            },
            TickEvent::Published => {
                if let Pending::Publishing { index, percent, charging } = tick.pending {
                    tick.pending = Pending::Nothing;
                    self.published(index, percent, charging);
                    assert(bridge::devices(self.batteries@) =~= bridge::devices(
                        old(self).batteries@,
                    ));
                }
                TickAction::Settled
            },
            TickEvent::NotPublished => {
                tick.pending = Pending::Nothing;
                TickAction::Settled
            },
            TickEvent::Destroyed(device) => {
                let action = match tick.pending {
                    Pending::Discarding(error) => TickAction::Fail(error),
                    _ => TickAction::Settled,
                };
                tick.pending = Pending::Nothing;
                self.pool.put_back(device);
                assert(held(*self, *tick) =~= held(*old(self), *old(tick)).add(returned(event)));
                action
            },
        }
    }

    /// Gives the next headset its turn.
    fn take_turn(&mut self, tick: &mut Tick<H>) -> (action: TickAction<H>)
        requires
            old(self).wf(),
            old(tick).wf(old(self).batteries@),
            old(tick).pending == Pending::Nothing,
            old(tick).at < old(tick).headsets.len(),
        ensures
            final(self).wf(),
            final(tick).wf(final(self).batteries@),
            final(self).config == old(self).config,
            final(self).source == old(self).source,
            final(self).probe_failing == old(self).probe_failing,
            final(self).last_summary == old(self).last_summary,
            turn_taken(*old(self), *old(tick), *final(self), *final(tick), action),
            held(*final(self), *final(tick)).add(lent(action)) == held(*old(self), *old(tick)),
    {
        let index: usize = tick.at;
        tick.at = index + 1;
        let step = self.apply(&tick.headsets[index], tick.now);
        let ghost taken = step;
        proof {
            assert(old(self).batteries.len() <= usize::MAX);
            lemma_applied(
                old(self).batteries@,
                old(tick).headsets@[index as int],
                tick.now,
                self.batteries@,
                step,
            );
        }
        let action = match step {
            Step::Skip => TickAction::Skip,
            Step::NoLevelYet => TickAction::NoLevelYet,
            Step::Rest => TickAction::Rest,
            Step::Hold { index } => TickAction::Hold(index),
            Step::Publish { index, percent, charging, said } => {
                tick.pending = Pending::Publishing { index, percent, charging };
                TickAction::Publish { index, percent, charging, said }
            },
            Step::Withdraw(battery) => {
                tick.pending = Pending::Withdrawing;
                TickAction::Destroy {
                    device: battery.device,
                    name: battery.name,
                    why: Reason::Off,
                }
            },
            Step::Attach { percent, charging } => match self.pool.acquire() {
                Acquired::Spare(device) => {
                    assert(self.pool.spare@ =~= old(self).pool.spare@.drop_last());
                    tick.pending = Pending::Creating { percent, charging };
                    let params = bridge::identity(&tick.headsets[index]);
                    TickAction::Create { device, params, percent, charging }
                },
                Acquired::Open(path) => {
                    tick.pending = Pending::Opening { percent, charging };
                    TickAction::Open(path)
                },
                Acquired::Exhausted => TickAction::Fail(AttachError::OutOfDescriptors),
            },
        };
        proof {
            assert(bridge::applied(
                old(self).batteries@,
                old(tick).headsets@[index as int],
                old(tick).now,
                self.batteries@,
                taken,
            ));
            lemma_turn(*old(self), *old(tick), *self, *tick, action, taken);
        }
        action
    }

    /// Takes out what has outlived its grace, and has it destroyed one by one.
    fn sweep(&mut self, tick: &mut Tick<H>) -> (action: TickAction<H>)
        requires
            old(self).wf(),
            old(tick).wf(old(self).batteries@),
            old(tick).pending == Pending::Nothing,
            old(tick).at == old(tick).headsets@.len(),
        ensures
            final(self).wf(),
            final(tick).wf(final(self).batteries@),
            final(self).config == old(self).config,
            final(self).source == old(self).source,
            final(self).probe_failing == old(self).probe_failing,
            final(self).last_summary == old(self).last_summary,
            sweep_taken(*old(self), *old(tick), *final(self), *final(tick), action),
            held(*final(self), *final(tick)).add(lent(action)) == held(*old(self), *old(tick)),
    {
        broadcast use vstd::seq_lib::group_to_multiset_ensures;

        if !tick.swept {
            tick.gone = self.expire(tick.now);
            tick.swept = true;
            proof {
                bridge::law_expiry_loses_no_handle(
                    old(self).batteries@,
                    old(self).config,
                    tick.now,
                );
                assert(bridge::freed(old(tick).gone@) =~= Seq::<H>::empty());
                assert(Seq::<H>::empty().to_multiset().len() == 0);
                assert(held(*self, *tick) =~= held(*old(self), *old(tick)));
            }
        }
        if tick.gone.len() > 0 {
            let ghost gone = tick.gone@;
            let ghost whole = held(*self, *tick);
            let out = tick.gone.remove(0);
            proof {
                assert(gone.remove(0) =~= gone.drop_first());
                assert(bridge::freed(tick.gone@) =~= bridge::freed(gone).remove(0));
                assert(bridge::freed(gone)[0] == out.battery.device);
                assert(bridge::freed(gone).to_multiset().count(out.battery.device) > 0) by {
                    assert(bridge::freed(gone).contains(bridge::freed(gone)[0]));
                }
                assert(held(*self, *tick).add(Multiset::singleton(out.battery.device)) =~= whole);
            }
            tick.pending = Pending::Withdrawing;
            TickAction::Destroy {
                device: out.battery.device,
                name: out.battery.name,
                why: Reason::Expired(out.why),
            }
        } else {
            TickAction::Done { unanswered: self.unanswered(tick.now) }
        }
    }
}

/// A turn moves no handle but the one its action hands out.
proof fn lemma_turn<F, H>(
    before: Bridge<F, H>,
    tick: Tick<H>,
    after: Bridge<F, H>,
    next: Tick<H>,
    action: TickAction<H>,
    step: Step<H>,
)
    requires
        next.gone == tick.gone,
        match step {
            Step::Withdraw(battery) => {
                &&& after.pool == before.pool
                &&& lent(action) == Multiset::singleton(battery.device)
                &&& bridge::devices(before.batteries@).to_multiset() == bridge::devices(
                    after.batteries@,
                ).to_multiset().insert(battery.device)
            },
            Step::Attach { .. } => {
                &&& bridge::devices(after.batteries@) == bridge::devices(before.batteries@)
                &&& if before.pool.spare@.len() > 0 {
                    &&& after.pool.spare@ == before.pool.spare@.drop_last()
                    &&& lent(action) == Multiset::singleton(before.pool.spare@.last())
                } else {
                    &&& after.pool.spare@ == before.pool.spare@
                    &&& lent(action) == Multiset::<H>::empty()
                }
            },
            _ => {
                &&& after.pool == before.pool
                &&& lent(action) == Multiset::<H>::empty()
                &&& bridge::devices(after.batteries@) == bridge::devices(before.batteries@)
            },
        },
    ensures
        held(after, next).add(lent(action)) == held(before, tick),
{
    broadcast use vstd::seq_lib::group_to_multiset_ensures;

    let spare = before.pool.spare@;
    if step is Attach && spare.len() > 0 {
        assert(spare.drop_last().push(spare.last()) =~= spare);
    }
    assert(held(after, next).add(lent(action)) =~= held(before, tick));
}

/// What a headset's report does to the handles behind the batteries: none of
/// them moves, except that of a battery that is withdrawn.
proof fn lemma_applied<H>(
    before: Seq<VirtualBattery<H>>,
    found: Headset,
    now: Instant,
    after: Seq<VirtualBattery<H>>,
    step: Step<H>,
)
    requires
        bridge::applied(before, found, now, after, step),
        before.len() <= usize::MAX,
    ensures
        match step {
            Step::Withdraw(battery) => bridge::devices(before).to_multiset() == bridge::devices(
                after,
            ).to_multiset().insert(battery.device),
            Step::Publish { index, .. } => index < after.len() && bridge::devices(after)
                == bridge::devices(before),
            Step::Attach { .. } => bridge::is_absent(after, bridge::key_of(found))
                && bridge::devices(after) == bridge::devices(before),
            _ => bridge::devices(after) == bridge::devices(before),
        },
{
    broadcast use vstd::seq_lib::group_to_multiset_ensures;

    let key = bridge::key_of(found);
    if found.supports_battery && !bridge::is_absent(before, key) {
        let i = choose|i: int| 0 <= i < before.len() && (#[trigger] before[i]).key@ == key;
        assert(bridge::stands_at(before, key, i));
        assert(bridge::updated(before, i, found, now, after, step));
        if let Step::Withdraw(battery) = step {
            assert(bridge::devices(after) =~= bridge::devices(before).remove(i));
            assert(bridge::devices(before)[i] == battery.device);
            assert(bridge::devices(before).contains(bridge::devices(before)[i]));
            assert(bridge::devices(before).to_multiset() =~= bridge::devices(
                after,
            ).to_multiset().insert(battery.device));
        } else {
            assert(bridge::devices(after) =~= bridge::devices(before));
        }
    }
}

/// How much of a round is left at the most.
pub open spec fn work_left<H>(tick: Tick<H>, batteries: Seq<VirtualBattery<H>>) -> int {
    let pending: int = match tick.pending {
        Pending::Nothing => 0,
        Pending::Opening { .. } => 5,
        Pending::Creating { .. } => 4,
        Pending::Registering { .. } => 3,
        Pending::Discarding(_) => 1,
        Pending::Publishing { .. } => 1,
        Pending::Withdrawing => 1,
    };
    let to_sweep: int = if tick.swept {
        2 * tick.gone@.len() as int
    } else {
        2 * batteries.len() as int + 1
    };
    10 * (tick.headsets@.len() - tick.at) + to_sweep + pending
}

/// A round ends: whatever comes of its actions, every step leaves less of it to
/// do, until there is nothing left.
pub proof fn law_round_ends<F, H>(
    before: Bridge<F, H>,
    tick: Tick<H>,
    event: TickEvent<H>,
    after: Bridge<F, H>,
    next: Tick<H>,
    action: TickAction<H>,
)
    requires
        tick.wf(before.batteries@),
        next.wf(after.batteries@),
        answers(tick.pending, event),
        advanced(before, tick, event, after, next, action),
    ensures
        0 <= work_left(tick, before.batteries@),
        action is Done || work_left(next, after.batteries@) < work_left(tick, before.batteries@),
{
    if event is Next {
        if tick.at < tick.headsets@.len() {
            let found = tick.headsets@[tick.at as int];
            let step = choose|step: Step<H>| #[trigger]
                bridge::applied(before.batteries@, found, tick.now, after.batteries@, step);
            let key = bridge::key_of(found);
            if found.supports_battery && !bridge::is_absent(before.batteries@, key) {
                let i = choose|i: int|
                    0 <= i < before.batteries@.len() && (#[trigger] before.batteries@[i]).key@
                        == key;
                assert(bridge::stands_at(before.batteries@, key, i));
                assert(bridge::updated(
                    before.batteries@,
                    i,
                    found,
                    tick.now,
                    after.batteries@,
                    step,
                ));
            }
            assert(after.batteries@.len() <= before.batteries@.len());
        } else if !tick.swept {
            bridge::lemma_kept_len(before.batteries@, before.config, tick.now);
        }
    }
}

/// Whether one of the first `upto` headsets has that key, and says something
/// about its battery.
pub open spec fn is_heard(headsets: Seq<Headset>, upto: int, key: Seq<char>) -> bool {
    exists|i: int|
        0 <= i < upto && bridge::key_of(#[trigger] headsets[i]) == key && bridge::is_answering(
            headsets[i],
        )
}

/// Whether the batteries read in this round are those of the headsets that
/// answered in it so far.
pub open spec fn is_accounted_for<H>(tick: Tick<H>, batteries: Seq<VirtualBattery<H>>) -> bool {
    &&& forall|i: int|
        0 <= i < batteries.len() ==> ((#[trigger] batteries[i]).entry.last_reading == tick.now
            <==> is_heard(tick.headsets@, tick.at as int, batteries[i].key@))
    &&& tick.is_attaching() ==> bridge::is_answering(tick.headsets@[tick.at - 1])
}

/// A round, step by step: each event takes the bridge and the round from where
/// they stand to where they stand next, with that action.
pub open spec fn is_run<F, H>(
    daemons: Seq<Bridge<F, H>>,
    ticks: Seq<Tick<H>>,
    events: Seq<TickEvent<H>>,
    actions: Seq<TickAction<H>>,
) -> bool {
    &&& daemons.len() == events.len() + 1
    &&& ticks.len() == events.len() + 1
    &&& actions.len() == events.len()
    &&& forall|i: int|
        #![trigger events[i]]
        0 <= i < events.len() ==> {
            &&& daemons[i].wf()
            &&& ticks[i].wf(daemons[i].batteries@)
            &&& answers(ticks[i].pending, events[i])
            &&& advanced(
                daemons[i],
                ticks[i],
                events[i],
                daemons[i + 1],
                ticks[i + 1],
                actions[i],
            )
        }
}

/// A battery counts as heard after one more headset exactly if it did before, or
/// that headset is its own and answered.
proof fn lemma_heard(headsets: Seq<Headset>, upto: int, key: Seq<char>)
    requires
        0 <= upto < headsets.len(),
    ensures
        is_heard(headsets, upto + 1, key) <==> is_heard(headsets, upto, key) || (bridge::key_of(
            headsets[upto],
        ) == key && bridge::is_answering(headsets[upto])),
{
    if is_heard(headsets, upto + 1, key) {
        let i = choose|i: int|
            0 <= i < upto + 1 && bridge::key_of(#[trigger] headsets[i]) == key
                && bridge::is_answering(headsets[i]);
        assert(i < upto || i == upto);
    }
}

/// A headset's turn leaves the batteries accounted for.
proof fn lemma_turn_is_accounted_for<F, H>(
    before: Bridge<F, H>,
    tick: Tick<H>,
    after: Bridge<F, H>,
    next: Tick<H>,
    action: TickAction<H>,
)
    requires
        before.wf(),
        tick.at < tick.headsets@.len(),
        tick.pending == Pending::Nothing,
        turn_taken(before, tick, after, next, action),
        is_accounted_for(tick, before.batteries@),
    ensures
        is_accounted_for(next, after.batteries@),
{
    let found = tick.headsets@[tick.at as int];
    let key = bridge::key_of(found);
    let all = before.batteries@;
    let rest = after.batteries@;
    let step = choose|step: Step<H>| #[trigger]
        bridge::applied(all, found, tick.now, rest, step) && (step is Attach || !next.is_attaching());
    assert(bridge::applied(all, found, tick.now, rest, step));
    if found.supports_battery && !bridge::is_absent(all, key) {
        let own = choose|i: int| 0 <= i < all.len() && (#[trigger] all[i]).key@ == key;
        assert(bridge::stands_at(all, key, own));
        assert(bridge::updated(all, own, found, tick.now, rest, step));
        assert forall|i: int| 0 <= i < rest.len() implies ((
        #[trigger] rest[i]).entry.last_reading == next.now <==> is_heard(
            next.headsets@,
            next.at as int,
            rest[i].key@,
        )) by {
            lemma_heard(tick.headsets@, tick.at as int, rest[i].key@);
            let place = if rest.len() < all.len() && i >= own {
                i + 1
            } else {
                i
            };
            assert(rest[i].key@ == all[place].key@);
            if place != own {
                assert(rest[i] == all[place]);
                if place < own {
                    assert(all[place].key@ != all[own].key@);
                } else {
                    assert(all[own].key@ != all[place].key@);
                }
            }
        }
    } else {
        assert(rest == all);
        assert forall|i: int| 0 <= i < rest.len() implies ((
        #[trigger] rest[i]).entry.last_reading == next.now <==> is_heard(
            next.headsets@,
            next.at as int,
            rest[i].key@,
        )) by {
            lemma_heard(tick.headsets@, tick.at as int, rest[i].key@);
            assert(all[i] == rest[i]);
        }
    }
}

/// Every step of a round leaves the batteries accounted for.
proof fn lemma_step_is_accounted_for<F, H>(
    before: Bridge<F, H>,
    tick: Tick<H>,
    event: TickEvent<H>,
    after: Bridge<F, H>,
    next: Tick<H>,
    action: TickAction<H>,
)
    requires
        before.wf(),
        tick.wf(before.batteries@),
        answers(tick.pending, event),
        advanced(before, tick, event, after, next, action),
        is_accounted_for(tick, before.batteries@),
    ensures
        is_accounted_for(next, after.batteries@),
        next.headsets == tick.headsets,
        next.now == tick.now,
{
    let all = before.batteries@;
    let rest = after.batteries@;
    match event {
        TickEvent::Next => {
            if tick.at < tick.headsets@.len() {
                lemma_turn_is_accounted_for(before, tick, after, next, action);
            } else if !tick.swept {
                assert forall|i: int| 0 <= i < rest.len() implies ((
                #[trigger] rest[i]).entry.last_reading == next.now <==> is_heard(
                    next.headsets@,
                    next.at as int,
                    rest[i].key@,
                )) by {
                    let place = bridge::lemma_kept(all, before.config, tick.now, i);
                    assert(all[place] == rest[i]);
                }
            }
        },
        TickEvent::Registered(_) => {
            assert forall|i: int| 0 <= i < rest.len() implies ((
            #[trigger] rest[i]).entry.last_reading == next.now <==> is_heard(
                next.headsets@,
                next.at as int,
                rest[i].key@,
            )) by {
                if i < all.len() {
                    assert(rest.drop_last()[i] == rest[i]);
                    assert(all[i] == rest[i]);
                } else {
                    assert(rest[i] == rest.last());
                    assert(bridge::key_of(tick.headsets@[tick.at - 1]) == rest[i].key@);
                }
            }
        },
        TickEvent::Published => {
            assert forall|i: int| 0 <= i < rest.len() implies ((
            #[trigger] rest[i]).entry.last_reading == next.now <==> is_heard(
                next.headsets@,
                next.at as int,
                rest[i].key@,
            )) by {
                assert(rest[i].key@ == all[i].key@ && rest[i].entry.last_reading
                    == all[i].entry.last_reading);
            }
        },
        _ => {},
    }
}

proof fn lemma_run_is_accounted_for<F, H>(
    daemons: Seq<Bridge<F, H>>,
    ticks: Seq<Tick<H>>,
    events: Seq<TickEvent<H>>,
    actions: Seq<TickAction<H>>,
    upto: int,
)
    requires
        is_run(daemons, ticks, events, actions),
        is_accounted_for(ticks[0], daemons[0].batteries@),
        0 <= upto <= events.len(),
    ensures
        is_accounted_for(ticks[upto], daemons[upto].batteries@),
        ticks[upto].headsets == ticks[0].headsets,
        ticks[upto].now == ticks[0].now,
    decreases upto,
{
    if upto > 0 {
        lemma_run_is_accounted_for(daemons, ticks, events, actions, upto - 1);
        let last = events[upto - 1];
        lemma_step_is_accounted_for(
            daemons[upto - 1],
            ticks[upto - 1],
            last,
            daemons[upto],
            ticks[upto],
            actions[upto - 1],
        );
    }
}

/// A round that begins with no battery read at its moment calls for a prompt
/// retry exactly if it leaves a battery whose headset did not answer in it:
/// none of the headsets of that key supports a battery and is discharging or
/// charging. Whatever came of the actions on the way makes no difference.
pub proof fn law_round_tells_who_did_not_answer<F, H>(
    daemons: Seq<Bridge<F, H>>,
    ticks: Seq<Tick<H>>,
    events: Seq<TickEvent<H>>,
    actions: Seq<TickAction<H>>,
)
    requires
        is_run(daemons, ticks, events, actions),
        events.len() > 0,
        actions.last() is Done,
        ticks[0].at == 0,
        ticks[0].pending == Pending::Nothing,
        forall|i: int|
            0 <= i < daemons[0].batteries@.len() ==> (
            #[trigger] daemons[0].batteries@[i]).entry.last_reading != ticks[0].now,
    ensures
        ({
            let left = daemons.last().batteries@;
            let headsets = ticks[0].headsets@;
            actions.last() == (TickAction::<H>::Done {
                unanswered: exists|i: int|
                    0 <= i < left.len() && !is_heard(
                        headsets,
                        headsets.len() as int,
                        (#[trigger] left[i]).key@,
                    ),
            })
        }),
{
    let count = events.len() as int;
    let headsets = ticks[0].headsets@;
    assert(is_accounted_for(ticks[0], daemons[0].batteries@));
    lemma_run_is_accounted_for(daemons, ticks, events, actions, count);
    lemma_run_is_accounted_for(daemons, ticks, events, actions, count - 1);
    let last = events[count - 1];
    let left = daemons[count].batteries@;
    assert(last is Next && ticks[count - 1].at == headsets.len());
    assert(ticks[count].at == headsets.len());
    let unanswered = exists|i: int|
        0 <= i < left.len() && !is_heard(headsets, headsets.len() as int, (#[trigger] left[i]).key@);
    assert(bridge::is_unanswered(left, ticks[0].now) == unanswered) by {
        if bridge::is_unanswered(left, ticks[0].now) {
            let i = choose|i: int|
                0 <= i < left.len() && (#[trigger] left[i]).entry.last_reading != ticks[0].now;
            assert(!is_heard(headsets, headsets.len() as int, left[i].key@));
        }
        if unanswered {
            let i = choose|i: int|
                0 <= i < left.len() && !is_heard(
                    headsets,
                    headsets.len() as int,
                    (#[trigger] left[i]).key@,
                );
            assert(left[i].entry.last_reading != ticks[0].now);
        }
    }
}

/// After a level was published, the battery it was published on has exactly that
/// level and that charging flag, charging or not, and every other battery is as
/// it was; after one that could not be, so is that battery.
pub proof fn law_published_level_is_kept<F, H>(
    before: Bridge<F, H>,
    tick: Tick<H>,
    after: Bridge<F, H>,
    next: Tick<H>,
    action: TickAction<H>,
    index: usize,
    percent: u8,
    charging: bool,
)
    requires
        tick.wf(before.batteries@),
        tick.pending == (Pending::Publishing { index, percent, charging }),
    ensures
        advanced(before, tick, TickEvent::Published, after, next, action) ==> {
            &&& after.batteries@.len() == before.batteries@.len()
            &&& after.batteries@[index as int].entry.percent == percent
            &&& after.batteries@[index as int].entry.charging == charging
            &&& after.batteries@[index as int].entry.last_reading
                == before.batteries@[index as int].entry.last_reading
            &&& after.batteries@[index as int].entry.last_seen
                == before.batteries@[index as int].entry.last_seen
            &&& after.batteries@[index as int].entry.deferred
                == before.batteries@[index as int].entry.deferred
            &&& after.batteries@[index as int].key == before.batteries@[index as int].key
            &&& after.batteries@[index as int].device == before.batteries@[index as int].device
            &&& forall|i: int|
                0 <= i < before.batteries@.len() && i != index ==> #[trigger] after.batteries@[i]
                    == before.batteries@[i]
        },
        advanced(before, tick, TickEvent::NotPublished, after, next, action) ==> after.batteries@
            == before.batteries@,
{
    bridge::law_published_level_is_known(before.batteries@, index as int, percent, charging);
}

/// A headset's turn and what came of it leave its battery with what a report
/// leaves in an entry: with the level published, if that went through, and
/// without, if it did not.
pub proof fn law_turn_agrees_with_its_report<F, H>(
    before: Bridge<F, H>,
    tick: Tick<H>,
    between: Bridge<F, H>,
    waiting: Tick<H>,
    asked: TickAction<H>,
    went_through: bool,
    after: Bridge<F, H>,
    next: Tick<H>,
    settled: TickAction<H>,
    index: usize,
)
    requires
        before.wf(),
        before.batteries@.len() <= usize::MAX,
        tick.at < tick.headsets@.len(),
        index < before.batteries@.len(),
        before.batteries@[index as int].key@ == bridge::key_of(tick.headsets@[tick.at as int]),
        tick.headsets@[tick.at as int].supports_battery,
        advanced(before, tick, TickEvent::Next, between, waiting, asked),
        waiting.pending is Publishing,
        advanced(
            between,
            waiting,
            if went_through {
                TickEvent::Published
            } else {
                TickEvent::NotPublished
            },
            after,
            next,
            settled,
        ),
    ensures
        after.batteries@.len() == before.batteries@.len(),
        after.batteries@[index as int].entry == bridge::entry::after_one(
            before.batteries@[index as int].entry,
            bridge::entry::Report {
                state: tick.headsets@[tick.at as int].battery,
                sample: tick.headsets@[tick.at as int].sample,
                now: tick.now,
                went_through,
            },
        ),
        after.batteries@[index as int].key == before.batteries@[index as int].key,
        after.batteries@[index as int].device == before.batteries@[index as int].device,
        forall|i: int|
            0 <= i < before.batteries@.len() && i != index ==> #[trigger] after.batteries@[i]
                == before.batteries@[i],
{
    let found = tick.headsets@[tick.at as int];
    let all = before.batteries@;
    let step = choose|step: Step<H>| #[trigger]
        bridge::applied(all, found, tick.now, between.batteries@, step) && (step matches Step::Publish {
            index,
            percent,
            charging,
            said,
        } && waiting.pending == (Pending::Publishing { index, percent, charging }));
    assert(bridge::stands_at(all, bridge::key_of(found), index as int));
    assert(bridge::updated(all, index as int, found, tick.now, between.batteries@, step));
    bridge::law_batteries_agree_with_their_reports(
        all,
        index as int,
        found,
        tick.now,
        between.batteries@,
        step,
    );
}

/// What is waited for is answered by its own outcomes and no others.
pub proof fn law_only_its_own_outcome_is_an_answer<H>(pending: Pending, event: TickEvent<H>)
    ensures
        answers(pending, event) <==> match pending {
            Pending::Nothing => event is Next,
            Pending::Opening { .. } => event is Opened || event is NotOpened,
            Pending::Creating { .. } => event is Created || event is NotCreated,
            Pending::Registering { .. } => event is Registered || event is NotRegistered
                || event is WaitFailed,
            Pending::Discarding(_) => event is Destroyed,
            Pending::Publishing { .. } => event is Published || event is NotPublished,
            Pending::Withdrawing => event is Destroyed,
        },
{
}

/// On its way from the node to the power supply a new battery keeps its level
/// and its handle: the device is created for the headset whose turn it was, on
/// the handle that was opened, and the battery that is registered in the end
/// has that level, that charging flag and that handle.
pub proof fn law_new_battery_keeps_its_level_and_handle<F, H>(
    before: Bridge<F, H>,
    tick: Tick<H>,
    event: TickEvent<H>,
    after: Bridge<F, H>,
    next: Tick<H>,
    action: TickAction<H>,
    level: u8,
    plugged: bool,
    handle: H,
)
    requires
        tick.wf(before.batteries@),
        answers(tick.pending, event),
        advanced(before, tick, event, after, next, action),
    ensures
        tick.pending == (Pending::Opening { percent: level, charging: plugged }) && event
            == TickEvent::Opened(handle) ==> {
            &&& next.pending == (Pending::Creating { percent: level, charging: plugged })
            &&& action matches TickAction::Create { device, params, percent, charging }
            &&& device == handle && percent == level && charging == plugged
            &&& bridge::identifies(params, tick.headsets@[tick.at - 1])
        },
        tick.pending == (Pending::Creating { percent: level, charging: plugged }) && event
            == TickEvent::Created(handle) ==> {
            &&& next.pending == (Pending::Registering { percent: level, charging: plugged })
            &&& action matches TickAction::Wait { device, uniq, percent, charging }
            &&& device == handle && percent == level && charging == plugged
            &&& uniq@ == bridge::uniq_of(tick.headsets@[tick.at - 1])
        },
        tick.pending == (Pending::Registering { percent: level, charging: plugged }) && event
            == TickEvent::Registered(handle) ==> {
            let new = after.batteries@[before.batteries@.len() as int];
            &&& next.pending == Pending::Nothing && action is Attached
            &&& after.batteries@.len() == before.batteries@.len() + 1
            &&& new.entry.percent == level && new.entry.charging == plugged
            &&& new.device == handle
            &&& new.key@ == bridge::key_of(tick.headsets@[tick.at - 1])
            &&& new.entry.last_reading == tick.now && new.entry.last_seen == tick.now
        },
{
}

/// A device that came to nothing is destroyed and its handle kept, and the
/// headset it was for goes without, each failure told by its name; until then
/// no battery changes.
pub proof fn law_failed_battery_gives_its_handle_back<F, H>(
    before: Bridge<F, H>,
    tick: Tick<H>,
    event: TickEvent<H>,
    after: Bridge<F, H>,
    next: Tick<H>,
    action: TickAction<H>,
    handle: H,
    error: AttachError,
)
    requires
        tick.wf(before.batteries@),
        answers(tick.pending, event),
        advanced(before, tick, event, after, next, action),
    ensures
        event == TickEvent::NotCreated(handle) ==> after.pool.spare@ == before.pool.spare@.push(
            handle,
        ) && action == TickAction::<H>::Fail(AttachError::NotCreated) && next.pending
            == Pending::Nothing,
        event is NotOpened ==> after.pool == before.pool && action == TickAction::<H>::Fail(
            AttachError::NotOpened,
        ) && next.pending == Pending::Nothing,
        event == TickEvent::NotRegistered(handle) ==> next.pending == Pending::Discarding(
            AttachError::NoSupply,
        ) && (action matches TickAction::Destroy { device, name, why } && device == handle && why
            == Reason::Useless(AttachError::NoSupply)),
        event == TickEvent::WaitFailed(handle) ==> next.pending == Pending::Discarding(
            AttachError::WaitFailed,
        ) && (action matches TickAction::Destroy { device, name, why } && device == handle && why
            == Reason::Useless(AttachError::WaitFailed)),
        event == TickEvent::Destroyed(handle) ==> after.pool.spare@ == before.pool.spare@.push(
            handle,
        ) && next.pending == Pending::Nothing,
        event is Destroyed && tick.pending == Pending::Discarding(error) ==> action
            == TickAction::<H>::Fail(error),
        event is Destroyed && tick.pending == Pending::Withdrawing ==> action is Settled,
        event is NotCreated || event is NotOpened || event is NotRegistered || event is WaitFailed
            || event is Destroyed ==> after.batteries@ == before.batteries@,
{
}

/// Once every headset has had its turn, the batteries that have outlived their
/// grace go, one at a time and in order, each told by its reason; the round is
/// over when none is left.
pub proof fn law_outlived_batteries_go_in_order<F, H>(
    before: Bridge<F, H>,
    tick: Tick<H>,
    after: Bridge<F, H>,
    next: Tick<H>,
    action: TickAction<H>,
)
    requires
        tick.wf(before.batteries@),
        tick.at == tick.headsets@.len(),
        advanced(before, tick, TickEvent::Next, after, next, action),
    ensures
        ({
            let gone = if tick.swept {
                tick.gone@
            } else {
                bridge::expired(before.batteries@, before.config, tick.now)
            };
            &&& next.swept
            &&& gone.len() > 0 ==> (action matches TickAction::Destroy { device, name, why }
                && device == gone[0].battery.device && name == gone[0].battery.name && why
                == Reason::Expired(gone[0].why) && next.gone@ == gone.skip(1))
            &&& gone.len() == 0 <==> action is Done
            &&& !tick.swept ==> after.batteries@ == bridge::kept(
                before.batteries@,
                before.config,
                tick.now,
            )
            &&& tick.swept ==> after.batteries@ == before.batteries@
        }),
{
    let gone = if tick.swept {
        tick.gone@
    } else {
        bridge::expired(before.batteries@, before.config, tick.now)
    };
    if gone.len() > 0 {
        assert(gone.drop_first() =~= gone.skip(1));
    }
}

/// A headset without a battery to report is passed over on its turn, and one that
/// has none of its own yet gets one exactly if it gives a level: on the spare
/// handle put back last, on one to be opened where that is allowed, and not at
/// all where it is not. Either way no battery changes on that turn.
pub proof fn law_new_headset_is_given_a_battery<F, H>(
    before: Bridge<F, H>,
    tick: Tick<H>,
    after: Bridge<F, H>,
    next: Tick<H>,
    action: TickAction<H>,
    level: u8,
    plugged: bool,
)
    requires
        tick.at < tick.headsets@.len(),
        advanced(before, tick, TickEvent::Next, after, next, action),
    ensures
        ({
            let found = tick.headsets@[tick.at as int];
            let new = found.supports_battery && bridge::is_absent(
                before.batteries@,
                bridge::key_of(found),
            );
            let gives = (plugged && found.battery == crate::headset::BatteryState::Charging(Some(level))) || (
            !plugged && found.battery == crate::headset::BatteryState::Discharging(level));
            let spare = before.pool.spare@;
            &&& next.at == tick.at + 1 && next.now == tick.now && next.headsets == tick.headsets
            &&& !found.supports_battery ==> action is Skip && next.pending == Pending::Nothing
                && after.batteries@ == before.batteries@ && after.pool == before.pool
            &&& new && found.battery == crate::headset::BatteryState::Charging(None) ==> action is NoLevelYet
                && next.pending == Pending::Nothing && after.batteries@ == before.batteries@
            &&& new && (found.battery is Unavailable || found.battery is Disconnected) ==> action is Rest
                && next.pending == Pending::Nothing && after.batteries@ == before.batteries@
            &&& new && gives ==> after.batteries@ == before.batteries@
            &&& new && gives && spare.len() > 0 ==> after.pool.spare@ == spare.drop_last()
                && next.pending == (Pending::Creating { percent: level, charging: plugged }) && (
            action matches TickAction::Create { device, params, percent, charging } && device
                == spare.last() && percent == level && charging == plugged && bridge::identifies(
                params,
                found,
            ))
            &&& new && gives && spare.len() == 0 && before.pool.may_open ==> next.pending == (
            Pending::Opening { percent: level, charging: plugged }) && (
            action matches TickAction::Open(path) && path@ == before.pool.path@)
            &&& new && gives && spare.len() == 0 && !before.pool.may_open ==> next.pending
                == Pending::Nothing && action == TickAction::<H>::Fail(
                AttachError::OutOfDescriptors,
            )
        }),
{
}

/// A headset that has a battery has its turn decided by what its report calls
/// for: a level is published at the place of that battery, as loudly as it is
/// news, an implausible one is held, a headset that says it is off has its
/// device destroyed, and silence is left alone. No handle is taken for it.
pub proof fn law_known_headset_has_its_report_followed<F, H>(
    before: Bridge<F, H>,
    tick: Tick<H>,
    after: Bridge<F, H>,
    next: Tick<H>,
    action: TickAction<H>,
    at: usize,
)
    requires
        tick.at < tick.headsets@.len(),
        before.batteries@.len() <= usize::MAX,
        at < before.batteries@.len(),
        tick.headsets@[tick.at as int].supports_battery,
        before.batteries@[at as int].key@ == bridge::key_of(tick.headsets@[tick.at as int]),
        advanced(before, tick, TickEvent::Next, after, next, action),
    ensures
        ({
            let found = tick.headsets@[tick.at as int];
            let battery = before.batteries@[at as int];
            let (left, move_on) = bridge::entry::after_report(
                battery.entry,
                found.battery,
                found.sample,
                tick.now,
            );
            &&& after.pool == before.pool
            &&& found.battery is Unavailable ==> action is Rest && next.pending == Pending::Nothing
            &&& found.battery is Disconnected ==> next.pending == Pending::Withdrawing && (
            action matches TickAction::Destroy { device, name, why } && device == battery.device
                && name == battery.name && why == Reason::Off) && after.batteries@
                == before.batteries@.remove(at as int)
            &&& move_on is Hold ==> action == TickAction::<H>::Hold(at) && next.pending
                == Pending::Nothing
            &&& move_on matches bridge::entry::Move::Publish { percent, charging, said } ==> next.pending == (
            Pending::Publishing { index: at, percent, charging }) && action == (TickAction::<
                H,
            >::Publish { index: at, percent, charging, said })
            &&& !(found.battery is Disconnected) ==> after.batteries@.len()
                == before.batteries@.len() && after.batteries@[at as int].entry == left
        }),
{
    let found = tick.headsets@[tick.at as int];
    assert(bridge::stands_at(before.batteries@, bridge::key_of(found), at as int));
    assert(!bridge::is_absent(before.batteries@, bridge::key_of(found)));
}

/// A round knows no other headsets and no other moment than it began with, its
/// turns go one by one, what came of an action leaves the turn where it is, and
/// the node and the leave to open it stay as they were configured.
pub proof fn law_round_stays_its_course<F, H>(
    before: Bridge<F, H>,
    tick: Tick<H>,
    event: TickEvent<H>,
    after: Bridge<F, H>,
    next: Tick<H>,
    action: TickAction<H>,
)
    requires
        tick.wf(before.batteries@),
        answers(tick.pending, event),
        advanced(before, tick, event, after, next, action),
    ensures
        next.headsets == tick.headsets,
        next.now == tick.now,
        next.at == (if event is Next && tick.at < tick.headsets@.len() {
            tick.at + 1
        } else {
            tick.at as int
        }),
        !(event is Next) || tick.at < tick.headsets@.len() ==> next.swept == tick.swept && next.gone
            == tick.gone,
        after.pool.path == before.pool.path,
        after.pool.may_open == before.pool.may_open,
        event is Created || event is Opened || event is Registered || event is Published
            || event is NotPublished || event is NotRegistered || event is WaitFailed ==> after.pool
            == before.pool,
        event is Opened || event is Created ==> after.batteries@ == before.batteries@,
{
}

} // verus!
