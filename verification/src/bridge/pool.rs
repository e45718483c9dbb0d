//! The uhid handles at hand.

use vstd::prelude::*;

verus! {

/// What to say when every inherited descriptor is in use.
pub const OUT_OF_DESCRIPTORS: &'static str = "out of inherited /dev/uhid descriptors; pass another one with a second OpenFile=/dev/uhid:uhid line in the unit file";

/// Hands out uhid handles, reusing the ones the service manager passed.
#[derive(Debug)]
pub struct DevicePool<H> {
    /// Handles that back no device.
    pub spare: Vec<H>,
    /// Path of the device node.
    pub path: String,
    /// Whether opening the device node ourselves is allowed. It is not when
    /// systemd handed us descriptors: the node stays `root:root 0600` and the
    /// daemon has no business reaching for it.
    pub may_open: bool,
}

/// Where a handle comes from.
#[derive(Debug)]
pub enum Acquired<H> {
    /// One that was at hand.
    Spare(H),
    /// The node at that path has to be opened.
    Open(String),
    /// There is none left, and none to be had.
    Exhausted,
}

impl<H> DevicePool<H> {
    /// A pool of the handles that were inherited.
    pub fn new(inherited: Vec<H>, path: String) -> (pool: Self)
        ensures
            pool.spare == inherited,
            pool.path == path,
            pool.may_open == (inherited@.len() == 0),
    {
        let may_open = inherited.len() == 0;
        DevicePool { spare: inherited, path, may_open }
    }

    /// Takes a handle, or says how to come by one.
    pub fn acquire(&mut self) -> (acquired: Acquired<H>)
        ensures
            final(self).path == old(self).path,
            final(self).may_open == old(self).may_open,
            match acquired {
                Acquired::Spare(handle) => old(self).spare@ == final(self).spare@.push(handle),
                Acquired::Open(path) => old(self).spare@.len() == 0 && final(self).spare@
                    == old(self).spare@ && old(self).may_open && path@ == old(self).path@,
                Acquired::Exhausted => old(self).spare@.len() == 0 && final(self).spare@
                    == old(self).spare@ && !old(self).may_open,
            },
            (acquired is Spare) == (old(self).spare@.len() > 0),
    {
        if let Some(handle) = self.spare.pop() {
            assert(old(self).spare@ =~= self.spare@.push(handle));
            return Acquired::Spare(handle);
        }
        if self.may_open {
            Acquired::Open(self.path.clone())
        } else {
            Acquired::Exhausted
        }
    }

    /// Keeps a handle that backs no device any more: one passed by the service
    /// manager cannot be reopened, so losing it would leave the daemon unable
    /// to publish anything until it is restarted.
    pub fn put_back(&mut self, handle: H)
        ensures
            final(self).spare@ == old(self).spare@.push(handle),
            final(self).path == old(self).path,
            final(self).may_open == old(self).may_open,
    {
        self.spare.push(handle);
    }
}

} // verus!
