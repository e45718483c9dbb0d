//! Descriptors inherited from the service manager.
//!
//! The unit shipped with this project never grants the daemon access to
//! `/dev/uhid`. Instead systemd opens the node itself and passes the
//! descriptor down (`OpenFile=/dev/uhid:uhid`), which is what lets the process
//! run as an unprivileged `DynamicUser=` with no capabilities while the node
//! stays `root:root 0600`.
//!
//! This is the `sd_listen_fds()` protocol: the manager exports `LISTEN_PID`,
//! `LISTEN_FDS` and `LISTEN_FDNAMES`, and the descriptors start at
//! `SD_LISTEN_FDS_START`.

use vstd::prelude::*;
use crate::text;

verus! {

/// First descriptor number passed by the service manager.
pub const LISTEN_FDS_START: i32 = 3;

/// Name given to the `/dev/uhid` descriptor in the unit file.
pub const UHID_FD_NAME: &'static str = "uhid";

/// What the environment says about inherited descriptors.
#[derive(Debug, Clone, Copy, PartialEq, Eq, Structural)]
pub enum Inherited {
    /// Nothing usable: leave the environment as it is.
    Nothing,
    /// They are meant for the process of that number: take none, and clear the
    /// variables.
    Foreign(u32),
    /// That many are ours to take.
    Count(i32),
}

/// What the environment says, the variables holding those texts.
pub open spec fn inherited(listen_pid: Option<Seq<char>>, own_pid: u32, listen_fds: Option<Seq<char>>) -> Inherited {
    match listen_pid {
        None => Inherited::Nothing,
        Some(pid) => match text::parsed(pid, 10, u32::MAX as nat) {
            None => Inherited::Nothing,
            Some(number) => if number != own_pid {
                Inherited::Foreign(number as u32)
            } else {
                match listen_fds {
                    None => Inherited::Nothing,
                    Some(fds) => match text::parsed(fds, 10, i32::MAX as nat) {
                        Some(count) if count > 0 => Inherited::Count(count as i32),
                        _ => Inherited::Nothing,
                    },
                }
            },
        },
    }
}

/// The text behind a view, if there is one.
pub open spec fn view_of(value: Option<&str>) -> Option<Seq<char>> {
    match value {
        Some(said) => Some(said@),
        None => None,
    }
}

/// How many descriptors the service manager passed to the process numbered
/// `own_pid`, `listen_pid` and `listen_fds` being the values of `LISTEN_PID` and
/// `LISTEN_FDS` where they are set.
pub fn listen_fds_count(listen_pid: Option<&str>, own_pid: u32, listen_fds: Option<&str>) -> (count:
    Inherited)
    ensures
        count == inherited(view_of(listen_pid), own_pid, view_of(listen_fds)),
{
    let pid = match listen_pid {
        Some(pid) => pid,
        None => return Inherited::Nothing,
    };
    let number: u32 = match text::parse_number(pid, 10, u32::MAX) {
        Some(number) => number,
        None => return Inherited::Nothing,
    };
    if number != own_pid {
        return Inherited::Foreign(number);
    }
    let fds = match listen_fds {
        Some(fds) => fds,
        None => return Inherited::Nothing,
    };
    match text::parse_number(fds, 10, i32::MAX as u32) {
        Some(count) => if count > 0 {
            Inherited::Count(count as i32)
        } else {
            Inherited::Nothing
        },
        None => Inherited::Nothing,
    }
}

/// The name of the descriptor at that position; the manager need not name them
/// all.
pub open spec fn name_at(names: Seq<char>, offset: int) -> Seq<char> {
    let list = text::pieces(names, ':');
    if 0 <= offset < list.len() {
        list[offset]
    } else {
        Seq::empty()
    }
}

/// Which of the first `count` descriptors carry `name`, in order.
pub open spec fn named(count: int, names: Seq<char>, name: Seq<char>) -> Seq<i64>
    decreases count,
{
    if count <= 0 {
        Seq::empty()
    } else if name_at(names, count - 1) == name {
        named(count - 1, names, name).push((LISTEN_FDS_START + count - 1) as i64)
    } else {
        named(count - 1, names, name)
    }
}

/// The numbers of the descriptors the service manager passed for `name`, out of
/// `count` of them, `names` being the value of `LISTEN_FDNAMES`.
///
/// A number too large for a descriptor stands for one that cannot be there.
#[must_use]
pub fn take_fds(count: i32, names: &str, name: &str) -> (fds: Vec<i64>)
    ensures
        fds@ == named(count as int, names@, name@),
{
    let list = text::split(names, ':');
    let mut fds: Vec<i64> = Vec::new();
    let mut offset: i32 = 0;
    while offset < count
        invariant
            0 <= offset,
            count >= 0 ==> offset <= count,
            count < 0 ==> offset == 0,
            text::texts(list@) == text::pieces(names@, ':'),
            fds@ == named(offset as int, names@, name@),
        decreases count - offset,
    {
        let at: usize = offset as usize;
        assert(list@.len() == text::texts(list@).len());
        let matching = if at < list.len() {
            assert(text::texts(list@)[at as int] == list@[at as int]@);
            text::same(list[at], name)
        } else {
            text::same("", name)
        };
        proof {
            reveal_strlit("");
            assert(""@ =~= Seq::<char>::empty());
        }
        if matching {
            fds.push(LISTEN_FDS_START as i64 + offset as i64);
        }
        offset = offset + 1;
    }
    fds
}

/// Exactly the descriptors of that name are taken, each of them once: whatever
/// else the manager passed stays untouched.
pub proof fn law_only_named_descriptors_are_taken(count: int, names: Seq<char>, name: Seq<char>)
    requires
        count <= i32::MAX,
    ensures
        forall|fd: i64| #[trigger]
            named(count, names, name).contains(fd) <==> (LISTEN_FDS_START <= fd < LISTEN_FDS_START
                + count && name_at(names, fd - LISTEN_FDS_START) == name),
        named(count, names, name).no_duplicates(),
    decreases count,
{
    if count > 0 {
        law_only_named_descriptors_are_taken(count - 1, names, name);
        let rest = named(count - 1, names, name);
        let all = named(count, names, name);
        let top = (LISTEN_FDS_START + count - 1) as i64;
        assert(!rest.contains(top));
        assert forall|fd: i64| #[trigger] all.contains(fd) <==> (LISTEN_FDS_START <= fd
            < LISTEN_FDS_START + count && name_at(names, fd - LISTEN_FDS_START) == name) by {
            if name_at(names, count - 1) == name {
                assert(all == rest.push(top));
                if all.contains(fd) && fd != top {
                    let i = choose|i: int| 0 <= i < all.len() && all[i] == fd;
                    assert(rest[i] == fd);
                    assert(rest.contains(fd));
                }
                if rest.contains(fd) {
                    let i = choose|i: int| 0 <= i < rest.len() && rest[i] == fd;
                    assert(all[i] == fd);
                }
                assert(all[all.len() - 1] == top);
            }
            if LISTEN_FDS_START <= fd < LISTEN_FDS_START + count && fd != top {
                assert(rest.contains(fd) <==> name_at(names, fd - LISTEN_FDS_START) == name);
            }
        }
        assert forall|i: int, j: int| 0 <= i < all.len() && 0 <= j < all.len() && i != j implies all[i]
            != all[j] by {
            if name_at(names, count - 1) == name {
                if i < rest.len() {
                    assert(rest.contains(rest[i]));
                }
                if j < rest.len() {
                    assert(rest.contains(rest[j]));
                }
            }
        }
    }
}

/// A process whose own number `LISTEN_PID` spells is passed as many descriptors
/// as `LISTEN_FDS` spells, however many that is, and none if that is no number,
/// zero or more than a descriptor can be numbered.
pub proof fn law_descriptors_passed_are_counted(pid: Seq<char>, own_pid: u32, fds: Seq<char>, count:
    nat)
    requires
        text::parsed(pid, 10, 0xffff_ffff) == Some(own_pid as nat),
    ensures
        text::parsed(fds, 10, 0x7fff_ffff) == Some(count) && count >= 1 ==> inherited(
            Some(pid),
            own_pid,
            Some(fds),
        ) == Inherited::Count(count as i32),
        text::parsed(fds, 10, 0x7fff_ffff) is None ==> inherited(Some(pid), own_pid, Some(fds))
            == Inherited::Nothing,
        text::parsed(fds, 10, 0x7fff_ffff) == Some(0nat) ==> inherited(
            Some(pid),
            own_pid,
            Some(fds),
        ) == Inherited::Nothing,
        inherited(Some(pid), own_pid, None) == Inherited::Nothing,
        inherited(Some(pid), own_pid, Some(text::decimal(count))) == (if 1 <= count <= 0x7fff_ffff {
            Inherited::Count(count as i32)
        } else {
            Inherited::Nothing
        }),
{
    text::law_decimal_is_read_back(count, 0x7fff_ffff);
}

/// Descriptors passed to another process are nobody's to take, whatever their
/// number; and without a process number there are none at all.
pub proof fn law_descriptors_of_another_are_left(pid: Seq<char>, own_pid: u32, other: u32, fds:
    Option<Seq<char>>)
    ensures
        other != own_pid && text::parsed(pid, 10, 0xffff_ffff) == Some(other as nat) ==> inherited(
            Some(pid),
            own_pid,
            fds,
        ) == Inherited::Foreign(other),
        other != own_pid ==> inherited(Some(text::decimal(other as nat)), own_pid, fds)
            == Inherited::Foreign(other),
        text::parsed(pid, 10, 0xffff_ffff) is None ==> inherited(Some(pid), own_pid, fds)
            == Inherited::Nothing,
        inherited(None, own_pid, fds) == Inherited::Nothing,
{
    text::law_decimal_is_read_back(other as nat, 0xffff_ffff);
}

/// The descriptors are numbered from three on, in the order of their names, and
/// one beyond the names has none.
pub proof fn law_names_stand_for_descriptors(list: Seq<Seq<char>>, offset: int, name: Seq<char>,
    count: int)
    requires
        list.len() > 0,
        forall|i: int| 0 <= i < list.len() ==> !(#[trigger] list[i]).contains(':'),
        0 <= offset <= i32::MAX,
        count <= i32::MAX,
    ensures
        ({
            let names = text::joined(list, seq![':']);
            let taken = named(count, names, name);
            &&& taken.contains((3 + offset) as i64) <==> offset < count && (if offset < list.len() {
                list[offset] == name
            } else {
                name.len() == 0
            })
            &&& forall|i: int, j: int| 0 <= i < j < taken.len() ==> taken[i] < taken[j]
            &&& forall|i: int| 0 <= i < taken.len() ==> 3 <= #[trigger] taken[i] < 3 + count
        }),
    decreases count,
{
    let names = text::joined(list, seq![':']);
    let taken = named(count, names, name);
    text::law_joint_text_is_split_again(list, ':');
    law_only_named_descriptors_are_taken(count, names, name);
    if name.len() == 0 {
        assert(name =~= Seq::<char>::empty());
    }
    assert forall|i: int| 0 <= i < taken.len() implies 3 <= #[trigger] taken[i] < 3 + count by {
        assert(taken.contains(taken[i]));
    }
    if count > 0 {
        law_names_stand_for_descriptors(list, offset, name, count - 1);
    }
}

} // verus!
