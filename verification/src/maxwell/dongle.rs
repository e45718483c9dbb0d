//! Telling the dongles, and the headset on its cable, apart from everything
//! else that is plugged in.

use vstd::prelude::*;
use crate::maxwell::{self, PRODUCT_IDS, VENDOR_ID};
use crate::text;

verus! {

/// `BUS_USB`. The virtual battery this daemon creates carries the dongle's
/// vendor and product IDs too, on `BUS_VIRTUAL`, and has a hidraw node of its
/// own: without this check the reader would mistake it for a second dongle and
/// start sending it battery requests.
pub const BUS_USB: u16 = 0x0003;

/// A hidraw node as sysfs lists it.
#[derive(Debug, Clone, PartialEq, Eq)]
pub struct HidrawEntry {
    /// Name of the node.
    pub name: String,
    /// The `uevent` of the device behind it, if it could be read.
    pub uevent: Option<String>,
}

/// A USB device as sysfs lists it.
#[derive(Debug, Clone, PartialEq, Eq)]
pub struct UsbEntry {
    /// What `idVendor` holds, if it could be read.
    pub vendor: Option<String>,
    /// What `idProduct` holds, if it could be read.
    pub product: Option<String>,
}

/// A Maxwell dongle found in sysfs.
#[derive(Debug, Clone, PartialEq, Eq)]
pub struct Dongle {
    /// Path of its hidraw node.
    pub node: String,
    /// Its product name.
    pub product: String,
    /// Its product ID.
    pub product_id: u16,
}

/// What a [`Dongle`] says.
pub struct DongleView {
    /// Path of its hidraw node.
    pub node: Seq<char>,
    /// Its product name.
    pub product: Seq<char>,
    /// Its product ID.
    pub product_id: u16,
}

impl View for Dongle {
    type V = DongleView;

    open spec fn view(&self) -> DongleView {
        DongleView { node: self.node@, product: self.product@, product_id: self.product_id }
    }
}

/// What a list of dongles says.
pub open spec fn views(list: Seq<Dongle>) -> Seq<DongleView> {
    list.map_values(|dongle: Dongle| dongle@)
}

/// The value on a `key=value` line.
pub open spec fn value_on(line: Seq<char>, key: Seq<char>) -> Option<Seq<char>> {
    if text::begins_with(line, key) && text::begins_with(line.skip(key.len() as int), seq!['=']) {
        Some(line.skip(key.len() as int).skip(1))
    } else {
        None
    }
}

/// The value of `key` on the first of the lines that has one.
pub open spec fn value_in(lines: Seq<Seq<char>>, key: Seq<char>) -> Option<Seq<char>>
    decreases lines.len(),
{
    if lines.len() == 0 {
        None
    } else {
        match value_on(lines[0], key) {
            Some(value) => Some(value),
            None => value_in(lines.drop_first(), key),
        }
    }
}

/// What a HID device's `uevent` says of its bus, IDs and name.
pub struct UeventView {
    /// The bus.
    pub bus: u16,
    /// The vendor ID.
    pub vendor_id: u16,
    /// The product ID.
    pub product_id: u16,
    /// The product name.
    pub product: Seq<char>,
}

/// A 16-bit number in hexadecimal.
pub open spec fn hex_u16(digits: Seq<char>) -> Option<nat> {
    text::parsed(digits, 16, 0xffff)
}

/// What a HID device's `uevent` says, if it names the device at all.
pub open spec fn uevent_of(uevent: Seq<char>) -> Option<UeventView> {
    let lines = text::lines_of(uevent);
    match value_in(lines, "HID_ID"@) {
        None => None,
        Some(ids) => {
            let parts = text::pieces(ids, ':');
            if parts.len() < 3 {
                None
            } else {
                match (hex_u16(parts[0]), hex_u16(parts[1]), hex_u16(parts[2])) {
                    (Some(bus), Some(vendor), Some(product)) => Some(
                        UeventView {
                            bus: bus as u16,
                            vendor_id: vendor as u16,
                            product_id: product as u16,
                            product: match value_in(lines, "HID_NAME"@) {
                                Some(name) => name,
                                None => "Audeze Maxwell"@,
                            },
                        },
                    ),
                    _ => None,
                }
            }
        },
    }
}

/// The value of `key` on the first line that has one.
fn field<'a>(lines: &Vec<&'a str>, key: &str) -> (value: Option<&'a str>)
    ensures
        match value {
            Some(v) => value_in(text::texts(lines@), key@) == Some(v@),
            None => value_in(text::texts(lines@), key@) is None,
        },
{
    let ghost said = text::texts(lines@);
    let mut at: usize = 0;
    assert(said.skip(0) =~= said);
    while at < lines.len()
        invariant
            said == text::texts(lines@),
            at <= lines.len(),
            value_in(said, key@) == value_in(said.skip(at as int), key@),
        decreases lines.len() - at,
    {
        let line = lines[at];
        assert(said.skip(at as int)[0] == line@);
        assert(said.skip(at as int).drop_first() =~= said.skip(at + 1));
        proof {
            reveal_strlit("=");
            assert("="@ =~= seq!['=']);
        }
        if let Some(rest) = text::strip_prefix(line, key) {
            if let Some(value) = text::strip_prefix(rest, "=") {
                return Some(value);
            }
        }
        at = at + 1;
    }
    None
}

fn parse_hex_u16(digits: &str) -> (value: Option<u16>)
    ensures
        match value {
            Some(v) => hex_u16(digits@) == Some(v as nat),
            None => hex_u16(digits@) is None,
        },
{
    match text::parse_number(digits, 16, 0xffff) {
        Some(value) => Some(value as u16),
        None => None,
    }
}

/// Extracts the bus, the USB IDs and the product name from a HID device's
/// `uevent`.
///
/// The relevant lines look like `HID_ID=0003:00003329:00004B18` and
/// `HID_NAME=Audeze LLC Audeze Maxwell XBOX Dongle`.
pub fn parse_uevent(uevent: &str) -> (found: Option<(u16, u16, u16, String)>)
    ensures
        match found {
            Some((bus, vendor_id, product_id, product)) => uevent_of(uevent@) == Some(
                UeventView { bus, vendor_id, product_id, product: product@ },
            ),
            None => uevent_of(uevent@) is None,
        },
{
    let lines = text::lines(uevent);
    let ids = match field(&lines, "HID_ID") {
        Some(ids) => ids,
        None => {
            return None;
        },
    };
    let parts = text::split(ids, ':');
    let ghost said = text::texts(parts@);
    if parts.len() < 3 {
        return None;
    }
    assert(said[0] == parts@[0]@ && said[1] == parts@[1]@ && said[2] == parts@[2]@);
    let bus = parse_hex_u16(parts[0]);
    let vendor = parse_hex_u16(parts[1]);
    let product = parse_hex_u16(parts[2]);
    let name = match field(&lines, "HID_NAME") {
        Some(name) => name,
        None => "Audeze Maxwell",
    };
    match (bus, vendor, product) {
        (Some(bus), Some(vendor), Some(product)) => Some((bus, vendor, product, name.to_owned())),
        _ => None,
    }
}

/// The dongle behind a hidraw node, if there is one: on USB, with IDs this
/// reader knows.
#[verifier::opaque]
pub open spec fn recognised(entry: HidrawEntry) -> Option<DongleView> {
    match entry.uevent {
        None => None,
        Some(uevent) => match uevent_of(uevent@) {
            Some(said) => if said.bus == BUS_USB && maxwell::is_supported(
                said.vendor_id,
                said.product_id,
            ) {
                Some(
                    DongleView {
                        node: "/dev/"@ + entry.name@,
                        product: said.product,
                        product_id: said.product_id,
                    },
                )
            } else {
                None
            },
            None => None,
        },
    }
}

/// Where a dongle belongs among others sorted by node: after all those it does
/// not precede.
pub open spec fn place(list: Seq<DongleView>, node: Seq<char>) -> int
    decreases list.len(),
{
    if list.len() > 0 && text::before(node, list.last().node) {
        place(list.drop_last(), node)
    } else {
        list.len() as int
    }
}

/// The dongles behind those nodes, sorted by node.
pub open spec fn discovered(entries: Seq<HidrawEntry>) -> Seq<DongleView>
    decreases entries.len(),
{
    if entries.len() == 0 {
        Seq::empty()
    } else {
        let others = discovered(entries.drop_last());
        match recognised(entries.last()) {
            Some(dongle) => others.insert(place(others, dongle.node), dongle),
            None => others,
        }
    }
}

/// The dongle behind a hidraw node, if there is one.
fn recognise(entry: &HidrawEntry) -> (dongle: Option<Dongle>)
    ensures
        match dongle {
            Some(d) => recognised(*entry) == Some(d@),
            None => recognised(*entry) is None,
        },
{
    proof {
        reveal(recognised);
    }
    match &entry.uevent {
        None => None,
        Some(uevent) => match parse_uevent(uevent.as_str()) {
            Some((bus, vendor_id, product_id, product)) => {
                if bus == BUS_USB && maxwell::supports(vendor_id, product_id) {
                    let mut node = "/dev/".to_owned();
                    node.append(entry.name.as_str());
                    Some(Dongle { node, product, product_id })
                } else {
                    None
                }
            },
            None => None,
        },
    }
}

/// Lists the hidraw nodes that belong to a supported dongle, sorted by path.
pub fn discover(entries: &Vec<HidrawEntry>) -> (list: Vec<Dongle>)
    ensures
        views(list@) == discovered(entries@),
{
    let mut list: Vec<Dongle> = Vec::new();
    let mut at: usize = 0;
    assert(views(list@) =~= discovered(entries@.take(0)));
    while at < entries.len()
        invariant
            at <= entries.len(),
            views(list@) == discovered(entries@.take(at as int)),
        decreases entries.len() - at,
    {
        assert(entries@.take(at + 1).drop_last() =~= entries@.take(at as int));
        if let Some(dongle) = recognise(&entries[at]) {
            let ghost others = views(list@);
            let mut slot: usize = list.len();
            assert(others.take(slot as int) =~= others);
            while slot > 0 && text::precedes(dongle.node.as_str(), list[slot - 1].node.as_str())
                invariant
                    others == views(list@),
                    slot <= list.len(),
                    place(others, dongle.node@) == place(others.take(slot as int), dongle.node@),
                decreases slot,
            {
                assert(others.take(slot as int).drop_last() =~= others.take(slot - 1));
                assert(others.take(slot as int).last() == list@[slot - 1]@);
                slot = slot - 1;
            }
            assert(slot > 0 ==> others.take(slot as int).last() == list@[slot - 1]@);
            list.insert(slot, dongle);
            assert(views(list@) =~= others.insert(slot as int, dongle@));
        }
        at = at + 1;
    }
    assert(entries@.take(at as int) =~= entries@);
    list
}

/// A number in hexadecimal as sysfs writes it, white space around it.
pub open spec fn sysfs_id(raw: Option<String>) -> Option<nat> {
    match raw {
        Some(digits) => hex_u16(text::trimmed(digits@)),
        None => None,
    }
}

/// Whether a USB device is a Maxwell headset rather than one of its dongles.
pub open spec fn is_wired_headset(device: UsbEntry) -> bool {
    &&& sysfs_id(device.vendor) == Some(VENDOR_ID as nat)
    &&& sysfs_id(device.product) matches Some(product)
    &&& !PRODUCT_IDS@.contains(product as u16)
}

fn read_id(raw: &Option<String>) -> (id: Option<u16>)
    ensures
        match id {
            Some(v) => sysfs_id(*raw) == Some(v as nat),
            None => sysfs_id(*raw) is None,
        },
{
    match raw {
        Some(digits) => parse_hex_u16(text::trim(digits.as_str())),
        None => None,
    }
}

/// Whether a Maxwell headset is plugged into this computer with a cable, which
/// is the only evidence of charging there is.
///
/// Any Audeze device that is not one of the dongles counts: the Xbox headset
/// is `4b1e`, and the other variants have IDs of their own that are not worth
/// guessing at.
pub fn headset_is_wired(devices: &Vec<UsbEntry>) -> (wired: bool)
    ensures
        wired == exists|i: int| 0 <= i < devices@.len() && is_wired_headset(#[trigger] devices@[i]),
{
    let mut at: usize = 0;
    while at < devices.len()
        invariant
            at <= devices.len(),
            forall|i: int| 0 <= i < at ==> !is_wired_headset(#[trigger] devices@[i]),
        decreases devices.len() - at,
    {
        let device = &devices[at];
        let vendor = read_id(&device.vendor);
        let product = read_id(&device.product);
        proof {
            let ids = PRODUCT_IDS@;
            assert(ids[0] == 0x4b19 && ids[1] == 0x4b18);
        }
        if let (Some(vendor), Some(product)) = (vendor, product) {
            if vendor == VENDOR_ID && product != PRODUCT_IDS[0] && product != PRODUCT_IDS[1] {
                assert(is_wired_headset(devices@[at as int]));
                return true;
            }
        }
        at = at + 1;
    }
    false
}

/// Whether the list is sorted by node.
pub open spec fn sorted(list: Seq<DongleView>) -> bool {
    forall|i: int, j: int|
        0 <= i < j < list.len() ==> !text::before(#[trigger] list[j].node, #[trigger] list[i].node)
}

proof fn lemma_place(list: Seq<DongleView>, node: Seq<char>)
    requires
        sorted(list),
    ensures
        0 <= place(list, node) <= list.len(),
        forall|i: int|
            0 <= i < place(list, node) ==> !text::before(node, #[trigger] list[i].node),
        forall|i: int|
            place(list, node) <= i < list.len() ==> text::before(node, #[trigger] list[i].node),
    decreases list.len(),
{
    if list.len() > 0 && text::before(node, list.last().node) {
        lemma_place(list.drop_last(), node);
        assert forall|i: int| place(list, node) <= i < list.len() implies text::before(
            node,
            #[trigger] list[i].node,
        ) by {
            if i < list.len() - 1 {
                assert(list.drop_last()[i].node == list[i].node);
            }
        }
        assert forall|i: int| 0 <= i < place(list, node) implies !text::before(
            node,
            #[trigger] list[i].node,
        ) by {
            assert(list.drop_last()[i].node == list[i].node);
        }
    } else if list.len() > 0 {
        assert forall|i: int| 0 <= i < list.len() implies !text::before(
            node,
            #[trigger] list[i].node,
        ) by {
            if text::before(node, list[i].node) {
                text::lemma_before_total(list[i].node, list.last().node);
                if text::before(list[i].node, list.last().node) {
                    text::lemma_before_transitive(node, list[i].node, list.last().node);
                }
            }
        }
    }
}

/// A dongle put in its place leaves the list sorted, and holding all it held
/// and that dongle.
proof fn lemma_put_in_place(list: Seq<DongleView>, found: DongleView)
    requires
        sorted(list),
    ensures
        sorted(list.insert(place(list, found.node), found)),
        forall|dongle: DongleView| #[trigger]
            list.insert(place(list, found.node), found).contains(dongle) <==> dongle == found
                || list.contains(dongle),
{
    let slot = place(list, found.node);
    let all = list.insert(slot, found);
    lemma_place(list, found.node);
    assert forall|i: int, j: int| 0 <= i < j < all.len() implies !text::before(
        #[trigger] all[j].node,
        #[trigger] all[i].node,
    ) by {
        if j < slot {
            assert(all[i] == list[i] && all[j] == list[j]);
        } else if j == slot {
            assert(all[i] == list[i]);
        } else {
            assert(all[j] == list[j - 1]);
            if i < slot {
                assert(all[i] == list[i]);
            } else if i == slot {
                text::lemma_before_total(found.node, list[j - 1].node);
            } else {
                assert(all[i] == list[i - 1]);
            }
        }
    }
    assert(all[slot] == found);
    assert forall|dongle: DongleView| #[trigger] all.contains(dongle) <==> dongle == found
        || list.contains(dongle) by {
        if all.contains(dongle) && dongle != found {
            let k = choose|k: int| 0 <= k < all.len() && all[k] == dongle;
            if k < slot {
                assert(list[k] == dongle);
            } else {
                assert(list[k - 1] == dongle);
            }
        }
        if list.contains(dongle) {
            let k = choose|k: int| 0 <= k < list.len() && list[k] == dongle;
            if k < slot {
                assert(all[k] == dongle);
            } else {
                assert(all[k + 1] == dongle);
            }
        }
    }
}

/// The dongles found are sorted by path, and are those behind the nodes looked
/// at, each of them and no other.
pub proof fn law_discovery_is_complete_and_sorted(entries: Seq<HidrawEntry>)
    ensures
        sorted(discovered(entries)),
        forall|dongle: DongleView| #[trigger]
            discovered(entries).contains(dongle) <==> exists|i: int|
                0 <= i < entries.len() && #[trigger] recognised(entries[i]) == Some(dongle),
    decreases entries.len(),
{
    if entries.len() > 0 {
        let shorter = entries.drop_last();
        let others = discovered(shorter);
        let all = discovered(entries);
        law_discovery_is_complete_and_sorted(shorter);
        if let Some(found) = recognised(entries.last()) {
            lemma_put_in_place(others, found);
        }
        assert forall|dongle: DongleView| #[trigger] all.contains(dongle) <==> exists|i: int|
            0 <= i < entries.len() && #[trigger] recognised(entries[i]) == Some(dongle) by {
            assert(all.contains(dongle) <==> recognised(entries.last()) == Some(dongle)
                || others.contains(dongle));
            if others.contains(dongle) {
                let i = choose|i: int|
                    0 <= i < shorter.len() && #[trigger] recognised(shorter[i]) == Some(dongle);
                assert(recognised(entries[i]) == Some(dongle));
            } else if recognised(entries.last()) == Some(dongle) {
                assert(recognised(entries[entries.len() - 1]) == Some(dongle));
            }
            if exists|i: int|
                0 <= i < entries.len() && #[trigger] recognised(entries[i]) == Some(dongle) {
                let i = choose|i: int|
                    0 <= i < entries.len() && #[trigger] recognised(entries[i]) == Some(dongle);
                if i < entries.len() - 1 {
                    assert(recognised(shorter[i]) == Some(dongle));
                }
            }
        }
    }
}

/// A device that is not on USB is never taken for a dongle, whatever IDs it
/// carries: the virtual battery has the dongle's own.
pub proof fn law_virtual_battery_is_not_a_dongle(entry: HidrawEntry, uevent: String)
    requires
        entry.uevent == Some(uevent),
        uevent_of(uevent@) matches Some(said) ==> said.bus != BUS_USB,
    ensures
        recognised(entry) is None,
{
    reveal(recognised);
}

/// A node is that of a dongle exactly if its `uevent` names a device on USB with
/// the IDs of one, either of them; and then it is the node of that name under
/// `/dev`, with the product and the product ID of the `uevent`.
pub proof fn law_supported_device_is_recognised(entry: HidrawEntry, uevent: String, said: UeventView)
    requires
        entry.uevent == Some(uevent),
        uevent_of(uevent@) == Some(said),
    ensures
        said.bus == 0x0003 && maxwell::is_supported(said.vendor_id, said.product_id) ==> recognised(
            entry,
        ) == Some(
            DongleView {
                node: "/dev/"@ + entry.name@,
                product: said.product,
                product_id: said.product_id,
            },
        ),
        recognised(entry) is Some <==> said.bus == 0x0003 && said.vendor_id == 0x3329 && (
        said.product_id == 0x4b18 || said.product_id == 0x4b19),
{
    reveal(recognised);
    maxwell::law_two_dongles_are_supported(said.vendor_id, said.product_id);
}

/// A node whose `uevent` cannot be read, or names no device, is none of a
/// dongle.
pub proof fn law_unnamed_device_is_not_recognised(entry: HidrawEntry)
    requires
        entry.uevent matches Some(uevent) ==> uevent_of(uevent@) is None,
    ensures
        recognised(entry) is None,
{
    reveal(recognised);
}

/// As many dongles are found as there are nodes of one.
pub proof fn law_each_node_is_found_once(entries: Seq<HidrawEntry>, entry: HidrawEntry)
    ensures
        discovered(entries.push(entry)).len() == discovered(entries).len() + (if recognised(
            entry,
        ) is Some {
            1int
        } else {
            0
        }),
        discovered(Seq::<HidrawEntry>::empty()).len() == 0,
{
    assert(entries.push(entry).drop_last() =~= entries);
    law_discovery_is_complete_and_sorted(entries);
    if let Some(found) = recognised(entry) {
        lemma_place(discovered(entries), found.node);
    }
}

/// A key has the value behind its equals sign on the first line that begins with
/// both; without such a line it has none.
pub proof fn law_first_line_with_the_key_counts(
    earlier: Seq<Seq<char>>,
    key: Seq<char>,
    value: Seq<char>,
    later: Seq<Seq<char>>,
)
    requires
        forall|i: int|
            0 <= i < earlier.len() ==> !text::begins_with(#[trigger] earlier[i], key + seq!['=']),
    ensures
        value_in(earlier + seq![key + seq!['='] + value] + later, key) == Some(value),
        value_in(earlier, key) is None,
    decreases earlier.len(),
{
    let line = key + seq!['='] + value;
    let lines = earlier + seq![line] + later;
    if earlier.len() == 0 {
        assert(lines[0] == line);
        assert(line.take(key.len() as int) =~= key);
        assert(line.skip(key.len() as int) =~= seq!['='] + value);
        assert((seq!['='] + value).take(1) =~= seq!['=']);
        assert((seq!['='] + value).skip(1) =~= value);
    } else {
        let first = earlier[0];
        assert(value_on(first, key) is None) by {
            if value_on(first, key) is Some {
                let rest = first.skip(key.len() as int);
                assert(rest.take(1)[0] == '=');
                assert(first.take(key.len() as int + 1) =~= key + seq!['=']) by {
                    assert(first.take(key.len() as int) == key);
                    assert(first[key.len() as int] == rest[0]);
                    assert forall|i: int| 0 <= i < key.len() implies first[i] == key[i] by {
                        assert(first.take(key.len() as int)[i] == first[i]);
                    }
                }
                assert(text::begins_with(first, key + seq!['=']));
            }
        }
        assert forall|i: int| 0 <= i < earlier.drop_first().len() implies !text::begins_with(
            #[trigger] earlier.drop_first()[i],
            key + seq!['='],
        ) by {
            assert(earlier.drop_first()[i] == earlier[i + 1]);
        }
        law_first_line_with_the_key_counts(earlier.drop_first(), key, value, later);
        assert(lines.drop_first() =~= earlier.drop_first() + seq![line] + later);
        assert(lines[0] == first);
    }
}

/// A `uevent` names the device whose bus, vendor and product its `HID_ID` spells
/// in hexadecimal, with colons in between, under the name its `HID_NAME` gives;
/// without an ID, with one that is short of a part, or with a part that spells
/// no 16-bit number it names none.
pub proof fn law_uevent_names_the_device_it_spells(uevent: Seq<char>, ids: Seq<Seq<char>>)
    requires
        ids.len() >= 1,
        forall|i: int| 0 <= i < ids.len() ==> !(#[trigger] ids[i]).contains(':'),
        value_in(text::lines_of(uevent), "HID_ID"@) == Some(text::joined(ids, seq![':'])),
    ensures
        ids.len() < 3 ==> uevent_of(uevent) is None,
        ids.len() >= 3 ==> match (
            text::parsed(ids[0], 16, 0xffff),
            text::parsed(ids[1], 16, 0xffff),
            text::parsed(ids[2], 16, 0xffff),
        ) {
            (Some(bus), Some(vendor), Some(product)) => {
                &&& uevent_of(uevent) matches Some(said)
                &&& said.bus == bus && said.vendor_id == vendor && said.product_id == product
                &&& value_in(text::lines_of(uevent), "HID_NAME"@) matches Some(name)
                    ==> said.product == name
                &&& value_in(text::lines_of(uevent), "HID_NAME"@) is None ==> said.product
                    == "Audeze Maxwell"@
            },
            _ => uevent_of(uevent) is None,
        },
{
    text::law_joint_text_is_split_again(ids, ':');
    assert(ids[0] == text::pieces(text::joined(ids, seq![':']), ':')[0]);
}

/// Without a `HID_ID` a `uevent` names no device.
pub proof fn law_uevent_without_an_id_names_nothing(uevent: Seq<char>)
    requires
        value_in(text::lines_of(uevent), "HID_ID"@) is None,
    ensures
        uevent_of(uevent) is None,
{
}

/// A headset is on its cable when a USB device of the vendor is there that is
/// neither of the dongles, whatever product it is; white space around the IDs
/// does not matter, and a device without readable IDs is none.
pub proof fn law_any_other_product_is_the_headset(device: UsbEntry)
    ensures
        is_wired_headset(device) <==> {
            &&& device.vendor matches Some(vendor)
            &&& text::parsed(text::trimmed(vendor@), 16, 0xffff) == Some(0x3329nat)
            &&& device.product matches Some(product)
            &&& text::parsed(text::trimmed(product@), 16, 0xffff) is Some
            &&& text::parsed(text::trimmed(product@), 16, 0xffff) != Some(0x4b18nat)
            &&& text::parsed(text::trimmed(product@), 16, 0xffff) != Some(0x4b19nat)
        },
{
    let ids = PRODUCT_IDS@;
    assert(ids[0] == 0x4b19 && ids[1] == 0x4b18);
}

/// A dongle is what its node, its product and its product ID say.
pub proof fn law_dongle_is_what_it_says(dongle: Dongle)
    ensures
        dongle@.node == dongle.node@,
        dongle@.product == dongle.product@,
        dongle@.product_id == dongle.product_id,
{
}

} // verus!
