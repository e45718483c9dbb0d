//! What every battery reader reports, whichever way it got it.

use vstd::prelude::*;
use vstd::utf8::*;
use crate::text;

verus! {

/// What a headset says about its battery.
#[derive(Debug, Clone, Copy, PartialEq, Eq, Structural)]
pub enum BatteryState {
    /// Running on battery, at the given percentage.
    Discharging(u8),
    /// Plugged in. Some headsets stop reporting a level while charging.
    Charging(Option<u8>),
    /// No level could be read: the query failed, or nothing is known yet.
    Unavailable,
    /// Positively known to be switched off or out of range, as opposed to merely
    /// not answering: the reader was told so. There is nothing to wait for.
    Disconnected,
}

/// One headset, as a reader reports it.
#[derive(Debug, Clone, PartialEq, Eq)]
pub struct Headset {
    /// Model name, for example `Audeze Maxwell`.
    pub name: String,
    /// Product string of the endpoint the reader talks to, for example
    /// `Audeze Maxwell XBOX Dongle`.
    pub product: String,
    /// USB vendor ID.
    pub vendor_id: u16,
    /// USB product ID.
    pub product_id: u16,
    /// Whether the headset advertises that it has a battery to report.
    pub supports_battery: bool,
    /// Last known battery state.
    pub battery: BatteryState,
    /// Which reading `battery` comes from, for a reader that reports the same
    /// reading on several polls in a row; `None` for one that reads afresh each
    /// time. It lets a consumer tell a second opinion from the first one
    /// repeated.
    pub sample: Option<u64>,
}

/// The most bytes of a device name the kernel keeps: its field holds 128, the
/// terminating NUL among them.
pub const MAX_NAME_BYTES: usize = 127;

/// `vvvv:pppp/name`, the IDs in hexadecimal.
pub open spec fn key_of(vendor_id: u16, product_id: u16, name: Seq<char>) -> Seq<char> {
    text::hex4(vendor_id) + seq![':'] + text::hex4(product_id) + seq!['/'] + name
}

/// `headset-vvvv-pppp`, the IDs in hexadecimal.
pub open spec fn uniq_of(vendor_id: u16, product_id: u16) -> Seq<char> {
    "headset-"@ + text::hex4(vendor_id) + seq!['-'] + text::hex4(product_id)
}

/// `name` with its control characters left out.
pub open spec fn printable(name: Seq<char>) -> Seq<char>
    decreases name.len(),
{
    if name.len() == 0 {
        name
    } else if text::is_control_char(name.last()) {
        printable(name.drop_last())
    } else {
        printable(name.drop_last()).push(name.last())
    }
}

/// The label desktops show for a headset called `name`: its printable
/// characters, as many as fit in the kernel's field, or `Headset` if that
/// leaves nothing to see.
pub open spec fn label_of(name: Seq<char>) -> Seq<char> {
    let cut = text::fitting(printable(name), MAX_NAME_BYTES as nat);
    if text::trimmed(cut).len() == 0 {
        "Headset"@
    } else {
        cut
    }
}

impl Headset {
    /// A stable identifier, used to match a headset across polls.
    #[must_use]
    pub fn key(&self) -> (key: String)
        ensures
            key@ == key_of(self.vendor_id, self.product_id, self.name@),
    {
        let mut key = String::new();
        text::push_hex4(&mut key, self.vendor_id);
        key.push(':');
        text::push_hex4(&mut key, self.product_id);
        key.push('/');
        key.append(self.name.as_str());
        assert(key@ =~= key_of(self.vendor_id, self.product_id, self.name@));
        key
    }

    /// The name to give the virtual device, which is the label desktops show.
    ///
    /// `name` comes from whatever the reader was told, and the kernel's name
    /// field is 128 bytes, NUL and all. So make it fit: control characters go,
    /// and the rest is cut between two characters.
    #[must_use]
    pub fn display_name(&self) -> (label: String)
        ensures
            label@ == label_of(self.name@),
    {
        let chars = text::chars_of(self.name.as_str());
        let mut name = String::new();
        let mut at: usize = 0;
        assert(self.name@.take(0) =~= Seq::<char>::empty());
        while at < chars.len()
            invariant
                chars@ == self.name@,
                at <= chars.len(),
                name@ == printable(self.name@.take(at as int)),
            decreases chars.len() - at,
        {
            assert(self.name@.take(at + 1).drop_last() =~= self.name@.take(at as int));
            if !text::is_control(chars[at]) {
                name.push(chars[at]);
            }
            at = at + 1;
        }
        assert(self.name@.take(at as int) =~= self.name@);
        let cut = text::fit(name.as_str(), MAX_NAME_BYTES);
        if text::trim(cut).is_empty() {
            "Headset".to_owned()
        } else {
            cut.to_owned()
        }
    }

    /// A short, filesystem-safe identifier for the virtual device.
    ///
    /// The kernel builds the sysfs power supply name out of it
    /// (`hid-<uniq>-battery`), so it must not contain anything exotic.
    #[must_use]
    pub fn uniq(&self) -> (uniq: String)
        ensures
            uniq@ == uniq_of(self.vendor_id, self.product_id),
    {
        let mut uniq = "headset-".to_owned();
        text::push_hex4(&mut uniq, self.vendor_id);
        uniq.push('-');
        text::push_hex4(&mut uniq, self.product_id);
        assert(uniq@ =~= uniq_of(self.vendor_id, self.product_id));
        uniq
    }
}

/// Whether `c` can stand in a file name without a second thought.
pub open spec fn is_plain(c: char) -> bool {
    'a' <= c <= 'z' || '0' <= c <= '9' || c == '-'
}

/// Each value below sixteen has a digit of its own, and a plain one.
proof fn lemma_hex_digit(left: nat, right: nat)
    requires
        left < 16,
        right < 16,
    ensures
        text::hex_digit(left) == text::hex_digit(right) ==> left == right,
        is_plain(text::hex_digit(left)),
{
}

/// A 16-bit number is the sum of its four hexadecimal digits, each in its place.
proof fn lemma_hex_places(value: u16)
    ensures
        value == value / 4096 * 4096 + value / 256 % 16 * 256 + value / 16 % 16 * 16 + value % 16,
        value / 4096 < 16,
        value / 256 % 16 < 16,
        value / 16 % 16 < 16,
        value % 16 < 16,
{
    assert(value == value / 4096 * 4096 + value / 256 % 16 * 256 + value / 16 % 16 * 16 + value % 16
        && value / 4096 < 16 && value / 256 % 16 < 16 && value / 16 % 16 < 16 && value % 16 < 16)
        by (bit_vector);
}

/// Four hexadecimal digits tell every 16-bit number from every other, and hold
/// nothing but plain characters.
#[verifier::spinoff_prover]
pub proof fn lemma_hex4(left: u16, right: u16)
    ensures
        text::hex4(left) == text::hex4(right) ==> left == right,
        forall|i: int| 0 <= i < 4 ==> is_plain(#[trigger] text::hex4(left)[i]),
{
    let a = text::hex4(left);
    let b = text::hex4(right);
    lemma_hex_places(left);
    lemma_hex_places(right);
    lemma_hex_digit((left / 4096) as nat, (right / 4096) as nat);
    lemma_hex_digit((left / 256 % 16) as nat, (right / 256 % 16) as nat);
    lemma_hex_digit((left / 16 % 16) as nat, (right / 16 % 16) as nat);
    lemma_hex_digit((left % 16) as nat, (right % 16) as nat);
    if a == b {
        assert(a[0] == b[0] && a[1] == b[1] && a[2] == b[2] && a[3] == b[3]);
    }
    assert forall|i: int| 0 <= i < 4 implies is_plain(#[trigger] a[i]) by {
        assert(i == 0 || i == 1 || i == 2 || i == 3);
    }
}

/// Two headsets have the same key exactly when they have the same IDs and the
/// same name.
pub proof fn law_key_identifies(vendor: u16, product: u16, name: Seq<char>, other_vendor: u16,
    other_product: u16, other_name: Seq<char>)
    ensures
        key_of(vendor, product, name) == key_of(other_vendor, other_product, other_name) <==> (
        vendor == other_vendor && product == other_product && name == other_name),
{
    let a = key_of(vendor, product, name);
    let b = key_of(other_vendor, other_product, other_name);
    if a == b {
        assert(a.subrange(0, 4) =~= text::hex4(vendor));
        assert(b.subrange(0, 4) =~= text::hex4(other_vendor));
        assert(a.subrange(5, 9) =~= text::hex4(product));
        assert(b.subrange(5, 9) =~= text::hex4(other_product));
        assert(a.skip(10) =~= name);
        assert(b.skip(10) =~= other_name);
        lemma_hex4(vendor, other_vendor);
        lemma_hex4(product, other_product);
    }
}

/// Two devices have the same `uniq` exactly when they have the same IDs, and it
/// never holds anything but lower-case letters, digits and hyphens.
pub proof fn law_uniq_is_plain_and_identifies(vendor: u16, product: u16, other_vendor: u16,
    other_product: u16)
    ensures
        uniq_of(vendor, product) == uniq_of(other_vendor, other_product) <==> (vendor
            == other_vendor && product == other_product),
        uniq_of(vendor, product).len() == 17,
        forall|i: int|
            0 <= i < uniq_of(vendor, product).len() ==> is_plain(
                #[trigger] uniq_of(vendor, product)[i],
            ),
{
    reveal_strlit("headset-");
    let a = uniq_of(vendor, product);
    let b = uniq_of(other_vendor, other_product);
    lemma_hex4(vendor, other_vendor);
    lemma_hex4(product, other_product);
    if a == b {
        assert(a.subrange(8, 12) =~= text::hex4(vendor));
        assert(b.subrange(8, 12) =~= text::hex4(other_vendor));
        assert(a.subrange(13, 17) =~= text::hex4(product));
        assert(b.subrange(13, 17) =~= text::hex4(other_product));
    }
    assert forall|i: int| 0 <= i < a.len() implies is_plain(#[trigger] a[i]) by {
        if 8 <= i < 12 {
            assert(a[i] == text::hex4(vendor)[i - 8]);
        } else if 13 <= i {
            assert(a[i] == text::hex4(product)[i - 13]);
        }
    }
}

/// No control character is left in what is printable, and a name that has none
/// is printable as it stands.
proof fn lemma_printable(name: Seq<char>)
    ensures
        forall|i: int|
            0 <= i < printable(name).len() ==> !text::is_control_char(#[trigger] printable(name)[i]),
        (forall|i: int| 0 <= i < name.len() ==> !text::is_control_char(#[trigger] name[i]))
            ==> printable(name) == name,
    decreases name.len(),
{
    if name.len() > 0 {
        lemma_printable(name.drop_last());
        let rest = printable(name.drop_last());
        assert forall|i: int| 0 <= i < printable(name).len() implies !text::is_control_char(
            #[trigger] printable(name)[i],
        ) by {
            if i < rest.len() {
                assert(printable(name)[i] == rest[i]);
            }
        }
        if forall|i: int| 0 <= i < name.len() ==> !text::is_control_char(#[trigger] name[i]) {
            assert forall|i: int| 0 <= i < name.drop_last().len() implies !text::is_control_char(
                #[trigger] name.drop_last()[i],
            ) by {
                assert(name.drop_last()[i] == name[i]);
            }
            assert(name.drop_last().push(name.last()) =~= name);
        }
    }
}

/// Whatever a headset is called, its label fits in the kernel's field, holds no
/// control character and is never blank.
pub proof fn law_label_is_presentable(name: Seq<char>)
    ensures
        text::byte_len(label_of(name)) <= MAX_NAME_BYTES,
        text::trimmed(label_of(name)).len() > 0,
        forall|i: int|
            0 <= i < label_of(name).len() ==> !text::is_control_char(#[trigger] label_of(name)[i]),
{
    let cut = text::fitting(printable(name), MAX_NAME_BYTES as nat);
    text::lemma_fitting(printable(name), MAX_NAME_BYTES as nat);
    lemma_printable(name);
    reveal_strlit("Headset");
    assert(is_ascii_chars("Headset"@));
    is_ascii_chars_encode_utf8("Headset"@);
    assert(text::trim_front("Headset"@) == "Headset"@);
    assert(text::trim_back("Headset"@) == "Headset"@);
}

/// A name that fits, holds no control character and is not blank is its own
/// label.
pub proof fn law_ordinary_name_is_kept(name: Seq<char>)
    requires
        text::byte_len(name) <= MAX_NAME_BYTES,
        text::trimmed(name).len() > 0,
        forall|i: int| 0 <= i < name.len() ==> !text::is_control_char(#[trigger] name[i]),
    ensures
        label_of(name) == name,
{
    lemma_printable(name);
}

/// Labelling a label changes nothing.
pub proof fn law_label_is_stable(name: Seq<char>)
    ensures
        label_of(label_of(name)) == label_of(name),
{
    law_label_is_presentable(name);
    law_ordinary_name_is_kept(label_of(name));
}

/// A key is the IDs, four hexadecimal digits each, and the name as it stands:
/// each can be read back out of its place.
pub proof fn law_key_spells_out_its_parts(vendor: u16, product: u16, name: Seq<char>)
    ensures
        ({
            let key = key_of(vendor, product, name);
            &&& key.len() == 10 + name.len()
            &&& text::parsed(key.subrange(0, 4), 16, 0xffff) == Some(vendor as nat)
            &&& key[4] == ':'
            &&& text::parsed(key.subrange(5, 9), 16, 0xffff) == Some(product as nat)
            &&& key[9] == '/'
            &&& key.skip(10) == name
        }),
{
    let key = key_of(vendor, product, name);
    text::law_hex_is_read_back(vendor);
    text::law_hex_is_read_back(product);
    assert(key.subrange(0, 4) =~= text::hex4(vendor));
    assert(key.subrange(5, 9) =~= text::hex4(product));
    assert(key.skip(10) =~= name);
}

/// A `uniq` is `headset` and the IDs, four hexadecimal digits each, with hyphens
/// in between: both can be read back out of their places.
pub proof fn law_uniq_spells_out_its_parts(vendor: u16, product: u16)
    ensures
        ({
            let uniq = uniq_of(vendor, product);
            &&& uniq.take(8) == "headset-"@
            &&& text::parsed(uniq.subrange(8, 12), 16, 0xffff) == Some(vendor as nat)
            &&& uniq[12] == '-'
            &&& text::parsed(uniq.subrange(13, 17), 16, 0xffff) == Some(product as nat)
        }),
{
    reveal_strlit("headset-");
    let uniq = uniq_of(vendor, product);
    text::law_hex_is_read_back(vendor);
    text::law_hex_is_read_back(product);
    assert(uniq.take(8) =~= "headset-"@);
    assert(uniq.subrange(8, 12) =~= text::hex4(vendor));
    assert(uniq.subrange(13, 17) =~= text::hex4(product));
}

/// What is printable of a name is what is printable of its parts, one after the
/// other; of a single character, all or, if it is a control character, nothing.
pub proof fn law_control_characters_alone_are_left_out(left: Seq<char>, right: Seq<char>, c: char)
    ensures
        printable(left + right) == printable(left) + printable(right),
        printable(seq![c]) == (if c as u32 <= 0x1f || 0x7f <= c as u32 <= 0x9f {
            Seq::<char>::empty()
        } else {
            seq![c]
        }),
    decreases right.len(),
{
    assert(seq![c].drop_last() =~= Seq::<char>::empty());
    assert(printable(Seq::<char>::empty()) =~= Seq::<char>::empty());
    assert(printable(seq![c]) =~= if c as u32 <= 0x1f || 0x7f <= c as u32 <= 0x9f {
        Seq::<char>::empty()
    } else {
        seq![c]
    });
    if right.len() == 0 {
        assert(left + right =~= left);
        assert(printable(left) + printable(right) =~= printable(left));
    } else {
        law_control_characters_alone_are_left_out(left, right.drop_last(), c);
        assert((left + right).drop_last() =~= left + right.drop_last());
        assert((left + right).last() == right.last());
        assert(printable(left + right) =~= printable(left) + printable(right));
    }
}

/// A label is the longest beginning of the printable characters that fits in
/// 127 bytes, unless that is blank: then, and only then, it is `Headset`.
pub proof fn law_label_is_as_much_of_the_name_as_fits(name: Seq<char>, upto: int)
    requires
        0 <= upto <= printable(name).len(),
        text::byte_len(printable(name).take(upto)) <= 127,
        upto < printable(name).len() ==> text::byte_len(printable(name).take(upto + 1)) > 127,
    ensures
        text::trimmed(printable(name).take(upto)).len() > 0 ==> label_of(name) == printable(
            name,
        ).take(upto),
        text::trimmed(printable(name).take(upto)).len() == 0 ==> label_of(name) == "Headset"@,
{
    let whole = printable(name);
    let cut = text::fitting(whole, 127);
    text::law_cut_is_the_longest_that_fits(whole, 127, upto);
    if upto < whole.len() {
        text::law_cut_is_the_longest_that_fits(whole, 127, upto + 1);
        if cut.len() > upto {
            text::lemma_byte_len_grows(whole.take(cut.len() as int), upto + 1);
            assert(whole.take(cut.len() as int).take(upto + 1) =~= whole.take(upto + 1));
        }
    }
}

} // verus!
