//! Runs of the `headsetcontrol` binary, and what its JSON output says.
//!
//! Shelling out rather than linking against HeadsetControl is deliberate: the
//! per-headset protocol knowledge stays upstream, where it is maintained, and
//! this daemon only has to track a stable JSON shape.

use vstd::prelude::*;
use crate::text;
use crate::time::{Duration, Instant};

pub use crate::headset::{BatteryState, Headset};

verus! {

/// Milliseconds between two checks on a running `headsetcontrol` child.
pub const REAP_INTERVAL_MILLIS: u64 = 25;

/// How much of an unexpected output is worth quoting, in characters.
pub const QUOTED_CHARS: usize = 200;

/// A configured `headsetcontrol` invocation.
#[derive(Debug, Clone)]
pub struct HeadsetControl {
    /// Path of the binary, as it is shown.
    pub binary: String,
    /// How long a run may take.
    pub timeout: Duration,
}

/// The document `headsetcontrol --output json` writes, as far as it matters
/// here.
#[derive(Debug, Clone)]
pub struct Report {
    /// The headsets it found.
    pub devices: Vec<Device>,
}

/// One headset of the document. What the document leaves out is empty.
#[derive(Debug, Clone)]
pub struct Device {
    /// Model name, `device` in the document.
    pub model: String,
    /// Product string.
    pub product: String,
    /// USB vendor ID, in the `0x3329` form.
    pub id_vendor: String,
    /// USB product ID, in the same form.
    pub id_product: String,
    /// What the headset can do.
    pub capabilities: Vec<String>,
    /// Its battery, if it says anything about one.
    pub battery: Option<Battery>,
}

/// The battery of a headset of the document.
#[derive(Debug, Clone)]
pub struct Battery {
    /// `BATTERY_AVAILABLE`, `BATTERY_CHARGING`, or something else.
    pub status: String,
    /// The level; out of range where there is none.
    pub level: i32,
}

/// What to do about a running child.
#[derive(Debug, Clone, Copy, PartialEq, Eq, Structural)]
pub enum Reap {
    /// It is done: collect its output.
    Collect,
    /// It has had its time: kill it and fail.
    GiveUp,
    /// Look again after that long.
    Sleep(Duration),
}

/// Why a probe failed.
#[derive(Debug)]
pub enum ProbeError<R, E> {
    /// The binary could not be run to its end.
    Run(R),
    /// It wrote something other than the expected document.
    Unexpected {
        /// What it wrote, for the journal.
        context: String,
        /// What is wrong with it.
        cause: E,
    },
}

/// The part of the output that should be the document: everything from the
/// first brace on, without white space at either end.
///
/// HeadsetControl occasionally prefixes its JSON with a plain-text notice, so
/// the whole stream is not to be trusted.
pub open spec fn json_part(stdout: Seq<char>) -> Seq<char> {
    text::trimmed(
        match stdout.index_of_first('{') {
            Some(start) => stdout.skip(start),
            None => stdout,
        },
    )
}

/// The level a report may carry.
pub open spec fn level_of(level: i32) -> Option<u8> {
    if 0 <= level <= 100 {
        Some(level as u8)
    } else {
        None
    }
}

/// The battery state a report stands for.
pub open spec fn state_of(status: Seq<char>, level: i32) -> BatteryState {
    if status == "BATTERY_AVAILABLE"@ {
        match level_of(level) {
            Some(percent) => BatteryState::Discharging(percent),
            None => BatteryState::Unavailable,
        }
    } else if status == "BATTERY_CHARGING"@ {
        BatteryState::Charging(level_of(level))
    } else {
        BatteryState::Unavailable
    }
}

/// The number a USB identifier stands for, with or without its `0x`; zero for
/// anything that is none.
pub open spec fn id_of(raw: Seq<char>) -> u16 {
    let whole = text::trimmed(raw);
    let digits = if text::begins_with(whole, "0x"@) || text::begins_with(whole, "0X"@) {
        whole.skip(2)
    } else {
        whole
    };
    match text::parsed(digits, 16, u16::MAX as nat) {
        Some(value) => value as u16,
        None => 0,
    }
}

/// Whether one of those capabilities is that of reporting a battery.
pub open spec fn reports_battery(capabilities: Seq<String>) -> bool {
    exists|i: int|
        0 <= i < capabilities.len() && (#[trigger] capabilities[i])@ == "CAP_BATTERY_STATUS"@
}

/// The headset an entry of the document stands for.
pub open spec fn headset_of(device: Device) -> Headset {
    Headset {
        name: device.model,
        product: device.product,
        vendor_id: id_of(device.id_vendor@),
        product_id: id_of(device.id_product@),
        supports_battery: reports_battery(device.capabilities@),
        battery: match device.battery {
            Some(battery) => state_of(battery.status@, battery.level),
            None => BatteryState::Unavailable,
        },
        sample: None,
    }
}

/// The headsets a document stands for, in its order.
pub open spec fn headsets_of(devices: Seq<Device>) -> Seq<Headset> {
    devices.map_values(|device: Device| headset_of(device))
}

/// Parses the `0x3329` form HeadsetControl uses for USB identifiers.
pub fn parse_id(raw: &str) -> (id: u16)
    ensures
        id == id_of(raw@),
{
    let trimmed = text::trim(raw);
    proof {
        reveal_strlit("0x");
        reveal_strlit("0X");
    }
    let digits = match text::strip_prefix(trimmed, "0x") {
        Some(rest) => rest,
        None => match text::strip_prefix(trimmed, "0X") {
            Some(rest) => rest,
            None => trimmed,
        },
    };
    match text::parse_number(digits, 16, 0xffff) {
        Some(value) => value as u16,
        None => 0,
    }
}

/// Makes sense of what the document says about a battery.
pub fn battery_state(battery: &Battery) -> (state: BatteryState)
    ensures
        state == state_of(battery.status@, battery.level),
{
    let level: Option<u8> = if 0 <= battery.level && battery.level <= 100 {
        Some(battery.level as u8)
    } else {
        None
    };
    if text::same(battery.status.as_str(), "BATTERY_AVAILABLE") {
        match level {
            Some(percent) => BatteryState::Discharging(percent),
            None => BatteryState::Unavailable,
        }
    } else if text::same(battery.status.as_str(), "BATTERY_CHARGING") {
        BatteryState::Charging(level)
    } else {
        BatteryState::Unavailable
    }
}

/// Whether one of those capabilities is that of reporting a battery.
pub fn has_battery(capabilities: &Vec<String>) -> (yes: bool)
    ensures
        yes == reports_battery(capabilities@),
{
    let mut at: usize = 0;
    while at < capabilities.len()
        invariant
            at <= capabilities.len(),
            forall|i: int|
                0 <= i < at ==> (#[trigger] capabilities@[i])@ != "CAP_BATTERY_STATUS"@,
        decreases capabilities.len() - at,
    {
        if text::same(capabilities[at].as_str(), "CAP_BATTERY_STATUS") {
            return true;
        }
        at = at + 1;
    }
    false
}

impl From<Device> for Headset {
    fn from(device: Device) -> (headset: Self) {
        let supports_battery = has_battery(&device.capabilities);
        let battery = match &device.battery {
            Some(battery) => battery_state(battery),
            None => BatteryState::Unavailable,
        };
        Headset {
            vendor_id: parse_id(device.id_vendor.as_str()),
            product_id: parse_id(device.id_product.as_str()),
            name: device.model,
            product: device.product,
            supports_battery,
            battery,
            sample: None,
        }
    }
}

impl vstd::std_specs::convert::FromSpecImpl<Device> for Headset {
    open spec fn obeys_from_spec() -> bool {
        true
    }

    open spec fn from_spec(device: Device) -> Self {
        headset_of(device)
    }
}

/// The headsets of a document, in its order.
pub fn headsets(report: Report) -> (list: Vec<Headset>)
    ensures
        list@ == headsets_of(report.devices@),
{
    let mut list: Vec<Headset> = Vec::new();
    for device in iter: report.devices
        invariant
            iter.seq() == report.devices@,
            list@ == headsets_of(report.devices@.take(iter.index() as int)),
    {
        list.push(Headset::from(device));
        assert(list@ =~= headsets_of(report.devices@.take(iter.index() + 1)));
    }
    assert(report.devices@.take(report.devices@.len() as int) =~= report.devices@);
    list
}

/// The part of the output that should be the document, or nothing if there is
/// none.
pub fn document(stdout: &str) -> (json: Option<&str>)
    ensures
        match json {
            Some(part) => part@ == json_part(stdout@) && part@.len() > 0,
            None => json_part(stdout@).len() == 0,
        },
{
    let chars = text::chars_of(stdout);
    let mut start: usize = 0;
    while start < chars.len() && chars[start] != '{'
        invariant
            start <= chars.len(),
            chars@ == stdout@,
            forall|i: int| 0 <= i < start ==> stdout@[i] != '{',
        decreases chars.len() - start,
    {
        start = start + 1;
    }
    proof {
        stdout@.index_of_first_ensures('{');
        if start < chars.len() {
            assert(stdout@[start as int] == '{');
            assert(stdout@.contains('{'));
        }
    }
    let rest = if start < chars.len() {
        stdout.substring_char(start, chars.len())
    } else {
        stdout
    };
    assert(start < chars.len() ==> rest@ =~= stdout@.skip(start as int));
    let json = text::trim(rest);
    if json.is_empty() {
        None
    } else {
        Some(json)
    }
}

/// Whether `found` is what `read` makes of the document in that output: nothing
/// if there is no document, and otherwise its headsets, or what is wrong with
/// it.
pub open spec fn is_reading_of<E, F: Fn(&str) -> Result<Report, E>>(
    stdout: Seq<char>,
    read: F,
    found: Result<Vec<Headset>, E>,
) -> bool {
    if json_part(stdout).len() == 0 {
        found is Ok && found->Ok_0@.len() == 0
    } else {
        exists|json: &str, outcome: Result<Report, E>| #[trigger]
            read.ensures((json,), outcome) && json@ == json_part(stdout) && (match outcome {
                Ok(report) => found is Ok && found->Ok_0@ == headsets_of(report.devices@),
                Err(error) => found == Err::<Vec<Headset>, E>(error),
            })
    }
}

/// Parses the JSON document produced by `headsetcontrol --output json`, `read`
/// being what turns a JSON text into a [`Report`].
///
/// # Errors
///
/// Fails if `read` says that the payload is not the JSON document
/// HeadsetControl documents.
pub fn parse<E, F: Fn(&str) -> Result<Report, E>>(stdout: &str, read: F) -> (found: Result<
    Vec<Headset>,
    E,
>)
    requires
        forall|json: &str| read.requires((json,)),
    ensures
        is_reading_of(stdout@, read, found),
{
    match document(stdout) {
        None => Ok(Vec::new()),
        Some(json) => match read(json) {
            Ok(report) => Ok(headsets(report)),
            Err(error) => Err(error),
        },
    }
}

/// `output` without white space at either end, cut after so many characters.
pub open spec fn quoted(output: Seq<char>) -> Seq<char> {
    let whole = text::trimmed(output);
    if whole.len() <= QUOTED_CHARS {
        whole
    } else {
        whole.take(QUOTED_CHARS as int)
    }
}

impl HeadsetControl {
    /// Binds to a `headsetcontrol` binary.
    #[must_use]
    pub fn new(binary: String, timeout: Duration) -> (control: Self)
        ensures
            control == (HeadsetControl { binary, timeout }),
    {
        HeadsetControl { binary, timeout }
    }

    /// Path of the binary being invoked.
    #[must_use]
    pub fn binary(&self) -> (path: &str)
        ensures
            path@ == self.binary@,
    {
        self.binary.as_str()
    }

    /// The battery state of every connected headset, from what a run of the
    /// binary came to: its standard output, or why there is none.
    ///
    /// # Errors
    ///
    /// Fails if the run did, or if the binary wrote something other than the
    /// expected JSON.
    pub fn probe<R, E, F: Fn(&str) -> Result<Report, E>>(
        &self,
        outcome: Result<String, R>,
        read: F,
    ) -> (found: Result<Vec<Headset>, ProbeError<R, E>>)
        requires
            forall|json: &str| read.requires((json,)),
        ensures
            match (outcome, found) {
                (Err(error), Err(ProbeError::Run(said))) => said == error,
                (Err(_), _) => false,
                (Ok(stdout), Ok(list)) => is_reading_of(stdout@, read, Ok::<Vec<Headset>, E>(list)),
                (Ok(stdout), Err(ProbeError::Unexpected { context, cause })) => is_reading_of(
                    stdout@,
                    read,
                    Err::<Vec<Headset>, E>(cause),
                ) && context@ == "unexpected output from "@ + self.binary@ + ": "@ + quoted(stdout@),
                (Ok(_), Err(ProbeError::Run(_))) => false,
            },
    {
        match outcome {
            Err(error) => Err(ProbeError::Run(error)),
            Ok(stdout) => match parse(stdout.as_str(), read) {
                Ok(list) => Ok(list),
                Err(cause) => Err(
                    ProbeError::Unexpected { context: self.unexpected(stdout.as_str()), cause },
                ),
            },
        }
    }

    /// How an output that is not the expected document is reported.
    pub fn unexpected(&self, stdout: &str) -> (context: String)
        ensures
            context@ == "unexpected output from "@ + self.binary@ + ": "@ + quoted(stdout@),
    {
        let whole = text::trim(stdout);
        let count: usize = text::chars_of(whole).len();
        let quote = if count <= QUOTED_CHARS {
            whole
        } else {
            whole.substring_char(0, QUOTED_CHARS)
        };
        assert(quote@ =~= quoted(stdout@));
        let mut context = "unexpected output from ".to_owned();
        context.append(self.binary.as_str());
        context.append(": ");
        context.append(quote);
        context
    }

    /// When a run that started at that moment has had its time.
    pub fn deadline(&self, started: Instant) -> (at: Instant)
        requires
            started.nanos + self.timeout.nanos <= u128::MAX,
        ensures
            at.nanos == started.nanos + self.timeout.nanos,
    {
        Instant { nanos: started.nanos + self.timeout.nanos }
    }

    /// What to do about a child that has exited or not, at that moment.
    pub fn reap(&self, exited: bool, now: Instant, deadline: Instant) -> (next: Reap)
        ensures
            exited ==> next == Reap::Collect,
            !exited && now.nanos >= deadline.nanos ==> next == Reap::GiveUp,
            !exited && now.nanos < deadline.nanos ==> (next matches Reap::Sleep(span)
                && span.nanos == 25_000_000),
    {
        if exited {
            Reap::Collect
        } else if now.nanos >= deadline.nanos {
            Reap::GiveUp
        } else {
            Reap::Sleep(Duration::from_millis(REAP_INTERVAL_MILLIS))
        }
    }

    /// How a binary that cannot be run is reported.
    pub fn could_not_run(&self) -> (message: String)
        ensures
            message@ == "could not run "@ + self.binary@,
    {
        let mut message = "could not run ".to_owned();
        message.append(self.binary.as_str());
        message
    }

    /// How a child that was given up on is reported.
    pub fn did_not_answer(&self) -> (message: String)
        requires
            self.timeout.is_writable(),
        ensures
            message@ == self.binary@ + " did not answer within "@ + self.timeout.written(),
    {
        self.did_not_answer_within(self.timeout.describe().as_str())
    }

    /// How a child that was given up on after a span so written is reported.
    pub fn did_not_answer_within(&self, span: &str) -> (message: String)
        ensures
            message@ == self.binary@ + " did not answer within "@ + span@,
    {
        let mut message = self.binary.clone();
        message.append(" did not answer within ");
        message.append(span);
        message
    }
}

/// Every level a document can lead to is a percentage.
pub proof fn law_levels_are_percentages(device: Device)
    ensures
        match headset_of(device).battery {
            BatteryState::Discharging(percent) => percent <= 100,
            BatteryState::Charging(Some(percent)) => percent <= 100,
            _ => true,
        },
{
}

/// A plain-text notice in front of the document changes nothing, as long as it
/// holds no brace itself.
pub proof fn law_preamble_is_ignored(notice: Seq<char>, stdout: Seq<char>)
    requires
        !notice.contains('{'),
        stdout.contains('{'),
    ensures
        json_part(notice + stdout) == json_part(stdout),
{
    let whole = notice + stdout;
    stdout.index_of_first_ensures('{');
    whole.index_of_first_ensures('{');
    let at = stdout.index_of_first('{')->0;
    assert(whole[notice.len() + at] == '{');
    assert(whole.contains('{'));
    let found = whole.index_of_first('{')->0;
    if found < notice.len() {
        assert(notice[found] == '{');
    } else {
        assert(stdout[found - notice.len()] == '{');
    }
    assert(found == notice.len() + at) by {
        if found < notice.len() + at {
            assert(stdout[found - notice.len()] != '{');
        } else if found > notice.len() + at {
            assert(whole[notice.len() + at] != '{');
        }
    }
    assert(whole.skip(found) =~= stdout.skip(at));
}

/// A USB identifier reads the same with and without its `0x`.
pub proof fn law_prefix_is_optional(raw: Seq<char>)
    requires
        raw.len() > 0,
        forall|i: int| 0 <= i < raw.len() ==> text::digit(#[trigger] raw[i], 16) is Some,
    ensures
        id_of("0x"@ + raw) == id_of(raw),
        id_of("0X"@ + raw) == id_of(raw),
{
    reveal_strlit("0x");
    reveal_strlit("0X");
    assert forall|t: Seq<char>|
        t.len() > 0 && !text::is_space_char(t[0]) && !text::is_space_char(
            t.last(),
        ) implies #[trigger] text::trimmed(t) == t by {
    }
    assert(text::digit(raw[0], 16) is Some);
    assert(text::digit(raw.last(), 16) is Some);
    assert(("0x"@ + raw).last() == raw.last());
    assert(("0X"@ + raw).last() == raw.last());
    assert(("0x"@ + raw).take(2) =~= "0x"@);
    assert(("0X"@ + raw).take(2) =~= "0X"@);
    assert(("0x"@ + raw).skip(2) =~= raw);
    assert(("0X"@ + raw).skip(2) =~= raw);
    if raw.len() >= 2 {
        assert(text::digit(raw[1], 16) is Some);
        assert(raw.take(2)[1] == raw[1]);
    }
}

/// What a document says of a level, for every level there is: a percentage is
/// reported as it stands, charging or not, and anything else is no level. A
/// status other than these two says nothing, whatever the level.
pub proof fn law_level_is_taken_as_it_stands(level: i32, status: Seq<char>)
    ensures
        0 <= level <= 100 ==> state_of("BATTERY_AVAILABLE"@, level) == BatteryState::Discharging(
            level as u8,
        ),
        0 <= level <= 100 ==> state_of("BATTERY_CHARGING"@, level) == BatteryState::Charging(
            Some(level as u8),
        ),
        (level < 0 || level > 100) ==> state_of("BATTERY_AVAILABLE"@, level)
            == BatteryState::Unavailable,
        (level < 0 || level > 100) ==> state_of("BATTERY_CHARGING"@, level)
            == BatteryState::Charging(None),
        status != "BATTERY_AVAILABLE"@ && status != "BATTERY_CHARGING"@ ==> state_of(status, level)
            == BatteryState::Unavailable,
{
    reveal_strlit("BATTERY_AVAILABLE");
    reveal_strlit("BATTERY_CHARGING");
    assert("BATTERY_AVAILABLE"@.len() != "BATTERY_CHARGING"@.len());
}

/// An identifier is the number its digits spell in hexadecimal, in either form
/// and with any white space around it, and zero if they spell none.
pub proof fn law_identifier_is_the_number_spelled(
    front: Seq<char>,
    digits: Seq<char>,
    back: Seq<char>,
    value: u16,
)
    requires
        forall|i: int| 0 <= i < front.len() ==> text::is_space_char(#[trigger] front[i]),
        forall|i: int| 0 <= i < back.len() ==> text::is_space_char(#[trigger] back[i]),
        digits.len() > 0 ==> !text::is_space_char(digits[0]) && !text::is_space_char(
            digits.last(),
        ),
    ensures
        ({
            let spelled = match text::parsed(digits, 16, 0xffff) {
                Some(number) => number as u16,
                None => 0,
            };
            &&& id_of(front + ("0x"@ + digits) + back) == spelled
            &&& id_of(front + ("0X"@ + digits) + back) == spelled
            &&& (digits.len() < 2 || digits.take(2) != "0x"@ && digits.take(2) != "0X"@) ==> id_of(
                front + digits + back,
            ) == spelled
        }),
        id_of("0x"@ + text::hex4(value)) == value,
        id_of(text::hex4(value)) == value,
{
    reveal_strlit("0x");
    reveal_strlit("0X");
    let none = Seq::<char>::empty();
    let hex = text::hex4(value);
    text::law_hex_is_read_back(value);
    assert(hex[0] != 'x' && hex[1] != 'x' && hex[1] != 'X' && hex.last() == hex[3]);
    lemma_bare_identifier(front, digits, back);
    lemma_prefixed_identifier(front, "0x"@, digits, back);
    lemma_prefixed_identifier(front, "0X"@, digits, back);
    lemma_bare_identifier(none, hex, none);
    lemma_prefixed_identifier(none, "0x"@, hex, none);
    assert(hex.take(2)[1] == hex[1]);
    assert(none + hex + none =~= hex);
    assert(none + ("0x"@ + hex) + none =~= "0x"@ + hex);
}

proof fn lemma_bare_identifier(front: Seq<char>, digits: Seq<char>, back: Seq<char>)
    requires
        forall|i: int| 0 <= i < front.len() ==> text::is_space_char(#[trigger] front[i]),
        forall|i: int| 0 <= i < back.len() ==> text::is_space_char(#[trigger] back[i]),
        digits.len() > 0 ==> !text::is_space_char(digits[0]) && !text::is_space_char(
            digits.last(),
        ),
    ensures
        (digits.len() < 2 || digits.take(2) != "0x"@ && digits.take(2) != "0X"@) ==> id_of(
            front + digits + back,
        ) == (match text::parsed(digits, 16, 0xffff) {
            Some(number) => number as u16,
            None => 0,
        }),
{
    reveal_strlit("0x");
    reveal_strlit("0X");
    text::law_trimming_keeps_the_middle(front, digits, back);
}

proof fn lemma_prefixed_identifier(
    front: Seq<char>,
    prefix: Seq<char>,
    digits: Seq<char>,
    back: Seq<char>,
)
    requires
        prefix == "0x"@ || prefix == "0X"@,
        forall|i: int| 0 <= i < front.len() ==> text::is_space_char(#[trigger] front[i]),
        forall|i: int| 0 <= i < back.len() ==> text::is_space_char(#[trigger] back[i]),
        digits.len() > 0 ==> !text::is_space_char(digits.last()),
    ensures
        id_of(front + (prefix + digits) + back) == (match text::parsed(digits, 16, 0xffff) {
            Some(number) => number as u16,
            None => 0,
        }),
{
    reveal_strlit("0x");
    reveal_strlit("0X");
    let middle = prefix + digits;
    assert(middle[0] == '0');
    assert(middle.last() == if digits.len() > 0 {
        digits.last()
    } else {
        prefix[1]
    });
    text::law_trimming_keeps_the_middle(front, middle, back);
    assert(middle.take(2) =~= prefix);
    assert(middle.skip(2) =~= digits);
}

/// The document begins with the first brace, and without one is whatever there
/// is; white space around it does not belong to it.
pub proof fn law_document_begins_with_a_brace(notice: Seq<char>, rest: Seq<char>)
    requires
        !notice.contains('{'),
    ensures
        json_part(notice + seq!['{'] + rest) == text::trimmed(seq!['{'] + rest),
        json_part(notice) == text::trimmed(notice),
{
    let whole = notice + seq!['{'] + rest;
    let at = notice.len() as int;
    whole.index_of_first_ensures('{');
    notice.index_of_first_ensures('{');
    assert(whole[at] == '{');
    assert(whole.contains('{'));
    let found = whole.index_of_first('{')->0;
    assert(found == at) by {
        if found < at {
            assert(notice[found] == '{');
        } else if found > at {
            assert(whole[at] != '{');
        }
    }
    assert(whole.skip(at) =~= seq!['{'] + rest);
}

/// What is quoted of an output is its beginning, without white space in front,
/// up to two hundred characters of it.
pub proof fn law_quote_is_the_beginning(front: Seq<char>, middle: Seq<char>, back: Seq<char>)
    requires
        forall|i: int| 0 <= i < front.len() ==> text::is_space_char(#[trigger] front[i]),
        forall|i: int| 0 <= i < back.len() ==> text::is_space_char(#[trigger] back[i]),
        middle.len() > 0 ==> !text::is_space_char(middle[0]) && !text::is_space_char(
            middle.last(),
        ),
    ensures
        middle.len() <= 200 ==> quoted(front + middle + back) == middle,
        middle.len() > 200 ==> quoted(front + middle + back) == middle.take(200),
{
    text::law_trimming_keeps_the_middle(front, middle, back);
}

/// Every entry of the document is reported, in its order: under its own names
/// and IDs, with what it says of its battery, and always read afresh.
pub proof fn law_every_entry_is_reported(devices: Seq<Device>, i: int)
    requires
        0 <= i < devices.len(),
    ensures
        headsets_of(devices).len() == devices.len(),
        ({
            let found = headsets_of(devices)[i];
            let device = devices[i];
            &&& found.name == device.model && found.product == device.product
            &&& found.vendor_id == id_of(device.id_vendor@)
            &&& found.product_id == id_of(device.id_product@)
            &&& found.supports_battery == reports_battery(device.capabilities@)
            &&& found.sample is None
            &&& device.battery is None ==> found.battery == BatteryState::Unavailable
            &&& device.battery matches Some(battery) ==> found.battery == state_of(
                battery.status@,
                battery.level,
            )
        }),
{
}

/// A headset has a battery to report exactly if that capability is among those
/// it lists, wherever it stands.
pub proof fn law_one_capability_decides(known: Seq<String>, capability: String)
    ensures
        !reports_battery(Seq::<String>::empty()),
        reports_battery(known.push(capability)) <==> (reports_battery(known) || capability@
            == "CAP_BATTERY_STATUS"@),
{
    let more = known.push(capability);
    assert(more[known.len() as int] == capability);
    if reports_battery(known) {
        let j = choose|j: int|
            0 <= j < known.len() && (#[trigger] known[j])@ == "CAP_BATTERY_STATUS"@;
        assert(more[j] == known[j]);
    }
    if reports_battery(more) {
        let j = choose|j: int|
            0 <= j < more.len() && (#[trigger] more[j])@ == "CAP_BATTERY_STATUS"@;
        if j < known.len() {
            assert(known[j] == more[j]);
        }
    }
}

/// An output without a document has no headsets. From one with a document come
/// exactly the headsets of what it reads as; it fails only if it does not read
/// as anything, and then with what is wrong with it.
pub proof fn law_reading_is_that_of_the_document<E, F: Fn(&str) -> Result<Report, E>>(
    stdout: Seq<char>,
    read: F,
    found: Result<Vec<Headset>, E>,
)
    requires
        is_reading_of(stdout, read, found),
    ensures
        json_part(stdout).len() == 0 ==> found is Ok && found->Ok_0@.len() == 0,
        json_part(stdout).len() > 0 ==> exists|json: &str, outcome: Result<Report, E>| #[trigger]
            read.ensures((json,), outcome) && json@ == json_part(stdout) && (outcome is Ok
                <==> found is Ok) && (outcome is Ok ==> found->Ok_0@ == headsets_of(
                outcome->Ok_0.devices@,
            )) && (outcome is Err ==> found->Err_0 == outcome->Err_0),
{
}

} // verus!
