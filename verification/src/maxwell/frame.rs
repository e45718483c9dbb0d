//! The reports a dongle exchanges.
//!
//! The dongle's input report is a stream of small messages, oldest first, and
//! its second byte counts the bytes written since the report was last fetched;
//! whatever lies beyond is left over from earlier exchanges.
//!
//! ```text
//! 05 <type> <len> 00 <payload; len bytes>
//!
//! 05 5b 03 00  d6 0c 00                   acknowledgement of request d6 0c
//! 05 5d 05 00  d6 0c 00 00 5b             answer to d6 0c: 0x5b = 91 %
//! 05 5d 0e 00  b1 2c 00 02 01 01 <addr>   link event: 01 = headset linked
//! 05 5d 0e 00  b1 2c 00 02 00 01 <addr>   link event: 00 = headset gone
//! ```

use vstd::prelude::*;
use vstd::slice::slice_subrange;

verus! {

/// Every report the dongle exchanges is this long, report ID and all.
pub const MSG_SIZE: usize = 62;

/// Report ID of the dongle's answers.
pub const REPLY_REPORT_ID: u8 = 0x07;

/// "What is the battery level?", on output report `0x06`, relayed to the
/// headset (the `0x80` in third position; `0x00` addresses the dongle itself).
pub const BATTERY_REQUEST: [u8; 9] = [0x06, 0x07, 0x80, 0x05, 0x5a, 0x03, 0x00, 0xd6, 0x0c];

/// Offset of the count of fresh bytes in an input report.
pub const FRESH_LEN_OFFSET: usize = 1;

/// Offset of the first message in an input report.
pub const PAYLOAD_OFFSET: usize = 3;

/// How long the header of a message is, its type and what it is about.
pub const HEADER_LEN: usize = 7;

/// How many bytes come before the payload of a message, counted from its type:
/// the type, the length of the payload, and a zero.
pub const PREFIX_LEN: usize = 3;

/// Where the length of the payload stands, counted from the type.
pub const LEN_OFFSET: usize = 1;

/// Header of the battery answer: message type `0x5d`, five payload bytes,
/// echoing the request (`d6 0c`) with a zero status. The level follows.
pub const BATTERY_ANSWER: [u8; 7] = [0x5d, 0x05, 0x00, 0xd6, 0x0c, 0x00, 0x00];

/// Header of a link event. The byte that follows is `01` when the headset is
/// linked and `00` when it is gone; then come a `01` and the headset's address.
pub const LINK_EVENT: [u8; 7] = [0x5d, 0x0e, 0x00, 0xb1, 0x2c, 0x00, 0x02];

/// The highest level that makes sense.
pub const MAX_LEVEL: u8 = 100;

/// Something the dongle's report stream said.
#[derive(Debug, Clone, Copy, PartialEq, Eq, Structural)]
pub enum Message {
    /// The headset's link came up or went down.
    Link(bool),
    /// The battery level, in percent.
    Battery(u8),
}

/// The part of an input report written since it was last fetched.
pub open spec fn fresh_part(frame: Seq<u8>) -> Seq<u8> {
    if frame.len() <= PAYLOAD_OFFSET {
        Seq::empty()
    } else {
        let end = PAYLOAD_OFFSET + frame[FRESH_LEN_OFFSET as int];
        frame.subrange(
            PAYLOAD_OFFSET as int,
            if end <= frame.len() {
                end
            } else {
                frame.len() as int
            },
        )
    }
}

/// Whether `data` begins with `header`.
pub open spec fn headed(data: Seq<u8>, header: Seq<u8>) -> bool {
    header.len() <= data.len() && data.take(header.len() as int) == header
}

/// Whether the message whose type starts `data` is all there: its header, the
/// value behind it, and as many payload bytes as it announces.
pub open spec fn is_whole(data: Seq<u8>) -> bool {
    HEADER_LEN < data.len() && PREFIX_LEN + data[LEN_OFFSET as int] <= data.len()
}

/// What the message whose header starts `data` says, if there is one there and
/// it is complete.
pub open spec fn message_at(data: Seq<u8>) -> Option<Message> {
    if !is_whole(data) {
        None
    } else {
        let value = data[HEADER_LEN as int];
        if headed(data, BATTERY_ANSWER@) {
            if value <= MAX_LEVEL {
                Some(Message::Battery(value))
            } else {
                None
            }
        } else if headed(data, LINK_EVENT@) {
            Some(Message::Link(value != 0))
        } else {
            None
        }
    }
}

/// The messages that start in the first `upto` bytes of `data`, oldest first.
pub open spec fn said(data: Seq<u8>, upto: int) -> Seq<Message>
    decreases upto,
{
    if upto <= 0 {
        Seq::empty()
    } else {
        match message_at(data.skip(upto - 1)) {
            Some(message) => said(data, upto - 1).push(message),
            None => said(data, upto - 1),
        }
    }
}

/// Everything the fresh part of an input report says, oldest first.
pub open spec fn messages_in(frame: Seq<u8>) -> Seq<Message> {
    said(fresh_part(frame), fresh_part(frame).len() as int)
}

/// The part of an input report written since it was last fetched.
pub fn fresh(frame: &[u8]) -> (data: &[u8])
    ensures
        data@ == fresh_part(frame@),
{
    if frame.len() <= PAYLOAD_OFFSET {
        let data = slice_subrange(frame, 0, 0);
        assert(data@ =~= Seq::<u8>::empty());
        return data;
    }
    let end: usize = PAYLOAD_OFFSET + frame[FRESH_LEN_OFFSET] as usize;
    if end <= frame.len() {
        slice_subrange(frame, PAYLOAD_OFFSET, end)
    } else {
        slice_subrange(frame, PAYLOAD_OFFSET, frame.len())
    }
}

/// Whether `header` stands at `at`.
fn header_at(data: &[u8], at: usize, header: &[u8; 7]) -> (yes: bool)
    requires
        at + HEADER_LEN < data.len(),
    ensures
        yes == headed(data@.skip(at as int), header@),
{
    let ghost rest = data@.skip(at as int);
    let mut i: usize = 0;
    while i < HEADER_LEN
        invariant
            at + HEADER_LEN < data.len(),
            rest == data@.skip(at as int),
            i <= HEADER_LEN,
            header@.len() == HEADER_LEN,
            forall|j: int| 0 <= j < i ==> rest[j] == header@[j],
        decreases HEADER_LEN - i,
    {
        if data[at + i] != header[i] {
            assert(rest.take(HEADER_LEN as int)[i as int] != header@[i as int]);
            return false;
        }
        i = i + 1;
    }
    assert(rest.take(HEADER_LEN as int) =~= header@);
    true
}

/// Everything the fresh part of an input report says, oldest first.
///
/// Matching on the full message headers, rather than on the command bytes
/// alone, is what keeps an acknowledgement (which echoes `d6 0c` too) from
/// being read as a level. A message cut off by the end of the buffer is
/// skipped, and so is a level above 100.
pub fn messages(frame: &[u8]) -> (list: Vec<Message>)
    ensures
        list@ == messages_in(frame@),
{
    let data = fresh(frame);
    let mut list: Vec<Message> = Vec::new();
    let mut at: usize = 0;
    while at < data.len()
        invariant
            at <= data@.len(),
            list@ == said(data@, at as int),
        decreases data.len() - at,
    {
        let ghost rest = data@.skip(at as int);
        if data.len() - at > HEADER_LEN && data.len() - at >= PREFIX_LEN + data[at
            + LEN_OFFSET] as usize {
            let value: u8 = data[at + HEADER_LEN];
            assert(value == rest[HEADER_LEN as int]);
            if header_at(data, at, &BATTERY_ANSWER) {
                if value <= MAX_LEVEL {
                    list.push(Message::Battery(value));
                }
            } else if header_at(data, at, &LINK_EVENT) {
                list.push(Message::Link(value != 0));
            }
        }
        at = at + 1;
    }
    list
}

/// The battery request, padded to the size of a report.
pub open spec fn request_bytes() -> Seq<u8> {
    BATTERY_REQUEST@ + Seq::new((MSG_SIZE - 9) as nat, |i: int| 0u8)
}

/// The battery request, padded to the size of a report.
pub fn battery_request() -> (request: Vec<u8>)
    ensures
        request@ == request_bytes(),
        request@.len() == MSG_SIZE,
{
    let mut request: Vec<u8> = Vec::new();
    let mut at: usize = 0;
    while at < MSG_SIZE
        invariant
            at <= MSG_SIZE,
            request@ =~= request_bytes().take(at as int),
        decreases MSG_SIZE - at,
    {
        if at < 9 {
            request.push(BATTERY_REQUEST[at]);
        } else {
            request.push(0);
        }
        at = at + 1;
    }
    assert(request_bytes().take(at as int) =~= request_bytes());
    request
}

/// Two reports with the same fresh part say the same: what earlier exchanges
/// left behind is never heard.
pub proof fn law_leftovers_are_not_heard(frame: Seq<u8>, other: Seq<u8>)
    requires
        frame.len() == other.len(),
        frame.len() >= PAYLOAD_OFFSET,
        frame[FRESH_LEN_OFFSET as int] == other[FRESH_LEN_OFFSET as int],
        forall|i: int|
            PAYLOAD_OFFSET <= i < frame.len() && i < PAYLOAD_OFFSET
                + frame[FRESH_LEN_OFFSET as int] ==> #[trigger] frame[i] == other[i],
    ensures
        messages_in(frame) == messages_in(other),
{
    assert(fresh_part(frame) =~= fresh_part(other));
}

/// A report fetched a second time, with nothing written in between, says
/// nothing.
pub proof fn law_nothing_fresh_says_nothing(frame: Seq<u8>)
    requires
        frame.len() > PAYLOAD_OFFSET ==> frame[FRESH_LEN_OFFSET as int] == 0,
    ensures
        messages_in(frame) == Seq::<Message>::empty(),
{
}

/// Every message stands in the stream whole, with its full header, and no level
/// is above 100.
pub proof fn law_messages_are_genuine(data: Seq<u8>, upto: int, index: int)
    requires
        upto <= data.len(),
        0 <= index < said(data, upto).len(),
    ensures
        said(data, upto)[index] matches Message::Battery(level) ==> level <= MAX_LEVEL,
        exists|at: int|
            0 <= at < upto && #[trigger] message_at(data.skip(at)) == Some(
                said(data, upto)[index],
            ) && is_whole(data.skip(at)) && (headed(data.skip(at), BATTERY_ANSWER@) || headed(data.skip(at), LINK_EVENT@)),
    decreases upto,
{
    if upto > 0 {
        let before = said(data, upto - 1);
        if index < before.len() {
            law_messages_are_genuine(data, upto - 1, index);
            assert(said(data, upto)[index] == before[index]);
        } else {
            assert(message_at(data.skip(upto - 1)) == Some(said(data, upto)[index]));
        }
    }
}

/// A message cut off by the end of the buffer says nothing, however much of it
/// is there.
pub proof fn law_cut_off_message_is_skipped(data: Seq<u8>)
    requires
        data.len() > LEN_OFFSET,
        data.len() < PREFIX_LEN + data[LEN_OFFSET as int],
    ensures
        message_at(data) is None,
{
}

/// A message of any type but `5d` - an acknowledgement, type `5b`, for one -
/// says nothing, whatever its payload echoes.
pub proof fn law_acknowledgement_is_not_an_answer(data: Seq<u8>)
    requires
        data.len() > 0,
        data[0] != 0x5d,
    ensures
        message_at(data) is None,
{
    if data.len() > HEADER_LEN {
        assert(data.take(7)[0] == data[0]);
        assert(BATTERY_ANSWER@[0] == 0x5d);
        assert(LINK_EVENT@[0] == 0x5d);
    }
}

/// What is fresh of a report is as many bytes as its second byte counts, from
/// the fourth on, as far as the report goes.
pub proof fn law_fresh_bytes_are_those_counted(
    first: u8,
    count: u8,
    third: u8,
    payload: Seq<u8>,
    stub: Seq<u8>,
)
    requires
        stub.len() <= 3,
    ensures
        fresh_part(seq![first, count, third] + payload) == (if count <= payload.len() {
            payload.take(count as int)
        } else {
            payload
        }),
        fresh_part(stub).len() == 0,
{
    let frame = seq![first, count, third] + payload;
    assert(frame[0] == first && frame[1] == count);
    assert(fresh_part(frame) =~= if count <= payload.len() {
        payload.take(count as int)
    } else {
        payload
    });
}

/// A battery answer says the level behind its header, up to a hundred, and a
/// link event that is all there says whether the headset is linked, whatever
/// follows either of them.
pub proof fn law_whole_messages_say_their_value(value: u8, rest: Seq<u8>)
    ensures
        message_at(seq![0x5du8, 0x05, 0x00, 0xd6, 0x0c, 0x00, 0x00, value] + rest) == (if value
            <= 100 {
            Some(Message::Battery(value))
        } else {
            None
        }),
        message_at(seq![0x5du8, 0x0e, 0x00, 0xb1, 0x2c, 0x00, 0x02, value] + rest) == (if rest.len()
            >= 9 {
            Some(Message::Link(value != 0))
        } else {
            None
        }),
{
    let answer = seq![0x5du8, 0x05, 0x00, 0xd6, 0x0c, 0x00, 0x00, value] + rest;
    let event = seq![0x5du8, 0x0e, 0x00, 0xb1, 0x2c, 0x00, 0x02, value] + rest;
    assert(answer.take(7) =~= BATTERY_ANSWER@);
    assert(event.take(7) =~= LINK_EVENT@);
    assert(event.take(7)[1] == 0x0e);
    assert(BATTERY_ANSWER@[1] == 0x05);
}

/// Nothing but a battery answer and a link event says anything.
pub proof fn law_only_two_kinds_of_message_are_heard(data: Seq<u8>)
    requires
        message_at(data) is Some,
    ensures
        data.len() >= 8,
        data[0] == 0x5d && data[2] == 0x00 && data[5] == 0x00,
        message_at(data)->0 is Battery ==> data[1] == 0x05 && data[3] == 0xd6 && data[4] == 0x0c
            && data[6] == 0x00,
        message_at(data)->0 is Link ==> data[1] == 0x0e && data[3] == 0xb1 && data[4] == 0x2c
            && data[6] == 0x02,
{
    let head = data.take(7);
    assert(head[0] == data[0] && head[1] == data[1] && head[2] == data[2] && head[3] == data[3]
        && head[4] == data[4] && head[5] == data[5] && head[6] == data[6]);
    let answer = BATTERY_ANSWER@;
    let event = LINK_EVENT@;
    assert(answer[0] == 0x5d && answer[1] == 0x05 && answer[2] == 0x00 && answer[3] == 0xd6
        && answer[4] == 0x0c && answer[5] == 0x00 && answer[6] == 0x00);
    assert(event[0] == 0x5d && event[1] == 0x0e && event[2] == 0x00 && event[3] == 0xb1 && event[4]
        == 0x2c && event[5] == 0x00 && event[6] == 0x02);
}

/// Every message that stands in the stream is heard, where it stands: after
/// those that begin before it, and before those that begin after it.
pub proof fn law_every_message_is_heard_in_its_place(data: Seq<u8>, at: int, upto: int)
    requires
        0 <= at < upto,
    ensures
        message_at(data.skip(at)) matches Some(message) ==> said(data, at).len() < said(
            data,
            upto,
        ).len() && said(data, upto)[said(data, at).len() as int] == message,
        said(data, at).len() <= said(data, upto).len(),
        said(data, upto).take(said(data, at).len() as int) == said(data, at),
    decreases upto,
{
    let earlier = said(data, at);
    if at == upto - 1 {
        assert(said(data, upto).take(earlier.len() as int) =~= earlier);
    } else {
        law_every_message_is_heard_in_its_place(data, at, upto - 1);
        assert(said(data, upto).take(earlier.len() as int) =~= said(data, upto - 1).take(
            earlier.len() as int,
        ));
    }
}

/// Every message in the bytes a report counts as fresh is heard.
pub proof fn law_fresh_messages_are_heard(frame: Seq<u8>, at: int, message: Message)
    requires
        0 <= at < fresh_part(frame).len(),
        message_at(fresh_part(frame).skip(at)) == Some(message),
    ensures
        messages_in(frame).contains(message),
{
    let data = fresh_part(frame);
    law_every_message_is_heard_in_its_place(data, at, data.len() as int);
    assert(messages_in(frame)[said(data, at).len() as int] == message);
}

/// The battery request is nine bytes and zeros, as long as any report.
pub proof fn law_request_asks_for_the_battery(i: int)
    requires
        9 <= i < 62,
    ensures
        request_bytes().len() == 62,
        request_bytes().take(9) == seq![0x06u8, 0x07, 0x80, 0x05, 0x5a, 0x03, 0x00, 0xd6, 0x0c],
        request_bytes()[i] == 0,
{
    assert(request_bytes().take(9) =~= seq![
        0x06u8,
        0x07,
        0x80,
        0x05,
        0x5a,
        0x03,
        0x00,
        0xd6,
        0x0c,
    ]);
}

} // verus!
