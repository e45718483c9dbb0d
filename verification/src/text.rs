//! Text, character by character.
//!
//! A string is modelled as its sequence of characters. Everything the daemon
//! reads from the kernel, from its environment or from HeadsetControl goes
//! through here before a decision is made on it.

use vstd::prelude::*;
use vstd::utf8::*;

verus! {

/// `String::push`: appends one character to the end.
pub assume_specification[ String::push ](string: &mut String, ch: char)
    ensures
        final(string)@ == old(string)@.push(ch),
;

/// The characters of `text`.
pub fn chars_of(text: &str) -> (chars: Vec<char>)
    ensures
        chars@ == text@,
{
    let mut chars: Vec<char> = Vec::new();
    for c in iter: text.chars()
        invariant
            iter.seq() == text@,
            chars@ == text@.take(iter.index() as int),
    {
        chars.push(c);
        assert(text@.take(iter.index() + 1) =~= text@.take(iter.index() as int).push(c));
    }
    assert(text@.take(text@.len() as int) =~= text@);
    chars
}

/// Whether `c` is a control character: the code points of category Cc.
pub open spec fn is_control_char(c: char) -> bool {
    c as u32 <= 0x1f || 0x7f <= c as u32 <= 0x9f
}

/// Whether `c` is white space: the code points with the White_Space property.
pub open spec fn is_space_char(c: char) -> bool {
    let code = c as u32;
    ||| 0x09 <= code <= 0x0d
    ||| code == 0x20
    ||| code == 0x85
    ||| code == 0xa0
    ||| code == 0x1680
    ||| 0x2000 <= code <= 0x200a
    ||| code == 0x2028
    ||| code == 0x2029
    ||| code == 0x202f
    ||| code == 0x205f
    ||| code == 0x3000
}

/// Whether `c` is a control character.
pub fn is_control(c: char) -> (yes: bool)
    ensures
        yes == is_control_char(c),
{
    let code: u32 = c as u32;
    code <= 0x1f || (0x7f <= code && code <= 0x9f)
}

/// Whether `c` is white space.
pub fn is_whitespace(c: char) -> (yes: bool)
    ensures
        yes == is_space_char(c),
{
    let code: u32 = c as u32;
    (0x09 <= code && code <= 0x0d) || code == 0x20 || code == 0x85 || code == 0xa0 || code == 0x1680
        || (0x2000 <= code && code <= 0x200a) || code == 0x2028 || code == 0x2029 || code == 0x202f
        || code == 0x205f || code == 0x3000
}

/// `text` without its leading white space.
pub open spec fn trim_front(text: Seq<char>) -> Seq<char>
    decreases text.len(),
{
    if text.len() > 0 && is_space_char(text[0]) {
        trim_front(text.drop_first())
    } else {
        text
    }
}

/// `text` without its trailing white space.
pub open spec fn trim_back(text: Seq<char>) -> Seq<char>
    decreases text.len(),
{
    if text.len() > 0 && is_space_char(text.last()) {
        trim_back(text.drop_last())
    } else {
        text
    }
}

/// `text` without white space at either end.
pub open spec fn trimmed(text: Seq<char>) -> Seq<char> {
    trim_back(trim_front(text))
}

/// `text` without white space at either end.
pub fn trim(text: &str) -> (rest: &str)
    ensures
        rest@ == trimmed(text@),
{
    let chars = chars_of(text);
    let mut start: usize = 0;
    assert(text@.skip(0) =~= text@);
    while start < chars.len() && is_whitespace(chars[start])
        invariant
            chars@ == text@,
            start <= chars.len(),
            trim_front(text@) == trim_front(text@.skip(start as int)),
        decreases chars.len() - start,
    {
        assert(text@.skip(start as int).drop_first() =~= text@.skip(start + 1));
        start = start + 1;
    }
    let mut end: usize = chars.len();
    assert(text@.subrange(start as int, end as int) =~= text@.skip(start as int));
    while start < end && is_whitespace(chars[end - 1])
        invariant
            chars@ == text@,
            start <= end <= chars.len(),
            trimmed(text@) == trim_back(text@.subrange(start as int, end as int)),
        decreases end,
    {
        assert(text@.subrange(start as int, end as int).drop_last() =~= text@.subrange(
            start as int,
            end - 1,
        ));
        end = end - 1;
    }
    text.substring_char(start, end)
}

/// What `c` counts for as a digit, in bases up to sixteen.
pub open spec fn digit(c: char, radix: nat) -> Option<nat> {
    let value = if '0' <= c <= '9' {
        (c as u32 - '0' as u32) as nat
    } else if 'a' <= c <= 'f' {
        (c as u32 - 'a' as u32 + 10) as nat
    } else if 'A' <= c <= 'F' {
        (c as u32 - 'A' as u32 + 10) as nat
    } else {
        16
    };
    if value < radix {
        Some(value)
    } else {
        None
    }
}

/// The number a run of digits spells, if digits are all it holds.
pub open spec fn number(digits: Seq<char>, radix: nat) -> Option<nat>
    decreases digits.len(),
{
    if digits.len() == 0 {
        Some(0)
    } else {
        match (number(digits.drop_last(), radix), digit(digits.last(), radix)) {
            (Some(high), Some(low)) => Some(high * radix + low),
            _ => None,
        }
    }
}

/// The number `text` spells: an optional plus sign, then digits and nothing
/// else, for a value of at most `max`.
pub open spec fn parsed(text: Seq<char>, radix: nat, max: nat) -> Option<nat> {
    let digits = if text.len() > 0 && text[0] == '+' {
        text.drop_first()
    } else {
        text
    };
    if digits.len() == 0 {
        None
    } else {
        match number(digits, radix) {
            Some(value) if value <= max => Some(value),
            _ => None,
        }
    }
}

/// Digits added at the end never make a number smaller.
proof fn lemma_number_grows(digits: Seq<char>, upto: int, radix: nat)
    requires
        0 <= upto <= digits.len(),
        radix >= 1,
    ensures
        number(digits, radix) matches Some(all) ==> {
            &&& number(digits.take(upto), radix) matches Some(part)
            &&& part <= all
        },
    decreases digits.len(),
{
    if upto == digits.len() {
        assert(digits.take(upto) =~= digits);
    } else {
        lemma_number_grows(digits.drop_last(), upto, radix);
        assert(digits.drop_last().take(upto) =~= digits.take(upto));
        if let Some(high) = number(digits.drop_last(), radix) {
            assert(high <= high * radix) by (nonlinear_arith)
                requires
                    radix >= 1,
            ;
        }
    }
}

/// What `c` counts for as a digit.
fn digit_value(c: char, radix: u32) -> (value: Option<u32>)
    requires
        radix <= 16,
    ensures
        match value {
            Some(v) => digit(c, radix as nat) == Some(v as nat) && v < radix,
            None => digit(c, radix as nat) is None,
        },
{
    let value: u32 = if '0' <= c && c <= '9' {
        c as u32 - '0' as u32
    } else if 'a' <= c && c <= 'f' {
        c as u32 - 'a' as u32 + 10
    } else if 'A' <= c && c <= 'F' {
        c as u32 - 'A' as u32 + 10
    } else {
        16
    };
    if value < radix {
        Some(value)
    } else {
        None
    }
}

/// Reads a number written in base `radix`, if it is one and at most `max`.
pub fn parse_number(text: &str, radix: u32, max: u32) -> (value: Option<u32>)
    requires
        2 <= radix <= 16,
    ensures
        match value {
            Some(v) => parsed(text@, radix as nat, max as nat) == Some(v as nat),
            None => parsed(text@, radix as nat, max as nat) is None,
        },
{
    let chars = chars_of(text);
    let start: usize = if chars.len() > 0 && chars[0] == '+' {
        1
    } else {
        0
    };
    let ghost digits = chars@.skip(start as int);
    assert(chars@.skip(0) =~= chars@);
    assert(start == 1 ==> digits =~= chars@.drop_first());
    if start == chars.len() {
        return None;
    }
    let mut value: u64 = 0;
    let mut at: usize = start;
    assert(digits.take(0) =~= Seq::<char>::empty());
    while at < chars.len()
        invariant
            2 <= radix <= 16,
            start <= at <= chars.len(),
            digits == chars@.skip(start as int),
            value <= max,
            number(digits.take(at - start), radix as nat) == Some(value as nat),
            digits.len() > 0,
            parsed(text@, radix as nat, max as nat) == (match number(digits, radix as nat) {
                Some(n) if n <= max => Some(n),
                _ => None::<nat>,
            }),
        decreases chars.len() - at,
    {
        let ghost read = digits.take(at - start + 1);
        assert(read.drop_last() =~= digits.take(at - start));
        assert(read.last() == chars@[at as int]);
        proof {
            lemma_number_grows(digits, at - start + 1, radix as nat);
        }
        match digit_value(chars[at], radix) {
            Some(low) => {
                assert(value * radix + low <= 0xffff_ffff * 16 + 16) by (nonlinear_arith)
                    requires
                        value <= 0xffff_ffff,
                        radix <= 16,
                        low <= 16,
                ;
                assert(value * radix <= 0xffff_ffff * 16) by (nonlinear_arith)
                    requires
                        value <= 0xffff_ffff,
                        radix <= 16,
                ;
                value = value * radix as u64 + low as u64;
                if value > max as u64 {
                    return None;
                }
            },
            None => {
                return None;
            },
        }
        at = at + 1;
    }
    assert(digits.take(at - start) =~= digits);
    Some(value as u32)
}

/// The pieces of `text` between the separators: always one more than there are
/// separators.
pub open spec fn pieces(text: Seq<char>, separator: char) -> Seq<Seq<char>>
    decreases text.len(),
{
    if text.len() == 0 {
        seq![Seq::<char>::empty()]
    } else {
        let before = pieces(text.drop_last(), separator);
        if text.last() == separator {
            before.push(Seq::<char>::empty())
        } else {
            before.drop_last().push(before.last().push(text.last()))
        }
    }
}

/// What a list of strings says.
pub open spec fn texts(list: Seq<&str>) -> Seq<Seq<char>> {
    list.map_values(|piece: &str| piece@)
}

/// Splits `text` at every separator.
pub fn split(text: &str, separator: char) -> (list: Vec<&str>)
    ensures
        texts(list@) == pieces(text@, separator),
        list@.len() >= 1,
{
    let chars = chars_of(text);
    let mut list: Vec<&str> = Vec::new();
    let mut start: usize = 0;
    let mut at: usize = 0;
    assert(text@.take(0) =~= Seq::<char>::empty());
    assert(texts(list@).push(text@.subrange(0, 0)) =~= seq![Seq::<char>::empty()]);
    while at < chars.len()
        invariant
            chars@ == text@,
            start <= at <= chars.len(),
            pieces(text@.take(at as int), separator) == texts(list@).push(
                text@.subrange(start as int, at as int),
            ),
        decreases chars.len() - at,
    {
        let ghost seen = text@.take(at + 1);
        let ghost known = texts(list@);
        assert(seen.drop_last() =~= text@.take(at as int));
        assert(seen.last() == text@[at as int]);
        let ghost open = text@.subrange(start as int, at as int);
        assert(known.push(open).drop_last() =~= known);
        if chars[at] == separator {
            let piece = text.substring_char(start, at);
            list.push(piece);
            assert(texts(list@) =~= known.push(open));
            start = at + 1;
            assert(text@.subrange(start as int, at + 1) =~= Seq::<char>::empty());
        } else {
            assert(open.push(text@[at as int]) =~= text@.subrange(start as int, at + 1));
        }
        at = at + 1;
    }
    let ghost known = texts(list@);
    let piece = text.substring_char(start, at);
    list.push(piece);
    assert(texts(list@) =~= known.push(text@.subrange(start as int, at as int)));
    assert(text@.take(at as int) =~= text@);
    list
}

/// Whether `text` begins with `prefix`.
pub open spec fn begins_with(text: Seq<char>, prefix: Seq<char>) -> bool {
    prefix.len() <= text.len() && text.take(prefix.len() as int) == prefix
}

/// What follows `prefix` in `text`, if `text` begins with it.
pub fn strip_prefix<'a>(text: &'a str, prefix: &str) -> (rest: Option<&'a str>)
    ensures
        rest is Some <==> begins_with(text@, prefix@),
        rest matches Some(r) ==> r@ == text@.skip(prefix@.len() as int),
{
    let chars = chars_of(text);
    let wanted = chars_of(prefix);
    if chars.len() < wanted.len() {
        return None;
    }
    let mut at: usize = 0;
    while at < wanted.len()
        invariant
            chars@ == text@,
            wanted@ == prefix@,
            at <= wanted.len() <= chars.len(),
            forall|i: int| 0 <= i < at ==> chars@[i] == wanted@[i],
        decreases wanted.len() - at,
    {
        if chars[at] != wanted[at] {
            assert(text@.take(prefix@.len() as int)[at as int] != prefix@[at as int]);
            return None;
        }
        at = at + 1;
    }
    assert(text@.take(prefix@.len() as int) =~= prefix@);
    let rest = text.substring_char(wanted.len(), chars.len());
    assert(rest@ =~= text@.skip(prefix@.len() as int));
    Some(rest)
}

/// Whether the two texts are the same.
pub fn same(left: &str, right: &str) -> (yes: bool)
    ensures
        yes == (left@ == right@),
{
    match strip_prefix(left, right) {
        Some(rest) => {
            assert(rest@.len() == 0 ==> left@ =~= right@);
            rest.is_empty()
        },
        None => {
            assert(right@.take(right@.len() as int) =~= right@);
            false
        },
    }
}

/// A line without the carriage return that may precede its line feed.
pub open spec fn chomped(line: Seq<char>) -> Seq<char> {
    if line.len() > 0 && line.last() == '\r' {
        line.drop_last()
    } else {
        line
    }
}

/// The lines of `text`: each ends with a line feed, which a carriage return may
/// precede, and the last one may do without.
pub open spec fn lines_of(text: Seq<char>) -> Seq<Seq<char>> {
    let parts = pieces(text, '\n');
    let ended = parts.drop_last().map_values(|line: Seq<char>| chomped(line));
    if parts.last().len() == 0 {
        ended
    } else {
        ended.push(parts.last())
    }
}

/// The lines of `text`.
pub fn lines(text: &str) -> (list: Vec<&str>)
    ensures
        texts(list@) == lines_of(text@),
{
    let parts = split(text, '\n');
    let ghost said = pieces(text@, '\n');
    let last: usize = parts.len() - 1;
    let mut list: Vec<&str> = Vec::new();
    let mut at: usize = 0;
    while at < last
        invariant
            parts.len() == last + 1,
            texts(parts@) == said,
            at <= last,
            texts(list@) =~= said.take(at as int).map_values(|line: Seq<char>| chomped(line)),
        decreases last - at,
    {
        let line = parts[at];
        assert(line@ == texts(parts@)[at as int]);
        let chars = chars_of(line);
        let ghost known = texts(list@);
        if chars.len() > 0 && chars[chars.len() - 1] == '\r' {
            let rest = line.substring_char(0, chars.len() - 1);
            assert(rest@ =~= chomped(line@));
            list.push(rest);
        } else {
            list.push(line);
        }
        assert(texts(list@) =~= known.push(chomped(said[at as int])));
        at = at + 1;
    }
    assert(said.take(last as int) =~= said.drop_last());
    assert(parts@[last as int]@ == texts(parts@)[last as int]);
    if !parts[last].is_empty() {
        let ghost known = texts(list@);
        list.push(parts[last]);
        assert(texts(list@) =~= known.push(said.last()));
    }
    list
}

/// The lower-case digit for a value below sixteen.
pub open spec fn hex_digit(value: nat) -> char {
    if value < 10 {
        ('0' as u32 + value) as char
    } else {
        ('a' as u32 + value - 10) as char
    }
}

/// Four lower-case hexadecimal digits, leading zeros and all.
pub open spec fn hex4(value: u16) -> Seq<char> {
    seq![
        hex_digit((value / 4096) as nat),
        hex_digit((value / 256 % 16) as nat),
        hex_digit((value / 16 % 16) as nat),
        hex_digit((value % 16) as nat),
    ]
}

/// A number in decimal, without leading zeros.
pub open spec fn decimal(value: nat) -> Seq<char>
    decreases value,
{
    if value < 10 {
        seq![hex_digit(value)]
    } else {
        decimal(value / 10).push(hex_digit(value % 10))
    }
}

fn hex_char(value: u8) -> (c: char)
    requires
        value < 16,
    ensures
        c == hex_digit(value as nat),
{
    if value < 10 {
        (48 + value) as char
    } else {
        (97 + (value - 10)) as char
    }
}

/// Appends four lower-case hexadecimal digits.
pub fn push_hex4(out: &mut String, value: u16)
    ensures
        final(out)@ == old(out)@ + hex4(value),
{
    out.push(hex_char((value / 4096) as u8));
    out.push(hex_char((value / 256 % 16) as u8));
    out.push(hex_char((value / 16 % 16) as u8));
    out.push(hex_char((value % 16) as u8));
    assert(out@ =~= old(out)@ + hex4(value));
}

/// Appends a number in decimal.
pub fn push_decimal(out: &mut String, value: u64)
    ensures
        final(out)@ == old(out)@ + decimal(value as nat),
    decreases value,
{
    if value < 10 {
        out.push(hex_char(value as u8));
    } else {
        push_decimal(out, value / 10);
        out.push(hex_char((value % 10) as u8));
    }
    assert(out@ =~= old(out)@ + decimal(value as nat));
}

/// The texts of `list` one after the other, with `separator` in between.
pub open spec fn joined(list: Seq<Seq<char>>, separator: Seq<char>) -> Seq<char>
    decreases list.len(),
{
    if list.len() == 0 {
        Seq::empty()
    } else if list.len() == 1 {
        list[0]
    } else {
        joined(list.drop_last(), separator) + separator + list.last()
    }
}

/// How many bytes `text` takes in UTF-8.
pub open spec fn byte_len(text: Seq<char>) -> nat {
    encode_utf8(text).len()
}

/// The longest beginning of `text` that takes no more than `max` bytes in
/// UTF-8, cut between two characters and never inside one.
pub open spec fn fitting(text: Seq<char>, max: nat) -> Seq<char>
    decreases text.len(),
{
    if text.len() == 0 || byte_len(text) <= max {
        text
    } else {
        fitting(text.drop_last(), max)
    }
}

/// Encoding one more character adds that character's bytes at the end.
proof fn lemma_encode_push(text: Seq<char>, c: char)
    ensures
        encode_utf8(text.push(c)) == encode_utf8(text) + encode_scalar(c as u32),
    decreases text.len(),
{
    reveal_with_fuel(encode_utf8, 2);
    if text.len() == 0 {
        assert(text.push(c).drop_first() =~= Seq::<char>::empty());
        assert(encode_utf8(text.push(c)) =~= encode_utf8(text) + encode_scalar(c as u32));
    } else {
        lemma_encode_push(text.drop_first(), c);
        assert(text.push(c).drop_first() =~= text.drop_first().push(c));
        assert(encode_utf8(text.push(c)) =~= encode_utf8(text) + encode_scalar(c as u32));
    }
}

/// A shorter beginning never takes more bytes.
pub proof fn lemma_byte_len_grows(text: Seq<char>, upto: int)
    requires
        0 <= upto <= text.len(),
    ensures
        byte_len(text.take(upto)) <= byte_len(text),
    decreases text.len(),
{
    if upto == text.len() {
        assert(text.take(upto) =~= text);
    } else {
        lemma_byte_len_grows(text.drop_last(), upto);
        lemma_encode_push(text.drop_last(), text.last());
        assert(text.drop_last().push(text.last()) =~= text);
        assert(text.drop_last().take(upto) =~= text.take(upto));
    }
}

/// A beginning that fits, and that one more character would make too long, is
/// the longest that fits.
proof fn lemma_fitting_is(text: Seq<char>, max: nat, upto: int)
    requires
        0 <= upto <= text.len(),
        byte_len(text.take(upto)) <= max,
        upto == text.len() || byte_len(text.take(upto + 1)) > max,
    ensures
        fitting(text, max) == text.take(upto),
    decreases text.len(),
{
    if upto == text.len() {
        assert(text.take(upto) =~= text);
    } else {
        lemma_byte_len_grows(text, upto + 1);
        assert(text.drop_last().take(upto) =~= text.take(upto));
        if upto + 1 < text.len() {
            assert(text.drop_last().take(upto + 1) =~= text.take(upto + 1));
        }
        lemma_fitting_is(text.drop_last(), max, upto);
    }
}

/// What [`fitting`] promises: a beginning of the text that fits.
pub proof fn lemma_fitting(text: Seq<char>, max: nat)
    ensures
        fitting(text, max).len() <= text.len(),
        fitting(text, max) == text.take(fitting(text, max).len() as int),
        byte_len(fitting(text, max)) <= max,
    decreases text.len(),
{
    if text.len() == 0 || byte_len(text) <= max {
        assert(text.take(text.len() as int) =~= text);
    } else {
        lemma_fitting(text.drop_last(), max);
        let cut = fitting(text, max);
        assert(text.drop_last().take(cut.len() as int) =~= text.take(cut.len() as int));
    }
}

fn utf8_width(c: char) -> (width: usize)
    ensures
        width == encode_scalar(c as u32).len(),
        1 <= width <= 4,
{
    let code: u32 = c as u32;
    if code <= 0x7f {
        1
    } else if code <= 0x7ff {
        2
    } else if code <= 0xffff {
        3
    } else {
        4
    }
}

/// The longest beginning of `text` that takes no more than `max` bytes.
pub fn fit(text: &str, max: usize) -> (cut: &str)
    ensures
        cut@ == fitting(text@, max as nat),
{
    let chars = chars_of(text);
    let mut bytes: usize = 0;
    let mut at: usize = 0;
    assert(text@.take(0) =~= Seq::<char>::empty());
    while at < chars.len()
        invariant
            chars@ == text@,
            at <= chars.len(),
            bytes <= max,
            bytes == byte_len(text@.take(at as int)),
        decreases chars.len() - at,
    {
        let width: usize = utf8_width(chars[at]);
        assert(text@.take(at + 1) =~= text@.take(at as int).push(text@[at as int]));
        proof {
            lemma_encode_push(text@.take(at as int), text@[at as int]);
        }
        if width > max - bytes {
            proof {
                lemma_fitting_is(text@, max as nat, at as int);
            }
            return text.substring_char(0, at);
        }
        bytes = bytes + width;
        at = at + 1;
    }
    proof {
        lemma_fitting_is(text@, max as nat, at as int);
        assert(text@.take(at as int) =~= text@);
    }
    text
}

/// Whether `left` comes strictly before `right` in dictionary order.
pub open spec fn before(left: Seq<char>, right: Seq<char>) -> bool
    decreases left.len(),
{
    if right.len() == 0 {
        false
    } else if left.len() == 0 {
        true
    } else if left[0] != right[0] {
        left[0] < right[0]
    } else {
        before(left.drop_first(), right.drop_first())
    }
}

/// Dictionary order is total.
pub proof fn lemma_before_total(left: Seq<char>, right: Seq<char>)
    ensures
        before(left, right) || before(right, left) || left == right,
        !(before(left, right) && before(right, left)),
        left == right ==> !before(left, right),
    decreases left.len(),
{
    if left.len() > 0 && right.len() > 0 {
        lemma_before_total(left.drop_first(), right.drop_first());
        if left[0] == right[0] && left.drop_first() == right.drop_first() {
            assert(seq![left[0]] + left.drop_first() =~= left);
            assert(seq![right[0]] + right.drop_first() =~= right);
        }
    } else {
        assert(left.len() == 0 && right.len() == 0 ==> left =~= right);
    }
}

/// Dictionary order is transitive.
pub proof fn lemma_before_transitive(a: Seq<char>, b: Seq<char>, c: Seq<char>)
    requires
        before(a, b),
        before(b, c),
    ensures
        before(a, c),
    decreases a.len(),
{
    if a.len() > 0 && a[0] == b[0] && b[0] == c[0] {
        lemma_before_transitive(a.drop_first(), b.drop_first(), c.drop_first());
    }
}

/// Whether `left` comes strictly before `right` in dictionary order.
pub fn precedes(left: &str, right: &str) -> (yes: bool)
    ensures
        yes == before(left@, right@),
{
    let a = chars_of(left);
    let b = chars_of(right);
    let mut at: usize = 0;
    assert(left@.skip(0) =~= left@);
    assert(right@.skip(0) =~= right@);
    while at < a.len() && at < b.len()
        invariant
            a@ == left@,
            b@ == right@,
            at <= a.len(),
            at <= b.len(),
            before(left@, right@) == before(left@.skip(at as int), right@.skip(at as int)),
        decreases a.len() - at,
    {
        if a[at] != b[at] {
            return a[at] < b[at];
        }
        assert(left@.skip(at as int).drop_first() =~= left@.skip(at + 1));
        assert(right@.skip(at as int).drop_first() =~= right@.skip(at + 1));
        at = at + 1;
    }
    at < b.len()
}

/// White space in front makes no difference to what is left.
proof fn lemma_trim_front(front: Seq<char>, rest: Seq<char>)
    requires
        forall|i: int| 0 <= i < front.len() ==> is_space_char(#[trigger] front[i]),
    ensures
        trim_front(front + rest) == trim_front(rest),
    decreases front.len(),
{
    if front.len() == 0 {
        assert(front + rest =~= rest);
    } else {
        assert((front + rest)[0] == front[0]);
        assert((front + rest).drop_first() =~= front.drop_first() + rest);
        assert forall|i: int| 0 <= i < front.drop_first().len() implies is_space_char(
            #[trigger] front.drop_first()[i],
        ) by {
            assert(front.drop_first()[i] == front[i + 1]);
        }
        lemma_trim_front(front.drop_first(), rest);
    }
}

/// White space behind makes no difference to what is left.
proof fn lemma_trim_back(rest: Seq<char>, back: Seq<char>)
    requires
        forall|i: int| 0 <= i < back.len() ==> is_space_char(#[trigger] back[i]),
    ensures
        trim_back(rest + back) == trim_back(rest),
    decreases back.len(),
{
    if back.len() == 0 {
        assert(rest + back =~= rest);
    } else {
        assert((rest + back).last() == back.last());
        assert(back.last() == back[back.len() - 1]);
        assert((rest + back).drop_last() =~= rest + back.drop_last());
        assert forall|i: int| 0 <= i < back.drop_last().len() implies is_space_char(
            #[trigger] back.drop_last()[i],
        ) by {
            assert(back.drop_last()[i] == back[i]);
        }
        lemma_trim_back(rest, back.drop_last());
    }
}

/// Trimming takes off the white space at both ends and nothing else: whatever
/// stands between two runs of white space, and itself neither begins nor ends
/// with any, comes out as it is.
pub proof fn law_trimming_keeps_the_middle(front: Seq<char>, middle: Seq<char>, back: Seq<char>)
    requires
        forall|i: int| 0 <= i < front.len() ==> is_space_char(#[trigger] front[i]),
        forall|i: int| 0 <= i < back.len() ==> is_space_char(#[trigger] back[i]),
        middle.len() > 0 ==> !is_space_char(middle[0]) && !is_space_char(middle.last()),
    ensures
        trimmed(front + middle + back) == middle,
{
    assert(front + middle + back =~= front + (middle + back));
    lemma_trim_front(front, middle + back);
    if middle.len() == 0 {
        assert(middle + back =~= back + Seq::<char>::empty());
        lemma_trim_front(back, Seq::empty());
        assert(trim_front(Seq::<char>::empty()) =~= middle);
    } else {
        assert((middle + back)[0] == middle[0]);
        lemma_trim_back(middle, back);
    }
}

/// The digits are `0` to `9`, then `a` to `f` in either case, as far as the base
/// goes; nothing else is one.
pub proof fn law_digits_have_their_values(c: char, value: nat, radix: nat)
    requires
        radix <= 16,
    ensures
        digit(c, radix) == Some(value) <==> (value < radix && (c as int == 48 + value && value < 10
            || c as int == 97 + value - 10 && value >= 10 || c as int == 65 + value - 10 && value
            >= 10)),
{
}

/// Where a digit stands decides what it is worth: each one that follows makes
/// those in front worth the base times as much. A run of characters is a number
/// exactly if each of them is a digit.
pub proof fn law_number_is_positional(high: Seq<char>, low: Seq<char>, radix: nat)
    requires
        radix >= 1,
    ensures
        number(high + low, radix) == (match (number(high, radix), number(low, radix)) {
            (Some(front), Some(back)) => Some(
                (front * vstd::arithmetic::power::pow(radix as int, low.len()) + back) as nat,
            ),
            _ => None::<nat>,
        }),
        number(high, radix) is Some <==> forall|i: int|
            0 <= i < high.len() ==> digit(#[trigger] high[i], radix) is Some,
        high.len() == 1 ==> number(high, radix) == digit(high[0], radix),
    decreases low.len(),
{
    lemma_number_wants_digits(high, radix);
    vstd::arithmetic::power::lemma_pow0(radix as int);
    if high.len() == 1 {
        assert(high.drop_last() =~= Seq::<char>::empty());
        assert(number(high.drop_last(), radix) == Some(0nat));
        assert(0 * radix == 0) by (nonlinear_arith);
    }
    if low.len() == 0 {
        assert(high + low =~= high);
        if let Some(front) = number(high, radix) {
            assert(front * 1 == front) by (nonlinear_arith);
        }
    } else {
        law_number_is_positional(high, low.drop_last(), radix);
        assert((high + low).drop_last() =~= high + low.drop_last());
        assert((high + low).last() == low.last());
        let places = vstd::arithmetic::power::pow(radix as int, low.drop_last().len());
        vstd::arithmetic::power::lemma_pow1(radix as int);
        vstd::arithmetic::power::lemma_pow_adds(radix as int, low.drop_last().len(), 1);
        if let (Some(front), Some(back)) = (
            number(high, radix),
            number(low.drop_last(), radix),
        ) {
            if let Some(last) = digit(low.last(), radix) {
                vstd::arithmetic::power::lemma_pow_positive(radix as int, low.drop_last().len());
                assert(front * places >= 0) by (nonlinear_arith)
                    requires
                        front >= 0,
                        places >= 0,
                ;
                assert((front * places + back) * radix + last == front * (places * radix) + (back
                    * radix + last)) by (nonlinear_arith);
                assert(front * (places * radix) >= 0) by (nonlinear_arith)
                    requires
                        front >= 0,
                        places >= 0,
                        radix >= 0,
                ;
            }
        }
    }
}

/// A run of characters is a number exactly when each of them is a digit.
proof fn lemma_number_wants_digits(digits: Seq<char>, radix: nat)
    ensures
        number(digits, radix) is Some <==> forall|i: int|
            0 <= i < digits.len() ==> digit(#[trigger] digits[i], radix) is Some,
    decreases digits.len(),
{
    if digits.len() > 0 {
        lemma_number_wants_digits(digits.drop_last(), radix);
        if number(digits, radix) is Some {
            assert forall|i: int| 0 <= i < digits.len() implies digit(
                #[trigger] digits[i],
                radix,
            ) is Some by {
                if i < digits.len() - 1 {
                    assert(digits.drop_last()[i] == digits[i]);
                }
            }
        }
        if forall|i: int| 0 <= i < digits.len() ==> digit(#[trigger] digits[i], radix) is Some {
            assert(digit(digits[digits.len() - 1], radix) is Some);
            assert forall|i: int| 0 <= i < digits.drop_last().len() implies digit(
                #[trigger] digits.drop_last()[i],
                radix,
            ) is Some by {
                assert(digits.drop_last()[i] == digits[i]);
            }
        }
    }
}

/// What a text must be for a number to be read out of it: digits, one at the
/// least, whose number is no larger than allowed. A plus sign in front makes no
/// difference, a second one does.
pub proof fn law_number_is_read_from_digits_alone(digits: Seq<char>, radix: nat, max: nat)
    requires
        radix <= 16,
    ensures
        ({
            let read = if digits.len() > 0 && number(digits, radix) is Some && number(
                digits,
                radix,
            )->0 <= max {
                number(digits, radix)
            } else {
                None::<nat>
            };
            &&& parsed(seq!['+'] + digits, radix, max) == read
            &&& (digits.len() == 0 || digits[0] != '+') ==> parsed(digits, radix, max) == read
            &&& digits.len() > 0 && digits[0] == '+' ==> read is None
        }),
{
    assert((seq!['+'] + digits).drop_first() =~= digits);
    assert((seq!['+'] + digits)[0] == '+');
    lemma_number_wants_digits(digits, radix);
    assert(digit('+', radix) is None);
}

/// The digits a number is spelled with in decimal are those of that number, and
/// the first of them is a zero only if it is zero.
proof fn lemma_decimal_is_read(value: nat)
    ensures
        number(decimal(value), 10) == Some(value),
        decimal(value).len() >= 1,
        '0' <= decimal(value)[0] <= '9',
        decimal(value)[0] == '0' ==> value == 0,
    decreases value,
{
    if value < 10 {
        let spelled = decimal(value);
        assert(spelled.drop_last() =~= Seq::<char>::empty());
        assert(number(spelled.drop_last(), 10) == Some(0nat));
        assert(digit(hex_digit(value), 10) == Some(value));
    } else {
        lemma_decimal_is_read(value / 10);
        let spelled = decimal(value);
        assert(spelled.drop_last() =~= decimal(value / 10));
        assert(digit(hex_digit(value % 10), 10) == Some(value % 10));
        assert(spelled[0] == decimal(value / 10)[0]);
    }
}

/// A number spelled in decimal is read back as that number, if it is allowed to
/// be that large, and never has a leading zero.
pub proof fn law_decimal_is_read_back(value: nat, max: nat)
    ensures
        parsed(decimal(value), 10, max) == (if value <= max {
            Some(value)
        } else {
            None::<nat>
        }),
        decimal(value)[0] == '0' ==> value == 0 && decimal(value).len() == 1,
{
    lemma_decimal_is_read(value);
}

/// A 16-bit number spelled in hexadecimal is read back as that number. Its
/// spelling is four characters long, and has no capitals.
#[verifier::spinoff_prover]
pub proof fn law_hex_is_read_back(value: u16)
    ensures
        parsed(hex4(value), 16, 0xffff) == Some(value as nat),
        hex4(value).len() == 4,
        forall|i: int|
            0 <= i < 4 ==> ('0' <= #[trigger] hex4(value)[i] <= '9' || 'a' <= hex4(value)[i]
                <= 'f'),
{
    let spelled = hex4(value);
    let a = (value / 4096) as nat;
    let b = (value / 256 % 16) as nat;
    let c = (value / 16 % 16) as nat;
    let d = (value % 16) as nat;
    assert(value == value / 4096 * 4096 + value / 256 % 16 * 256 + value / 16 % 16 * 16 + value % 16
        && value / 4096 < 16 && value / 256 % 16 < 16 && value / 16 % 16 < 16 && value % 16 < 16)
        by (bit_vector);
    reveal_with_fuel(number, 5);
    assert(digit(hex_digit(a), 16) == Some(a));
    assert(digit(hex_digit(b), 16) == Some(b));
    assert(digit(hex_digit(c), 16) == Some(c));
    assert(digit(hex_digit(d), 16) == Some(d));
    let first = spelled.drop_last().drop_last().drop_last();
    assert(first.drop_last() =~= Seq::<char>::empty());
    assert(first.last() == hex_digit(a));
    assert(spelled.drop_last().drop_last().last() == hex_digit(b));
    assert(spelled.drop_last().last() == hex_digit(c));
    assert(spelled.last() == hex_digit(d));
    assert(number(first, 16) == Some(a));
    assert(number(spelled.drop_last().drop_last(), 16) == Some(a * 16 + b));
    assert(number(spelled.drop_last(), 16) == Some((a * 16 + b) * 16 + c));
    assert(number(spelled, 16) == Some(((a * 16 + b) * 16 + c) * 16 + d));
}

/// Joining two lists joins what each of them is joined to.
pub proof fn law_joining_goes_piece_by_piece(
    left: Seq<Seq<char>>,
    right: Seq<Seq<char>>,
    separator: Seq<char>,
)
    requires
        left.len() > 0,
    ensures
        right.len() > 0 ==> joined(left + right, separator) == joined(left, separator) + separator
            + joined(right, separator),
        left.len() == 1 ==> joined(left, separator) == left[0],
        joined(Seq::<Seq<char>>::empty(), separator).len() == 0,
    decreases right.len(),
{
    if right.len() == 1 {
        assert((left + right).drop_last() =~= left);
        assert((left + right).last() == right[0]);
    } else if right.len() > 1 {
        law_joining_goes_piece_by_piece(left, right.drop_last(), separator);
        assert((left + right).drop_last() =~= left + right.drop_last());
        assert((left + right).last() == right.last());
        assert(joined(left + right, separator) =~= joined(left, separator) + separator + joined(
            right,
            separator,
        ));
    }
}

/// The pieces of two texts with a separator in between are the pieces of the
/// one and then those of the other.
proof fn lemma_pieces_of_both(left: Seq<char>, right: Seq<char>, separator: char)
    ensures
        pieces(left + seq![separator] + right, separator) == pieces(left, separator) + pieces(
            right,
            separator,
        ),
        pieces(right, separator).len() >= 1,
    decreases right.len(),
{
    let whole = left + seq![separator] + right;
    if right.len() == 0 {
        assert(whole.drop_last() =~= left);
        assert(whole.last() == separator);
        assert(pieces(whole, separator) =~= pieces(left, separator) + pieces(right, separator));
    } else {
        lemma_pieces_of_both(left, right.drop_last(), separator);
        assert(whole.drop_last() =~= left + seq![separator] + right.drop_last());
        assert(whole.last() == right.last());
        let front = pieces(left, separator);
        let known = pieces(right.drop_last(), separator);
        assert((front + known).drop_last() =~= front + known.drop_last());
        assert((front + known).last() == known.last());
        assert(pieces(whole, separator) =~= front + pieces(right, separator));
    }
}

/// A text without separators is a single piece.
proof fn lemma_single_piece(text: Seq<char>, separator: char)
    requires
        !text.contains(separator),
    ensures
        pieces(text, separator) == seq![text],
    decreases text.len(),
{
    if text.len() > 0 {
        assert forall|i: int| 0 <= i < text.drop_last().len() implies text.drop_last()[i]
            != separator by {
            assert(text.contains(text[i]));
        }
        lemma_single_piece(text.drop_last(), separator);
        assert(text.contains(text[text.len() - 1]));
        assert(text.drop_last().push(text.last()) =~= text);
        assert(pieces(text, separator) =~= seq![text]);
    } else {
        assert(text =~= Seq::<char>::empty());
    }
}

/// Joining the pieces with the separator gives the text back, and no piece holds
/// a separator.
pub proof fn law_pieces_make_up_the_text(text: Seq<char>, separator: char)
    ensures
        joined(pieces(text, separator), seq![separator]) == text,
        pieces(text, separator).len() >= 1,
        forall|i: int|
            0 <= i < pieces(text, separator).len() ==> !(#[trigger] pieces(
                text,
                separator,
            )[i]).contains(separator),
    decreases text.len(),
{
    let list = pieces(text, separator);
    if text.len() == 0 {
        assert(list =~= seq![Seq::<char>::empty()]);
        assert(joined(list, seq![separator]) =~= text);
    } else {
        law_pieces_make_up_the_text(text.drop_last(), separator);
        let known = pieces(text.drop_last(), separator);
        assert(text.drop_last().push(text.last()) =~= text);
        if text.last() == separator {
            assert(list.drop_last() =~= known);
            assert(joined(list, seq![separator]) =~= text);
        } else {
            assert(list.drop_last() =~= known.drop_last());
            assert(list.last() == known.last().push(text.last()));
            assert(joined(list, seq![separator]) =~= joined(known, seq![separator]).push(
                text.last(),
            ));
            assert(!known[known.len() - 1].contains(separator));
            assert(!list.last().contains(separator)) by {
                if list.last().contains(separator) {
                    let i = choose|i: int|
                        0 <= i < list.last().len() && list.last()[i] == separator;
                    assert(known.last()[i] == separator);
                }
            }
        }
        assert forall|i: int| 0 <= i < list.len() implies !(#[trigger] list[i]).contains(
            separator,
        ) by {
            if i < known.len() - 1 || (text.last() == separator && i < known.len()) {
                assert(list[i] == known[i]);
            } else {
                assert(list[i] == list.last());
            }
        }
    }
}

/// A list of texts without separators is what their joint text is split into.
pub proof fn law_joint_text_is_split_again(list: Seq<Seq<char>>, separator: char)
    requires
        list.len() > 0,
        forall|i: int| 0 <= i < list.len() ==> !(#[trigger] list[i]).contains(separator),
    ensures
        pieces(joined(list, seq![separator]), separator) == list,
    decreases list.len(),
{
    if list.len() == 1 {
        assert(!list[0].contains(separator));
        lemma_single_piece(list[0], separator);
        assert(list =~= seq![list[0]]);
    } else {
        assert forall|i: int| 0 <= i < list.drop_last().len() implies !(
        #[trigger] list.drop_last()[i]).contains(separator) by {
            assert(list.drop_last()[i] == list[i]);
        }
        law_joint_text_is_split_again(list.drop_last(), separator);
        assert(!list[list.len() - 1].contains(separator));
        lemma_single_piece(list.last(), separator);
        lemma_pieces_of_both(joined(list.drop_last(), seq![separator]), list.last(), separator);
        assert(list.drop_last() + seq![list.last()] =~= list);
    }
}

/// A line feed ends a line, with or without a carriage return before it; what
/// follows has lines of its own. Text after the last line feed is a line as it
/// stands, and no text is no line.
pub proof fn law_line_feeds_end_lines(line: Seq<char>, rest: Seq<char>)
    requires
        !line.contains('\n'),
    ensures
        lines_of(line + seq!['\r', '\n'] + rest) == seq![line] + lines_of(rest),
        (line.len() == 0 || line.last() != '\r') ==> lines_of(line + seq!['\n'] + rest)
            == seq![line] + lines_of(rest),
        line.len() > 0 ==> lines_of(line) == seq![line],
        lines_of(Seq::<char>::empty()).len() == 0,
{
    let ended = line.push('\r');
    assert(!ended.contains('\n')) by {
        if ended.contains('\n') {
            let i = choose|i: int| 0 <= i < ended.len() && ended[i] == '\n';
            assert(i < line.len());
            assert(line[i] == '\n');
        }
    }
    assert(line + seq!['\r', '\n'] + rest =~= ended + seq!['\n'] + rest);
    lemma_line_feed_ends_line(ended, rest);
    lemma_line_feed_ends_line(line, rest);
    assert(chomped(ended) =~= line);
    lemma_single_piece(line, '\n');
    assert(pieces(line, '\n').drop_last() =~= Seq::<Seq<char>>::empty());
    if line.len() > 0 {
        assert(lines_of(line) =~= seq![line]);
    }
    lemma_single_piece(Seq::<char>::empty(), '\n');
    assert(pieces(Seq::<char>::empty(), '\n').drop_last() =~= Seq::<Seq<char>>::empty());
    assert(lines_of(Seq::<char>::empty()) =~= Seq::<Seq<char>>::empty());
}

proof fn lemma_line_feed_ends_line(line: Seq<char>, rest: Seq<char>)
    requires
        !line.contains('\n'),
    ensures
        lines_of(line + seq!['\n'] + rest) == seq![chomped(line)] + lines_of(rest),
{
    lemma_pieces_of_both(line, rest, '\n');
    lemma_single_piece(line, '\n');
    let parts = pieces(rest, '\n');
    let all = pieces(line + seq!['\n'] + rest, '\n');
    assert(all =~= seq![line] + parts);
    assert(all.drop_last() =~= seq![line] + parts.drop_last());
    assert(all.last() == parts.last());
    assert(all.drop_last().map_values(|line: Seq<char>| chomped(line)) =~= seq![chomped(line)]
        + parts.drop_last().map_values(|line: Seq<char>| chomped(line)));
    assert(lines_of(line + seq!['\n'] + rest) =~= seq![chomped(line)] + lines_of(rest));
}

/// A text begins with a prefix exactly when it is that prefix and something
/// behind it.
pub proof fn law_prefix_stands_in_front(prefix: Seq<char>, rest: Seq<char>, text: Seq<char>)
    ensures
        begins_with(prefix + rest, prefix),
        (prefix + rest).skip(prefix.len() as int) == rest,
        begins_with(text, prefix) ==> text == prefix + text.skip(prefix.len() as int),
{
    assert((prefix + rest).take(prefix.len() as int) =~= prefix);
    assert((prefix + rest).skip(prefix.len() as int) =~= rest);
    if begins_with(text, prefix) {
        assert(text =~= text.take(prefix.len() as int) + text.skip(prefix.len() as int));
    }
}

/// What is cut off to fit is a beginning of the text, fits, and is the longest
/// that does.
pub proof fn law_cut_is_the_longest_that_fits(text: Seq<char>, max: nat, upto: int)
    requires
        0 <= upto <= text.len(),
    ensures
        fitting(text, max).len() <= text.len(),
        fitting(text, max) == text.take(fitting(text, max).len() as int),
        byte_len(fitting(text, max)) <= max,
        byte_len(text.take(upto)) <= max ==> upto <= fitting(text, max).len(),
    decreases text.len(),
{
    if text.len() == 0 || byte_len(text) <= max {
        assert(text.take(text.len() as int) =~= text);
        if text.len() == 0 {
            reveal_with_fuel(encode_utf8, 1);
        }
    } else {
        if upto < text.len() {
            law_cut_is_the_longest_that_fits(text.drop_last(), max, upto);
            assert(text.drop_last().take(upto) =~= text.take(upto));
        } else {
            law_cut_is_the_longest_that_fits(text.drop_last(), max, 0);
            assert(text.take(upto) =~= text);
        }
        let cut = fitting(text, max).len() as int;
        assert(text.drop_last().take(cut) =~= text.take(cut));
    }
}

/// Dictionary order is that of the first character in which two texts differ,
/// and a text comes before whatever goes on from it.
pub proof fn law_first_difference_orders(
    common: Seq<char>,
    left: char,
    right: char,
    left_rest: Seq<char>,
    right_rest: Seq<char>,
)
    ensures
        left != right ==> before(common.push(left) + left_rest, common.push(right) + right_rest)
            == (left < right),
        before(common, common.push(right) + right_rest),
        !before(common.push(left) + left_rest, common),
        !before(common, common),
    decreases common.len(),
{
    let a = common.push(left) + left_rest;
    let b = common.push(right) + right_rest;
    if common.len() == 0 {
        assert(a[0] == left && b[0] == right);
    } else {
        let less = common.drop_first();
        law_first_difference_orders(less, left, right, left_rest, right_rest);
        assert(a[0] == common[0] && b[0] == common[0]);
        assert(a.drop_first() =~= less.push(left) + left_rest);
        assert(b.drop_first() =~= less.push(right) + right_rest);
    }
}

} // verus!
