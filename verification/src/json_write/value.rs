//! What can stand as a JSON value, and the encoding of strings.

use vstd::prelude::*;
use crate::json_write::write::JsonWrite;
use crate::text::decimal;
use crate::text::push_decimal;

verus! {

/// A character escape of JSON.
#[derive(Copy, Clone, Debug, PartialEq, Eq, Structural)]
pub enum CharEscape {
    /// An escaped quote `"`.
    Quote,
    /// An escaped reverse solidus `\`.
    ReverseSolidus,
    /// An escaped backspace character, `\b`.
    Backspace,
    /// An escaped form feed character, `\f`.
    FormFeed,
    /// An escaped line feed character, `\n`.
    LineFeed,
    /// An escaped carriage return character, `\r`.
    CarriageReturn,
    /// An escaped tab character, `\t`.
    Tab,
    /// An escaped ASCII control character, `\u00XX` with two hex digits.
    AsciiControl(u8),
}

/// The hex digit for `d`, which is below sixteen.
pub open spec fn hex_digit(d: nat) -> char {
    if d < 10 {
        crate::text::digit_char(d)
    } else if d == 10 {
        'a'
    } else if d == 11 {
        'b'
    } else if d == 12 {
        'c'
    } else if d == 13 {
        'd'
    } else if d == 14 {
        'e'
    } else {
        'f'
    }
}

/// The text of an escape.
pub open spec fn escape_text(escape: CharEscape) -> Seq<char> {
    match escape {
        CharEscape::Quote => seq!['\\', '"'],
        CharEscape::ReverseSolidus => seq!['\\', '\\'],
        CharEscape::Backspace => seq!['\\', 'b'],
        CharEscape::FormFeed => seq!['\\', 'f'],
        CharEscape::LineFeed => seq!['\\', 'n'],
        CharEscape::CarriageReturn => seq!['\\', 'r'],
        CharEscape::Tab => seq!['\\', 't'],
        CharEscape::AsciiControl(byte) => seq![
            '\\',
            'u',
            '0',
            '0',
            hex_digit((byte / 16) as nat),
            hex_digit((byte % 16) as nat),
        ],
    }
}

/// The escape that a character needs inside a JSON string, if it needs one: the quote,
/// the reverse solidus, and the control characters below the space.
pub open spec fn escape_of(c: char) -> Option<CharEscape> {
    if c == '"' {
        Some(CharEscape::Quote)
    } else if c == '\\' {
        Some(CharEscape::ReverseSolidus)
    } else if c == '\u{8}' {
        Some(CharEscape::Backspace)
    } else if c == '\t' {
        Some(CharEscape::Tab)
    } else if c == '\n' {
        Some(CharEscape::LineFeed)
    } else if c == '\u{c}' {
        Some(CharEscape::FormFeed)
    } else if c == '\r' {
        Some(CharEscape::CarriageReturn)
    } else if (c as int) < 0x20 {
        Some(CharEscape::AsciiControl(c as u8))
    } else {
        None
    }
}

/// What a character becomes inside a JSON string.
pub open spec fn escaped_char(c: char) -> Seq<char> {
    match escape_of(c) {
        Some(escape) => escape_text(escape),
        None => seq![c],
    }
}

/// The contents of a JSON string that stands for `s`.
pub open spec fn escaped(s: Seq<char>) -> Seq<char>
    decreases s.len(),
{
    if s.len() == 0 {
        Seq::empty()
    } else {
        escaped(s.drop_last()) + escaped_char(s.last())
    }
}

/// The JSON string that stands for `s`.
pub open spec fn json_string(s: Seq<char>) -> Seq<char> {
    "\""@ + escaped(s) + "\""@
}

/// The decimal numeral of an integer, with a minus sign where it is negative.
pub open spec fn signed_decimal(v: int) -> Seq<char> {
    if v < 0 {
        "-"@ + decimal((-v) as nat)
    } else {
        decimal(v as nat)
    }
}

fn hex(d: u8) -> (c: char)
    requires
        d < 16,
    ensures
        c == hex_digit(d as nat),
{
    if d == 0 {
        '0'
    } else if d == 1 {
        '1'
    } else if d == 2 {
        '2'
    } else if d == 3 {
        '3'
    } else if d == 4 {
        '4'
    } else if d == 5 {
        '5'
    } else if d == 6 {
        '6'
    } else if d == 7 {
        '7'
    } else if d == 8 {
        '8'
    } else if d == 9 {
        '9'
    } else if d == 10 {
        'a'
    } else if d == 11 {
        'b'
    } else if d == 12 {
        'c'
    } else if d == 13 {
        'd'
    } else if d == 14 {
        'e'
    } else {
        'f'
    }
}

fn push_escape(out: &mut String, escape: CharEscape)
    ensures
        final(out)@ == old(out)@ + escape_text(escape),
{
    out.push('\\');
    match escape {
        CharEscape::Quote => out.push('"'),
        CharEscape::ReverseSolidus => out.push('\\'),
        CharEscape::Backspace => out.push('b'),
        CharEscape::FormFeed => out.push('f'),
        CharEscape::LineFeed => out.push('n'),
        CharEscape::CarriageReturn => out.push('r'),
        CharEscape::Tab => out.push('t'),
        CharEscape::AsciiControl(byte) => {
            out.push('u');
            out.push('0');
            out.push('0');
            out.push(hex(byte / 16));
            out.push(hex(byte % 16));
        },
    }
    proof {
        assert(out@ =~= old(out)@ + escape_text(escape));
    }
}

/// Writes the text of an escape.
pub fn write_char_escape<W: JsonWrite + ?Sized>(writer: &mut W, char_escape: CharEscape) -> (r:
    core::fmt::Result)
    ensures
        final(writer).infallible() == old(writer).infallible(),
        old(writer).infallible() ==> r is Ok,
        r is Ok ==> final(writer).text() == old(writer).text() + escape_text(char_escape),
{
    let mut text = String::new();
    push_escape(&mut text, char_escape);
    writer.write_str(text.as_str())
}

fn find_escape(c: char) -> (escape: Option<CharEscape>)
    ensures
        escape == escape_of(c),
{
    if c == '"' {
        Some(CharEscape::Quote)
    } else if c == '\\' {
        Some(CharEscape::ReverseSolidus)
    } else if c == '\u{8}' {
        Some(CharEscape::Backspace)
    } else if c == '\t' {
        Some(CharEscape::Tab)
    } else if c == '\n' {
        Some(CharEscape::LineFeed)
    } else if c == '\u{c}' {
        Some(CharEscape::FormFeed)
    } else if c == '\r' {
        Some(CharEscape::CarriageReturn)
    } else if ' ' > c {
        Some(CharEscape::AsciiControl(c as u8))
    } else {
        None
    }
}

fn push_escaped(out: &mut String, value: &str)
    ensures
        final(out)@ == old(out)@ + escaped(value@),
{
    broadcast use vstd::string::group_string_axioms;

    for c in it: value.chars()
        invariant
            it.seq() == value@,
            out@ == old(out)@ + escaped(it.seq().take(it.index())),
    {
        proof {
            let s = it.seq();
            let i = it.index();
            assert(s.take(i + 1).drop_last() =~= s.take(i));
            assert(s.take(i + 1).last() == c);
        }
        let ghost before = out@;
        match find_escape(c) {
            Some(escape) => push_escape(out, escape),
            None => out.push(c),
        }
        proof {
            assert(out@ =~= before + escaped_char(c));
        }
    }
    proof {
        assert(value@.take(value@.len() as int) =~= value@);
    }
}

/// Writes the contents of the JSON string that stands for `value`.
pub fn format_escaped_str_contents<W: JsonWrite + ?Sized>(writer: &mut W, value: &str) -> (r:
    core::fmt::Result)
    ensures
        final(writer).infallible() == old(writer).infallible(),
        old(writer).infallible() ==> r is Ok,
        r is Ok ==> final(writer).text() == old(writer).text() + escaped(value@),
{
    let mut text = String::new();
    push_escaped(&mut text, value);
    writer.write_str(text.as_str())
}

/// Writes `null`.
pub fn write_json_null<W: JsonWrite + ?Sized>(writer: &mut W) -> (r: core::fmt::Result)
    ensures
        final(writer).infallible() == old(writer).infallible(),
        old(writer).infallible() ==> r is Ok,
        r is Ok ==> final(writer).text() == old(writer).text() + "null"@,
{
    writer.write_str("null")
}

/// Writes the JSON string that stands for `value`.
pub fn write_json_str<W: JsonWrite + ?Sized>(value: &str, writer: &mut W) -> (r: core::fmt::Result)
    ensures
        final(writer).infallible() == old(writer).infallible(),
        old(writer).infallible() ==> r is Ok,
        r is Ok ==> final(writer).text() == old(writer).text() + json_string(value@),
{
    let mut text = String::new();
    text.append("\"");
    push_escaped(&mut text, value);
    text.append("\"");
    proof {
        assert(text@ =~= json_string(value@));
    }
    writer.write_str(text.as_str())
}

/// A value that can be written as JSON.
pub trait WriteJsonValue {
    /// The JSON text of the value.
    spec fn json_value(&self) -> Seq<char>;

    fn write_json_value<W: JsonWrite + ?Sized>(&self, writer: &mut W) -> (r: core::fmt::Result)
        ensures
            final(writer).infallible() == old(writer).infallible(),
            old(writer).infallible() ==> r is Ok,
            r is Ok ==> final(writer).text() == old(writer).text() + self.json_value(),
    ;
}

impl WriteJsonValue for bool {
    open spec fn json_value(&self) -> Seq<char> {
        if *self {
            "true"@
        } else {
            "false"@
        }
    }

    fn write_json_value<W: JsonWrite + ?Sized>(&self, writer: &mut W) -> (r: core::fmt::Result) {
        if *self {
            writer.write_str("true")
        } else {
            writer.write_str("false")
        }
    }
}

fn write_unsigned<W: JsonWrite + ?Sized>(value: u128, writer: &mut W) -> (r: core::fmt::Result)
    ensures
        final(writer).infallible() == old(writer).infallible(),
        old(writer).infallible() ==> r is Ok,
        r is Ok ==> final(writer).text() == old(writer).text() + signed_decimal(value as int),
{
    let mut text = String::new();
    push_decimal(&mut text, value);
    writer.write_str(text.as_str())
}

fn write_signed<W: JsonWrite + ?Sized>(value: i128, writer: &mut W) -> (r: core::fmt::Result)
    ensures
        final(writer).infallible() == old(writer).infallible(),
        old(writer).infallible() ==> r is Ok,
        r is Ok ==> final(writer).text() == old(writer).text() + signed_decimal(value as int),
{
    let mut text = String::new();
    if value < 0 {
        text.append("-");
        let size: u128 = ((-(value + 1)) as u128) + 1;
        push_decimal(&mut text, size);
    } else {
        push_decimal(&mut text, value as u128);
    }
    proof {
        assert(text@ =~= signed_decimal(value as int));
    }
    writer.write_str(text.as_str())
}

impl WriteJsonValue for u8 {
    open spec fn json_value(&self) -> Seq<char> {
        signed_decimal(*self as int)
    }

    fn write_json_value<W: JsonWrite + ?Sized>(&self, writer: &mut W) -> (r: core::fmt::Result) {
        write_unsigned(*self as u128, writer)
    }
}

impl WriteJsonValue for i8 {
    open spec fn json_value(&self) -> Seq<char> {
        signed_decimal(*self as int)
    }

    fn write_json_value<W: JsonWrite + ?Sized>(&self, writer: &mut W) -> (r: core::fmt::Result) {
        write_signed(*self as i128, writer)
    }
}

impl WriteJsonValue for u16 {
    open spec fn json_value(&self) -> Seq<char> {
        signed_decimal(*self as int)
    }

    fn write_json_value<W: JsonWrite + ?Sized>(&self, writer: &mut W) -> (r: core::fmt::Result) {
        write_unsigned(*self as u128, writer)
    }
}

impl WriteJsonValue for i16 {
    open spec fn json_value(&self) -> Seq<char> {
        signed_decimal(*self as int)
    }

    fn write_json_value<W: JsonWrite + ?Sized>(&self, writer: &mut W) -> (r: core::fmt::Result) {
        write_signed(*self as i128, writer)
    }
}

impl WriteJsonValue for u32 {
    open spec fn json_value(&self) -> Seq<char> {
        signed_decimal(*self as int)
    }

    fn write_json_value<W: JsonWrite + ?Sized>(&self, writer: &mut W) -> (r: core::fmt::Result) {
        write_unsigned(*self as u128, writer)
    }
}

impl WriteJsonValue for i32 {
    open spec fn json_value(&self) -> Seq<char> {
        signed_decimal(*self as int)
    }

    fn write_json_value<W: JsonWrite + ?Sized>(&self, writer: &mut W) -> (r: core::fmt::Result) {
        write_signed(*self as i128, writer)
    }
}

impl WriteJsonValue for u64 {
    open spec fn json_value(&self) -> Seq<char> {
        signed_decimal(*self as int)
    }

    fn write_json_value<W: JsonWrite + ?Sized>(&self, writer: &mut W) -> (r: core::fmt::Result) {
        write_unsigned(*self as u128, writer)
    }
}

impl WriteJsonValue for i64 {
    open spec fn json_value(&self) -> Seq<char> {
        signed_decimal(*self as int)
    }

    fn write_json_value<W: JsonWrite + ?Sized>(&self, writer: &mut W) -> (r: core::fmt::Result) {
        write_signed(*self as i128, writer)
    }
}

impl WriteJsonValue for u128 {
    open spec fn json_value(&self) -> Seq<char> {
        signed_decimal(*self as int)
    }

    fn write_json_value<W: JsonWrite + ?Sized>(&self, writer: &mut W) -> (r: core::fmt::Result) {
        write_unsigned(*self, writer)
    }
}

impl WriteJsonValue for i128 {
    open spec fn json_value(&self) -> Seq<char> {
        signed_decimal(*self as int)
    }

    fn write_json_value<W: JsonWrite + ?Sized>(&self, writer: &mut W) -> (r: core::fmt::Result) {
        write_signed(*self, writer)
    }
}

impl WriteJsonValue for char {
    open spec fn json_value(&self) -> Seq<char> {
        json_string(seq![*self])
    }

    fn write_json_value<W: JsonWrite + ?Sized>(&self, writer: &mut W) -> (r: core::fmt::Result) {
        let mut text = String::new();
        text.push(*self);
        proof {
            assert(text@ =~= seq![*self]);
        }
        write_json_str(text.as_str(), writer)
    }
}

impl WriteJsonValue for str {
    open spec fn json_value(&self) -> Seq<char> {
        json_string(self@)
    }

    fn write_json_value<W: JsonWrite + ?Sized>(&self, writer: &mut W) -> (r: core::fmt::Result) {
        write_json_str(self, writer)
    }
}

impl WriteJsonValue for String {
    open spec fn json_value(&self) -> Seq<char> {
        json_string(self@)
    }

    fn write_json_value<W: JsonWrite + ?Sized>(&self, writer: &mut W) -> (r: core::fmt::Result) {
        write_json_str(self.as_str(), writer)
    }
}

impl WriteJsonValue for std::borrow::Cow<'_, str> {
    open spec fn json_value(&self) -> Seq<char> {
        json_string(self@)
    }

    fn write_json_value<W: JsonWrite + ?Sized>(&self, writer: &mut W) -> (r: core::fmt::Result) {
        match self {
            std::borrow::Cow::Borrowed(borrowed) => write_json_str(borrowed, writer),
            std::borrow::Cow::Owned(owned) => write_json_str(owned.as_str(), writer),
        }
    }
}

impl<T: WriteJsonValue> WriteJsonValue for Option<T> {
    open spec fn json_value(&self) -> Seq<char> {
        match self {
            Some(v) => v.json_value(),
            None => "null"@,
        }
    }

    fn write_json_value<W: JsonWrite + ?Sized>(&self, writer: &mut W) -> (r: core::fmt::Result) {
        match self {
            Some(v) => v.write_json_value(writer),
            None => write_json_null(writer),
        }
    }
}

impl<V: WriteJsonValue + ?Sized> WriteJsonValue for &V {
    open spec fn json_value(&self) -> Seq<char> {
        (*self).json_value()
    }

    fn write_json_value<W: JsonWrite + ?Sized>(&self, writer: &mut W) -> (r: core::fmt::Result) {
        (*self).write_json_value(writer)
    }
}

/// The JSON texts of `items`, separated by a comma and a space.
pub open spec fn joined_values<V: WriteJsonValue>(items: Seq<V>) -> Seq<char>
    decreases items.len(),
{
    if items.len() == 0 {
        Seq::empty()
    } else if items.len() == 1 {
        items[0].json_value()
    } else {
        joined_values(items.drop_last()) + ","@ + " "@ + items.last().json_value()
    }
}

fn push_json_array<V: WriteJsonValue>(out: &mut String, items: &[V])
    ensures
        final(out)@ == old(out)@ + "["@ + joined_values(items@) + "]"@,
{
    out.append("[");
    let ghost head = out@;
    let mut i: usize = 0;
    proof {
        assert(items@.take(0) =~= Seq::empty());
    }
    while i < items.len()
        invariant
            i <= items.len(),
            out@ == head + joined_values(items@.take(i as int)),
        decreases items.len() - i,
    {
        proof {
            assert(items@.take(i + 1).drop_last() =~= items@.take(i as int));
            assert(items@.take(i + 1).last() == items@[i as int]);
        }
        if i > 0 {
            out.append(",");
            out.append(" ");
        }
        let ghost before = out@;
        let r = items[i].write_json_value(out);
        proof {
            assert(out@ == before + items@[i as int].json_value());
            if i == 0 {
                assert(items@.take(1)[0] == items@[0]);
                assert(out@ =~= head + joined_values(items@.take(1)));
            } else {
                assert(out@ =~= head + joined_values(items@.take(i + 1)));
            }
        }
        i += 1;
    }
    out.append("]");
    proof {
        assert(items@.take(i as int) =~= items@);
    }
}

impl<V: WriteJsonValue> WriteJsonValue for [V] {
    open spec fn json_value(&self) -> Seq<char> {
        "["@ + joined_values(self@) + "]"@
    }

    fn write_json_value<W: JsonWrite + ?Sized>(&self, writer: &mut W) -> (r: core::fmt::Result) {
        let mut text = String::new();
        push_json_array(&mut text, self);
        proof {
            assert(text@ =~= self.json_value());
        }
        writer.write_str(text.as_str())
    }
}

impl<V: WriteJsonValue, const N: usize> WriteJsonValue for [V; N] {
    open spec fn json_value(&self) -> Seq<char> {
        "["@ + joined_values(self@) + "]"@
    }

    fn write_json_value<W: JsonWrite + ?Sized>(&self, writer: &mut W) -> (r: core::fmt::Result) {
        self.as_slice().write_json_value(writer)
    }
}

impl<V: WriteJsonValue> WriteJsonValue for Vec<V> {
    open spec fn json_value(&self) -> Seq<char> {
        "["@ + joined_values(self@) + "]"@
    }

    fn write_json_value<W: JsonWrite + ?Sized>(&self, writer: &mut W) -> (r: core::fmt::Result) {
        self.as_slice().write_json_value(writer)
    }
}

/// One member of a JSON object: the key, a colon, a space, and the value.
pub open spec fn member_text<K: crate::json_write::key::WriteJsonKey, V: WriteJsonValue>(
    entry: (K, V),
) -> Seq<char> {
    entry.0.json_key() + ":"@ + " "@ + entry.1.json_value()
}

/// The members of a JSON object, separated by a comma and a space.
pub open spec fn joined_members<K: crate::json_write::key::WriteJsonKey, V: WriteJsonValue>(
    entries: Seq<(K, V)>,
) -> Seq<char>
    decreases entries.len(),
{
    if entries.len() == 0 {
        Seq::empty()
    } else if entries.len() == 1 {
        member_text(entries[0])
    } else {
        joined_members(entries.drop_last()) + ","@ + " "@ + member_text(entries.last())
    }
}

/// The JSON object with the members `entries`: braces around the members, which are set
/// off by a space on either side where there are any.
pub open spec fn json_object<K: crate::json_write::key::WriteJsonKey, V: WriteJsonValue>(
    entries: Seq<(K, V)>,
) -> Seq<char> {
    if entries.len() == 0 {
        "{"@ + "}"@
    } else {
        "{"@ + " "@ + joined_members(entries) + " "@ + "}"@
    }
}

fn push_json_object<K: crate::json_write::key::WriteJsonKey, V: WriteJsonValue>(
    out: &mut String,
    entries: &Vec<(K, V)>,
)
    ensures
        final(out)@ == old(out)@ + json_object(entries@),
{
    out.append("{");
    if entries.len() > 0 {
        out.append(" ");
    }
    let ghost head = out@;
    let mut i: usize = 0;
    proof {
        assert(entries@.take(0) =~= Seq::empty());
    }
    while i < entries.len()
        invariant
            i <= entries.len(),
            out@ == head + joined_members(entries@.take(i as int)),
        decreases entries.len() - i,
    {
        proof {
            assert(entries@.take(i + 1).drop_last() =~= entries@.take(i as int));
            assert(entries@.take(i + 1).last() == entries@[i as int]);
        }
        if i > 0 {
            out.append(",");
            out.append(" ");
        }
        let ghost before = out@;
        let r = entries[i].0.write_json_key(out);
        out.append(":");
        out.append(" ");
        let r = entries[i].1.write_json_value(out);
        proof {
            assert(out@ =~= before + member_text(entries@[i as int]));
            if i == 0 {
                assert(entries@.take(1)[0] == entries@[0]);
                assert(out@ =~= head + joined_members(entries@.take(1)));
            } else {
                assert(out@ =~= head + joined_members(entries@.take(i + 1)));
            }
        }
        i += 1;
    }
    proof {
        assert(entries@.take(i as int) =~= entries@);
    }
    if entries.len() > 0 {
        out.append(" ");
    }
    out.append("}");
    proof {
        assert(out@ =~= old(out)@ + json_object(entries@));
    }
}

/// Writes the JSON object with the members `entries`, in their order.
pub fn write_json_object<K: crate::json_write::key::WriteJsonKey, V: WriteJsonValue, W: JsonWrite + ?Sized>(
    entries: &Vec<(K, V)>,
    writer: &mut W,
) -> (r: core::fmt::Result)
    ensures
        final(writer).infallible() == old(writer).infallible(),
        old(writer).infallible() ==> r is Ok,
        r is Ok ==> final(writer).text() == old(writer).text() + json_object(entries@),
{
    let mut text = String::new();
    push_json_object(&mut text, entries);
    writer.write_str(text.as_str())
}

/// A value that gives its JSON text as a string.
pub trait ToJsonValue: WriteJsonValue {
    fn to_json_value(&self) -> (value: String)
        ensures
            value@ == self.json_value(),
    ;
}

impl<T: WriteJsonValue + ?Sized> ToJsonValue for T {
    fn to_json_value(&self) -> (value: String) {
        let mut result = String::new();
        let _ = self.write_json_value(&mut result);
        result
    }
}

} // verus!
