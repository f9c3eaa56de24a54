//! The wire format: one JSON object per text frame,
//! `{"msg":..,"sender":..,"recv":..,"time":..,"read":..}`.
//!
//! Reading JSON and quoting JSON strings is left to `serde_json`; which
//! members make a record, and how a record is laid out, is decided here.

use crate::message::{WsMessage, WsMessageView};
use vstd::prelude::*;
use vstd::string::*;

verus! {

// ---------------------------------------------------------------------------
// What is taken on trust from serde_json
// ---------------------------------------------------------------------------

/// `serde_json::Value`, a parsed JSON value. Nothing of its inside is visible
/// to the proofs; [`json_members`] and [`json_scalar`] name what it holds.
#[verifier::external_type_specification]
#[verifier::external_body]
pub struct ExJsonValue(serde_json::Value);

/// `serde_json::Error`, carried from the parser to [`decode`] and dropped there.
#[verifier::external_type_specification]
#[verifier::external_body]
pub struct ExJsonError(serde_json::Error);

/// One member of a JSON object, as far as this format tells members apart.
pub enum Member {
    /// A JSON string.
    Text(Seq<char>),
    /// A JSON number that is a non-negative integer below 2^64.
    Unsigned(u64),
    /// `true` or `false`.
    Flag(bool),
    /// Anything else: null, another number, an array, an object.
    Other,
}

/// The members of the JSON value that `serde_json::from_str` reads from
/// `text`, by name; `None` where it reports an error.
pub uninterp spec fn json_document(text: Seq<char>) -> Option<Map<Seq<char>, Member>>;

/// The members of `value`, by name, where `value` is a JSON object; no member
/// at all where it is anything else.
pub uninterp spec fn json_members(value: serde_json::Value) -> Map<Seq<char>, Member>;

/// What kind of value `value` is, with its content where it is a scalar.
pub uninterp spec fn json_scalar(value: serde_json::Value) -> Member;

/// Calls `serde_json::from_str::<Value>`. The contract only ties the outcome to
/// its name: success and failure are those of [`json_document`], and the
/// members of the value returned are the ones it names.
#[verifier::external_body]
fn parse_json(text: &str) -> (parsed: Result<serde_json::Value, serde_json::Error>)
    ensures
        (match parsed {
            Ok(value) => json_document(text@) == Some(json_members(value)),
            Err(_) => json_document(text@) is None,
        }),
{
    serde_json::from_str::<serde_json::Value>(text)
}

/// Calls `Value::get` with a string index: the member called `key` if `doc` is
/// an object that has one, else nothing.
#[verifier::external_body]
fn json_get<'a>(doc: &'a serde_json::Value, key: &str) -> (found: Option<&'a serde_json::Value>)
    ensures
        (match found {
            Some(member) => json_members(*doc).contains_key(key@) && json_members(*doc)[key@]
                == json_scalar(*member),
            None => !json_members(*doc).contains_key(key@),
        }),
{
    doc.get(key)
}

/// `Value::as_str`: the text of a JSON string, nothing for any other value.
pub assume_specification<'a>[ serde_json::Value::as_str ](value: &'a serde_json::Value) -> (text:
    Option<&'a str>)
    ensures
        (match text {
            Some(s) => json_scalar(*value) == Member::Text(s@),
            None => !(json_scalar(*value) is Text),
        }),
;

/// `Value::as_u64`: the number, where the value is a JSON number written as a
/// non-negative integer that fits 64 bits; nothing otherwise.
pub assume_specification[ serde_json::Value::as_u64 ](value: &serde_json::Value) -> (number:
    Option<u64>)
    ensures
        (match number {
            Some(n) => json_scalar(*value) == Member::Unsigned(n),
            None => !(json_scalar(*value) is Unsigned),
        }),
;

/// `Value::as_bool`: the flag, where the value is `true` or `false`; nothing
/// otherwise.
pub assume_specification[ serde_json::Value::as_bool ](value: &serde_json::Value) -> (flag:
    Option<bool>)
    ensures
        (match flag {
            Some(b) => json_scalar(*value) == Member::Flag(b),
            None => !(json_scalar(*value) is Flag),
        }),
;

/// Calls `serde_json::to_string` on a string slice. For a string it cannot
/// fail, and it writes the string between double quotes, each character as
/// [`json_escaped`] gives it.
#[verifier::external_body]
fn quote_json(text: &str) -> (quoted: Result<String, serde_json::Error>)
    ensures
        quoted is Ok,
        quoted->Ok_0@ == json_quoted(text@),
{
    serde_json::to_string(text)
}

// ---------------------------------------------------------------------------
// JSON strings and numbers, as they are written
// ---------------------------------------------------------------------------

/// The decimal digit for `d`, where `d < 10`.
pub open spec fn digit(d: nat) -> char {
    if d == 0 {
        '0'
    } else if d == 1 {
        '1'
    } else if d == 2 {
        '2'
    } else if d == 3 {
        '3'
    } else if d == 4 {
        '4'
    } else if d == 5 {
        '5'
    } else if d == 6 {
        '6'
    } else if d == 7 {
        '7'
    } else if d == 8 {
        '8'
    } else {
        '9'
    }
}

/// The lower-case hexadecimal digit for `d`, where `d < 16`.
pub open spec fn hex_digit(d: nat) -> char {
    if d < 10 {
        digit(d)
    } else if d == 10 {
        'a'
    } else if d == 11 {
        'b'
    } else if d == 12 {
        'c'
    } else if d == 13 {
        'd'
    } else if d == 14 {
        'e'
    } else {
        'f'
    }
}

/// `n` in decimal, without sign or leading zeros.
pub open spec fn decimal(n: nat) -> Seq<char>
    decreases n,
{
    if n < 10 {
        seq![digit(n)]
    } else {
        decimal(n / 10).push(digit(n % 10))
    }
}

/// How one character stands inside a JSON string: the quote, the backslash
/// and the control characters below U+0020 are escaped, all others stand for
/// themselves.
pub open spec fn json_escaped(c: char) -> Seq<char> {
    if c == '"' {
        seq!['\\', '"']
    } else if c == '\\' {
        seq!['\\', '\\']
    } else if c == '\u{8}' {
        seq!['\\', 'b']
    } else if c == '\t' {
        seq!['\\', 't']
    } else if c == '\n' {
        seq!['\\', 'n']
    } else if c == '\u{c}' {
        seq!['\\', 'f']
    } else if c == '\r' {
        seq!['\\', 'r']
    } else if (c as u32) < 0x20 {
        seq!['\\', 'u', '0', '0', hex_digit((c as u32 / 16) as nat), hex_digit((c as u32 % 16) as nat)]
    } else {
        seq![c]
    }
}

/// The characters of `text`, each escaped, in order.
pub open spec fn json_escaped_all(text: Seq<char>) -> Seq<char>
    decreases text.len(),
{
    if text.len() == 0 {
        Seq::<char>::empty()
    } else {
        json_escaped_all(text.drop_last()) + json_escaped(text.last())
    }
}

/// `text` as a JSON string: escaped, between double quotes.
pub open spec fn json_quoted(text: Seq<char>) -> Seq<char> {
    seq!['"'] + json_escaped_all(text) + seq!['"']
}

/// What stands before the first digit of a number of which `rest` is still
/// to be written: the digits of `rest`, or nothing once `rest` is zero.
spec fn leading(rest: nat) -> Seq<char> {
    if rest == 0 {
        Seq::<char>::empty()
    } else {
        decimal(rest)
    }
}

proof fn lemma_leading(rest: nat)
    requires
        rest > 0,
    ensures
        leading(rest) == leading(rest / 10) + seq![digit(rest % 10)],
{
    if rest < 10 {
        assert(leading(rest / 10) + seq![digit(rest % 10)] =~= seq![digit(rest)]);
    } else {
        assert(decimal(rest / 10).push(digit(rest % 10)) =~= decimal(rest / 10) + seq![
            digit(rest % 10),
        ]);
    }
}

fn digit_text(d: u64) -> (s: &'static str)
    requires
        d < 10,
    ensures
        s@ == seq![digit(d as nat)],
{
    let s = if d == 0 {
        "0"
    } else if d == 1 {
        "1"
    } else if d == 2 {
        "2"
    } else if d == 3 {
        "3"
    } else if d == 4 {
        "4"
    } else if d == 5 {
        "5"
    } else if d == 6 {
        "6"
    } else if d == 7 {
        "7"
    } else if d == 8 {
        "8"
    } else {
        "9"
    };
    proof {
        reveal_strlit("0");
        reveal_strlit("1");
        reveal_strlit("2");
        reveal_strlit("3");
        reveal_strlit("4");
        reveal_strlit("5");
        reveal_strlit("6");
        reveal_strlit("7");
        reveal_strlit("8");
        reveal_strlit("9");
        assert(s@ =~= seq![digit(d as nat)]);
    }
    s
}

/// Writes `n` in decimal.
pub fn decimal_string(n: u64) -> (text: String)
    ensures
        text@ == decimal(n as nat),
{
    let mut text = String::from_str(digit_text(n % 10));
    let mut rest: u64 = n / 10;
    proof {
        if n >= 10 {
            lemma_leading(n as nat);
        }
        assert(leading(rest as nat) + text@ =~= decimal(n as nat));
    }
    while rest > 0
        invariant
            leading(rest as nat) + text@ == decimal(n as nat),
        decreases rest,
    {
        let mut longer = String::from_str(digit_text(rest % 10));
        longer.append(text.as_str());
        proof {
            lemma_leading(rest as nat);
            assert(leading((rest / 10) as nat) + longer@ =~= leading(rest as nat) + text@);
        }
        text = longer;
        rest = rest / 10;
    }
    proof {
        assert(leading(0) + text@ =~= text@);
    }
    text
}

// ---------------------------------------------------------------------------
// Writing a record
// ---------------------------------------------------------------------------

/// How a flag is written.
pub open spec fn flag_text(flag: bool) -> Seq<char> {
    if flag {
        "true"@
    } else {
        "false"@
    }
}

/// The text of one record: the five members in the order `msg`, `sender`,
/// `recv`, `time`, `read`, without any white space.
pub open spec fn wire_text(record: WsMessageView) -> Seq<char> {
    "{\"msg\":"@ + json_quoted(record.msg)
        + ",\"sender\":"@ + json_quoted(record.sender)
        + ",\"recv\":"@ + json_quoted(record.recv)
        + ",\"time\":"@ + decimal(record.time as nat)
        + ",\"read\":"@ + flag_text(record.read)
        + "}"@
}

/// Writes `record` as the text of one frame.
pub fn encode(record: &WsMessage) -> (text: String)
    ensures
        text@ == wire_text(record@),
{
    let mut text = String::from_str("{\"msg\":");
    text.append(quote_json(record.msg.as_str()).unwrap().as_str());
    text.append(",\"sender\":");
    text.append(quote_json(record.sender.as_str()).unwrap().as_str());
    text.append(",\"recv\":");
    text.append(quote_json(record.recv.as_str()).unwrap().as_str());
    text.append(",\"time\":");
    text.append(decimal_string(record.time).as_str());
    text.append(",\"read\":");
    text.append(if record.read { "true" } else { "false" });
    text.append("}");
    text
}

// ---------------------------------------------------------------------------
// Reading a record
// ---------------------------------------------------------------------------

/// Why a frame's text is not a record.
#[derive(Clone, Copy, Debug, PartialEq, Eq, Structural)]
pub enum DecodeError {
    /// The text is not JSON.
    NotJson,
    /// The text is JSON, but one of the five members is missing or of the
    /// wrong kind.
    NotARecord,
}

/// The string member `key` of `members`, if there is one.
pub open spec fn text_member(members: Map<Seq<char>, Member>, key: Seq<char>) -> Option<Seq<char>> {
    if members.contains_key(key) && members[key] is Text {
        Some(members[key]->Text_0)
    } else {
        None
    }
}

/// The member `key` of `members` where it is a non-negative integer below 2^64.
pub open spec fn unsigned_member(members: Map<Seq<char>, Member>, key: Seq<char>) -> Option<u64> {
    if members.contains_key(key) && members[key] is Unsigned {
        Some(members[key]->Unsigned_0)
    } else {
        None
    }
}

/// The boolean member `key` of `members`, if there is one.
pub open spec fn flag_member(members: Map<Seq<char>, Member>, key: Seq<char>) -> Option<bool> {
    if members.contains_key(key) && members[key] is Flag {
        Some(members[key]->Flag_0)
    } else {
        None
    }
}

/// The record made of five members, where all five are there.
pub open spec fn assembled(
    msg: Option<Seq<char>>,
    sender: Option<Seq<char>>,
    recv: Option<Seq<char>>,
    time: Option<u64>,
    read: Option<bool>,
) -> Option<WsMessageView> {
    if msg is Some && sender is Some && recv is Some && time is Some && read is Some {
        Some(
            WsMessageView {
                msg: msg->0,
                sender: sender->0,
                time: time->0,
                recv: recv->0,
                read: read->0,
            },
        )
    } else {
        None
    }
}

/// The record that an object with the members `members` stands for: `msg`,
/// `sender` and `recv` must be strings, `time` a non-negative integer below
/// 2^64 and `read` a boolean. Members of other names are passed over.
pub open spec fn record_of(members: Map<Seq<char>, Member>) -> Option<WsMessageView> {
    assembled(
        text_member(members, "msg"@),
        text_member(members, "sender"@),
        text_member(members, "recv"@),
        unsigned_member(members, "time"@),
        flag_member(members, "read"@),
    )
}

/// What reading a frame gives, from what the JSON reader made of its text.
pub open spec fn decoded(document: Option<Map<Seq<char>, Member>>) -> Result<
    WsMessageView,
    DecodeError,
> {
    match document {
        None => Err(DecodeError::NotJson),
        Some(members) => match record_of(members) {
            Some(record) => Ok(record),
            None => Err(DecodeError::NotARecord),
        },
    }
}

/// Makes a record of its five members, as they were found in a frame; there is
/// a record exactly if none of them is missing.
pub fn assemble(
    msg: Option<String>,
    sender: Option<String>,
    recv: Option<String>,
    time: Option<u64>,
    read: Option<bool>,
) -> (record: Option<WsMessage>)
    ensures
        record.deep_view() == assembled(
            msg.deep_view(),
            sender.deep_view(),
            recv.deep_view(),
            time,
            read,
        ),
{
    match (msg, sender, recv, time, read) {
        (Some(msg), Some(sender), Some(recv), Some(time), Some(read)) => Some(
            WsMessage { msg, sender, time, recv, read },
        ),
        _ => None,
    }
}

fn read_text(doc: &serde_json::Value, key: &str) -> (found: Option<String>)
    ensures
        found.deep_view() == text_member(json_members(*doc), key@),
{
    match json_get(doc, key) {
        Some(member) => match member.as_str() {
            Some(text) => Some(text.to_owned()),
            None => None,
        },
        None => None,
    }
}

fn read_unsigned(doc: &serde_json::Value, key: &str) -> (found: Option<u64>)
    ensures
        found == unsigned_member(json_members(*doc), key@),
{
    match json_get(doc, key) {
        Some(member) => member.as_u64(),
        None => None,
    }
}

fn read_flag(doc: &serde_json::Value, key: &str) -> (found: Option<bool>)
    ensures
        found == flag_member(json_members(*doc), key@),
{
    match json_get(doc, key) {
        Some(member) => member.as_bool(),
        None => None,
    }
}

/// Reads the text of one frame.
///
/// The text must be a JSON object with the five members of a record; further
/// members are passed over. What the JSON reader makes of the text is named by
/// [`json_document`]; everything after that is stated by [`decoded`].
pub fn decode(text: &str) -> (outcome: Result<WsMessage, DecodeError>)
    ensures
        (match outcome {
            Ok(record) => decoded(json_document(text@)) == Ok::<WsMessageView, DecodeError>(
                record@,
            ),
            Err(error) => decoded(json_document(text@)) == Err::<WsMessageView, DecodeError>(
                error,
            ),
        }),
{
    match parse_json(text) {
        Err(_) => Err(DecodeError::NotJson),
        Ok(doc) => {
            let record = assemble(
                read_text(&doc, "msg"),
                read_text(&doc, "sender"),
                read_text(&doc, "recv"),
                read_unsigned(&doc, "time"),
                read_flag(&doc, "read"),
            );
            match record {
                Some(record) => Ok(record),
                None => Err(DecodeError::NotARecord),
            }
        },
    }
}

} // verus!
