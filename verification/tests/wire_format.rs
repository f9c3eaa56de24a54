use chat_relay::message::WsMessage;
use chat_relay::wire::{assemble, decimal_string, decode, encode, DecodeError};

fn line(msg: &str, sender: &str, recv: &str, time: u64, read: bool) -> WsMessage {
    WsMessage {
        msg: msg.to_string(),
        sender: sender.to_string(),
        time,
        recv: recv.to_string(),
        read,
    }
}

#[test]
fn encode_writes_the_five_members_in_order() {
    let text = encode(&line("hi", "alice", "bob", 1000, false));
    assert_eq!(text, r#"{"msg":"hi","sender":"alice","recv":"bob","time":1000,"read":false}"#);
}

#[test]
fn encode_writes_a_read_notice() {
    let text = encode(&WsMessage::read_notice("bob".to_string()));
    assert_eq!(text, r#"{"msg":"","sender":"bob","recv":"","time":0,"read":true}"#);
}

#[test]
fn encode_escapes_quotes_backslashes_and_controls() {
    let text = encode(&line("a\"b\\c\nd\te\u{1}f\u{8}g\u{c}h\ri", "al", "bo", 7, false));
    assert_eq!(
        text,
        "{\"msg\":\"a\\\"b\\\\c\\nd\\te\\u0001f\\bg\\fh\\ri\",\"sender\":\"al\",\"recv\":\"bo\",\"time\":7,\"read\":false}"
    );
}

#[test]
fn encode_leaves_other_characters_alone() {
    let text = encode(&line("zoë / \u{7f} 😀", "a", "b", 1, false));
    assert_eq!(
        text,
        "{\"msg\":\"zoë / \u{7f} 😀\",\"sender\":\"a\",\"recv\":\"b\",\"time\":1,\"read\":false}"
    );
}

#[test]
fn encode_escapes_the_highest_control_character() {
    let text = encode(&line("\u{1f}", "a", "b", 1, false));
    assert_eq!(text, "{\"msg\":\"\\u001f\",\"sender\":\"a\",\"recv\":\"b\",\"time\":1,\"read\":false}");
}

#[test]
fn decimal_string_writes_plain_digits() {
    assert_eq!(decimal_string(0), "0");
    assert_eq!(decimal_string(7), "7");
    assert_eq!(decimal_string(10), "10");
    assert_eq!(decimal_string(1000), "1000");
    assert_eq!(decimal_string(1234567890), "1234567890");
    assert_eq!(decimal_string(u64::MAX), "18446744073709551615");
}

#[test]
fn decode_reads_a_record() {
    let text = r#"{"msg":"hi","sender":"alice","recv":"bob","time":1000,"read":false}"#;
    assert_eq!(decode(text), Ok(line("hi", "alice", "bob", 1000, false)));
}

#[test]
fn decode_takes_members_in_any_order_and_passes_over_others() {
    let text = r#" { "read" : true, "extra": [1, 2], "time": 5, "recv": "b", "sender": "a", "msg": "" } "#;
    assert_eq!(decode(text), Ok(line("", "a", "b", 5, true)));
}

#[test]
fn decode_reads_escapes() {
    let text = r#"{"msg":"a\"b\\c\ndé\u0041","sender":"a","recv":"b","time":1,"read":false}"#;
    assert_eq!(decode(text), Ok(line("a\"b\\c\ndéA", "a", "b", 1, false)));
}

#[test]
fn decode_reads_the_largest_time() {
    let text = r#"{"msg":"","sender":"a","recv":"b","time":18446744073709551615,"read":false}"#;
    assert_eq!(decode(text), Ok(line("", "a", "b", u64::MAX, false)));
}

#[test]
fn decode_rejects_what_is_not_json() {
    assert_eq!(decode(""), Err(DecodeError::NotJson));
    assert_eq!(decode("hello"), Err(DecodeError::NotJson));
    assert_eq!(decode(r#"{"msg":"hi""#), Err(DecodeError::NotJson));
    assert_eq!(
        decode(r#"{"msg":"hi","sender":"a","recv":"b","time":1,"read":false} x"#),
        Err(DecodeError::NotJson)
    );
}

#[test]
fn decode_rejects_json_that_is_no_object() {
    assert_eq!(decode("42"), Err(DecodeError::NotARecord));
    assert_eq!(decode("null"), Err(DecodeError::NotARecord));
    assert_eq!(decode(r#"["hi","alice",1000,"bob",false]"#), Err(DecodeError::NotARecord));
}

#[test]
fn decode_rejects_a_missing_member() {
    assert_eq!(
        decode(r#"{"sender":"a","recv":"b","time":1,"read":false}"#),
        Err(DecodeError::NotARecord)
    );
    assert_eq!(
        decode(r#"{"msg":"m","recv":"b","time":1,"read":false}"#),
        Err(DecodeError::NotARecord)
    );
    assert_eq!(
        decode(r#"{"msg":"m","sender":"a","time":1,"read":false}"#),
        Err(DecodeError::NotARecord)
    );
    assert_eq!(
        decode(r#"{"msg":"m","sender":"a","recv":"b","read":false}"#),
        Err(DecodeError::NotARecord)
    );
    assert_eq!(
        decode(r#"{"msg":"m","sender":"a","recv":"b","time":1}"#),
        Err(DecodeError::NotARecord)
    );
    assert_eq!(decode("{}"), Err(DecodeError::NotARecord));
}

#[test]
fn decode_rejects_members_of_the_wrong_kind() {
    assert_eq!(
        decode(r#"{"msg":1,"sender":"a","recv":"b","time":1,"read":false}"#),
        Err(DecodeError::NotARecord)
    );
    assert_eq!(
        decode(r#"{"msg":"m","sender":null,"recv":"b","time":1,"read":false}"#),
        Err(DecodeError::NotARecord)
    );
    assert_eq!(
        decode(r#"{"msg":"m","sender":"a","recv":"b","time":"1","read":false}"#),
        Err(DecodeError::NotARecord)
    );
    assert_eq!(
        decode(r#"{"msg":"m","sender":"a","recv":"b","time":-1,"read":false}"#),
        Err(DecodeError::NotARecord)
    );
    assert_eq!(
        decode(r#"{"msg":"m","sender":"a","recv":"b","time":1.5,"read":false}"#),
        Err(DecodeError::NotARecord)
    );
    assert_eq!(
        decode(r#"{"msg":"m","sender":"a","recv":"b","time":18446744073709551616,"read":false}"#),
        Err(DecodeError::NotARecord)
    );
    assert_eq!(
        decode(r#"{"msg":"m","sender":"a","recv":"b","time":1,"read":"false"}"#),
        Err(DecodeError::NotARecord)
    );
    assert_eq!(
        decode(r#"{"msg":"m","sender":"a","recv":"b","time":1,"read":0}"#),
        Err(DecodeError::NotARecord)
    );
}

#[test]
fn decode_undoes_encode() {
    let lines = [
        line("hi", "alice", "bob", 1000, false),
        line("a\"b\\c\n\u{0}\u{1f}é😀", "al\tice", "b\"ob", u64::MAX, true),
        line("", "", "", 0, false),
    ];
    for record in lines {
        assert_eq!(decode(&encode(&record)), Ok(record));
    }
}

#[test]
fn assemble_needs_all_five_members() {
    let s = |t: &str| Some(t.to_string());
    assert_eq!(
        assemble(s("m"), s("a"), s("b"), Some(3), Some(true)),
        Some(line("m", "a", "b", 3, true))
    );
    assert_eq!(assemble(None, s("a"), s("b"), Some(3), Some(true)), None);
    assert_eq!(assemble(s("m"), None, s("b"), Some(3), Some(true)), None);
    assert_eq!(assemble(s("m"), s("a"), None, Some(3), Some(true)), None);
    assert_eq!(assemble(s("m"), s("a"), s("b"), None, Some(true)), None);
    assert_eq!(assemble(s("m"), s("a"), s("b"), Some(3), None), None);
}
