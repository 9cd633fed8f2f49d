use broadcast_chat::codec::{encode_chat_message, encode_envelope};
use broadcast_chat::envelope::{ChatMessage, MessageData};
use broadcast_chat::parse::parse_envelope;

fn b(s: &str) -> Vec<u8> {
    s.as_bytes().to_vec()
}

#[test]
fn encode_users_envelope_exact() {
    let m = MessageData {
        message_type: b("users"),
        data: None,
        data_array: Some(vec![b("alice")]),
    };
    assert_eq!(encode_envelope(&m), b("{\"messageType\":\"users\",\"dataArray\":[\"alice\"]}"));
}

#[test]
fn encode_users_envelope_two_names() {
    let m = MessageData {
        message_type: b("users"),
        data: None,
        data_array: Some(vec![b("alice"), b("bob")]),
    };
    assert_eq!(
        encode_envelope(&m),
        b("{\"messageType\":\"users\",\"dataArray\":[\"alice\",\"bob\"]}")
    );
}

#[test]
fn encode_empty_list_envelope() {
    let m = MessageData { message_type: b("users"), data: None, data_array: Some(vec![]) };
    assert_eq!(encode_envelope(&m), b("{\"messageType\":\"users\",\"dataArray\":[]}"));
}

#[test]
fn encode_bare_envelope() {
    let m = MessageData { message_type: b("ping"), data: None, data_array: None };
    assert_eq!(encode_envelope(&m), b("{\"messageType\":\"ping\"}"));
}

#[test]
fn encode_escapes_quote_backslash_and_control() {
    let m = MessageData {
        message_type: b("message"),
        data: Some(b("a\"b\\c\nd")),
        data_array: None,
    };
    assert_eq!(
        encode_envelope(&m),
        b("{\"messageType\":\"message\",\"data\":\"a\\\"b\\\\c\\u000ad\"}")
    );
}

#[test]
fn encode_chat_message_exact() {
    let c = ChatMessage { from: b("alice"), message: b("hi") };
    assert_eq!(encode_chat_message(&c), b("{\"from\":\"alice\",\"message\":\"hi\"}"));
}

#[test]
fn parse_register_frame() {
    let r = parse_envelope(&b("{\"messageType\":\"register\",\"data\":\"alice\"}"));
    let m = r.expect("canonical frame must parse");
    assert_eq!(m.message_type, b("register"));
    assert_eq!(m.data, Some(b("alice")));
    assert_eq!(m.data_array, None);
}

#[test]
fn parse_frame_with_escapes() {
    let r = parse_envelope(&b("{\"messageType\":\"message\",\"data\":\"a\\\"b\\\\c\\u000ad\"}"));
    let m = r.expect("escaped frame must parse");
    assert_eq!(m.data, Some(b("a\"b\\c\nd")));
}

#[test]
fn parse_frame_with_list() {
    let r = parse_envelope(&b("{\"messageType\":\"users\",\"dataArray\":[\"alice\",\"\"]}"));
    let m = r.expect("list frame must parse");
    assert_eq!(m.message_type, b("users"));
    assert_eq!(m.data, None);
    assert_eq!(m.data_array, Some(vec![b("alice"), b("")]));
}

#[test]
fn parse_rejects_non_json() {
    assert!(parse_envelope(&b("hello there")).is_none());
    assert!(parse_envelope(&b("")).is_none());
}

#[test]
fn parse_accepts_reordered_members() {
    let r = parse_envelope(&b("{\"data\":\"x\",\"messageType\":\"register\"}"));
    let m = r.expect("member order is free in JSON");
    assert_eq!(m.message_type, b("register"));
    assert_eq!(m.data, Some(b("x")));
}

#[test]
fn parse_accepts_whitespace() {
    let r = parse_envelope(&b(" {\n\t\"messageType\" : \"register\" ,\r \"data\" : \"alice\" } \n"));
    let m = r.expect("insignificant whitespace is allowed");
    assert_eq!(m.message_type, b("register"));
    assert_eq!(m.data, Some(b("alice")));
}

#[test]
fn parse_accepts_null_members() {
    let r = parse_envelope(&b("{\"messageType\":\"register\",\"data\":null,\"dataArray\":null}"));
    let m = r.expect("null stands for an absent member");
    assert_eq!(m.message_type, b("register"));
    assert_eq!(m.data, None);
    assert_eq!(m.data_array, None);
}

#[test]
fn parse_skips_unknown_members() {
    let r = parse_envelope(&b(
        "{\"v\":1,\"messageType\":\"register\",\"extra\":{\"a\":[1,true,null,-1.5e+2],\"b\":\"x\"},\"data\":\"bob\",\"flag\":false}",
    ));
    let m = r.expect("unknown members are skipped");
    assert_eq!(m.message_type, b("register"));
    assert_eq!(m.data, Some(b("bob")));
}

#[test]
fn parse_rejects_trailing_bytes() {
    assert!(parse_envelope(&b("{\"messageType\":\"register\",\"data\":\"a\"}x")).is_none());
}

#[test]
fn parse_rejects_trailing_comma_and_duplicates() {
    assert!(parse_envelope(&b("{\"messageType\":\"a\",}")).is_none());
    assert!(parse_envelope(&b("{\"messageType\":\"a\",\"data\":\"x\",\"data\":\"y\"}")).is_none());
    assert!(parse_envelope(&b("{\"messageType\":\"a\",\"messageType\":\"b\"}")).is_none());
}

#[test]
fn parse_rejects_missing_or_null_message_type() {
    assert!(parse_envelope(&b("{}")).is_none());
    assert!(parse_envelope(&b("{\"data\":\"x\"}")).is_none());
    assert!(parse_envelope(&b("{\"messageType\":null}")).is_none());
}

#[test]
fn parse_rejects_unterminated_string() {
    assert!(parse_envelope(&b("{\"messageType\":\"register\",\"data\":\"a")).is_none());
}

#[test]
fn parse_rejects_raw_control_byte() {
    let mut f = b("{\"messageType\":\"register\",\"data\":\"a");
    f.push(10);
    f.extend_from_slice(b"\"}");
    assert!(parse_envelope(&f).is_none());
}

#[test]
fn parse_accepts_hex_escapes_of_either_case() {
    let r = parse_envelope(&b("{\"messageType\":\"register\",\"data\":\"\\u000A\\u0041\\u0061\"}"));
    let m = r.expect("hex digits of either case are allowed");
    assert_eq!(m.data, Some(vec![10u8, 65, 97]));
}

#[test]
fn parse_accepts_short_escapes() {
    let r = parse_envelope(&b("{\"messageType\":\"register\",\"data\":\"\\n\\t\\b\\f\\r\\/\\\"\\\\\"}"));
    let m = r.expect("the standard short escapes are allowed");
    assert_eq!(m.data, Some(vec![10u8, 9, 8, 12, 13, 47, 34, 92]));
}

#[test]
fn parse_rejects_wide_unicode_escape() {
    assert!(parse_envelope(&b("{\"messageType\":\"register\",\"data\":\"\\u00e9\"}")).is_none());
}

#[test]
fn round_trip_many_shapes() {
    let samples = vec![
        MessageData { message_type: b("register"), data: Some(b("alice")), data_array: None },
        MessageData { message_type: b(""), data: Some(b("")), data_array: None },
        MessageData { message_type: b("users"), data: None, data_array: Some(vec![]) },
        MessageData {
            message_type: b("users"),
            data: None,
            data_array: Some(vec![b("a\"b"), b("c\\d"), b("\u{1}x")]),
        },
        MessageData {
            message_type: b("odd\"type"),
            data: Some(b("line1\nline2")),
            data_array: Some(vec![b("tab\there")]),
        },
    ];
    for m in samples {
        let wire = encode_envelope(&m);
        let back = parse_envelope(&wire).expect("every canonical frame parses");
        assert_eq!(back.message_type, m.message_type);
        assert_eq!(back.data, m.data);
        assert_eq!(back.data_array, m.data_array);
    }
}
