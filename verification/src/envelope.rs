//! The wire envelope and chat payload types, their mathematical views, and
//! the byte-level description of the JSON wire format.
//!
//! Frames are UTF-8 text carried as byte vectors. An envelope is written in
//! one canonical form: the `messageType` member first, then `data` if
//! present, then `dataArray` if present, with no whitespace. String content
//! is escaped minimally: `"` and `\` by a backslash, control bytes as
//! `\u00` followed by two lowercase hex digits; every other byte stands as
//! itself.

use vstd::prelude::*;

verus! {

/// A tagged wire message: `messageType` with an optional string payload
/// (`data`) and an optional list-of-strings payload (`dataArray`).
pub struct MessageData {
    pub message_type: Vec<u8>,
    pub data: Option<Vec<u8>>,
    pub data_array: Option<Vec<Vec<u8>>>,
}

/// A chat line: who sent it and what was said. Carried JSON-encoded inside
/// the `data` field of a `message` envelope.
pub struct ChatMessage {
    pub from: Vec<u8>,
    pub message: Vec<u8>,
}

/// Mathematical view of a `MessageData`.
pub struct MessageDataView {
    pub message_type: Seq<u8>,
    pub data: Option<Seq<u8>>,
    pub data_array: Option<Seq<Seq<u8>>>,
}

/// Mathematical view of a `ChatMessage`.
pub struct ChatMessageView {
    pub from: Seq<u8>,
    pub message: Seq<u8>,
}

/// The views of a sequence of byte vectors, in order.
pub open spec fn seqs_view(v: Seq<Vec<u8>>) -> Seq<Seq<u8>> {
    v.map_values(|x: Vec<u8>| x@)
}

impl View for MessageData {
    type V = MessageDataView;

    open spec fn view(&self) -> MessageDataView {
        MessageDataView {
            message_type: self.message_type@,
            data: match self.data {
                Some(d) => Some(d@),
                None => None,
            },
            data_array: match self.data_array {
                Some(a) => Some(seqs_view(a@)),
                None => None,
            },
        }
    }
}

impl View for ChatMessage {
    type V = ChatMessageView;

    open spec fn view(&self) -> ChatMessageView {
        ChatMessageView { from: self.from@, message: self.message@ }
    }
}

/// `{"messageType":"` — every envelope opens with this.
pub open spec fn pre_message_type() -> Seq<u8> {
    seq![123u8, 34, 109, 101, 115, 115, 97, 103, 101, 84, 121, 112, 101, 34, 58, 34]
}

/// `,"data":"` — introduces the string payload.
pub open spec fn pre_data() -> Seq<u8> {
    seq![44u8, 34, 100, 97, 116, 97, 34, 58, 34]
}

/// `,"dataArray":[` — introduces the list payload.
pub open spec fn pre_data_array() -> Seq<u8> {
    seq![44u8, 34, 100, 97, 116, 97, 65, 114, 114, 97, 121, 34, 58, 91]
}

/// `{"from":"` — opens a chat payload.
pub open spec fn pre_from() -> Seq<u8> {
    seq![123u8, 34, 102, 114, 111, 109, 34, 58, 34]
}

/// `,"message":"` — introduces the chat text.
pub open spec fn pre_chat_message() -> Seq<u8> {
    seq![44u8, 34, 109, 101, 115, 115, 97, 103, 101, 34, 58, 34]
}

/// The bytes of the member name `messageType`.
pub open spec fn key_message_type() -> Seq<u8> {
    seq![109u8, 101, 115, 115, 97, 103, 101, 84, 121, 112, 101]
}

/// The bytes of the member name `data`.
pub open spec fn key_data() -> Seq<u8> {
    seq![100u8, 97, 116, 97]
}

/// The bytes of the member name `dataArray`.
pub open spec fn key_data_array() -> Seq<u8> {
    seq![100u8, 97, 116, 97, 65, 114, 114, 97, 121]
}

/// The bytes of `register`.
pub open spec fn register_type() -> Seq<u8> {
    seq![114u8, 101, 103, 105, 115, 116, 101, 114]
}

/// The bytes of `message`.
pub open spec fn message_type_name() -> Seq<u8> {
    seq![109u8, 101, 115, 115, 97, 103, 101]
}

/// The bytes of `users`.
pub open spec fn users_type() -> Seq<u8> {
    seq![117u8, 115, 101, 114, 115]
}

/// Lowercase hex digit for a value below 16.
pub open spec fn hex_lower(n: u8) -> u8 {
    if n < 10 {
        (48 + n) as u8
    } else {
        (87 + n) as u8
    }
}

/// How one byte is written inside a JSON string.
pub open spec fn escape_byte(b: u8) -> Seq<u8> {
    if b == 34 {
        seq![92u8, 34]
    } else if b == 92 {
        seq![92u8, 92]
    } else if b < 32 {
        seq![92u8, 117, 48, 48, hex_lower(b / 16), hex_lower(b % 16)]
    } else {
        seq![b]
    }
}

/// How a whole string body is written inside a JSON string.
pub open spec fn escape_seq(s: Seq<u8>) -> Seq<u8>
    decreases s.len(),
{
    if s.len() == 0 {
        Seq::empty()
    } else {
        escape_byte(s[0]) + escape_seq(s.skip(1))
    }
}

/// The list payload from just after `[` up to and including `]`.
pub open spec fn list_json(a: Seq<Seq<u8>>) -> Seq<u8>
    decreases a.len(),
{
    if a.len() == 0 {
        seq![93u8]
    } else {
        seq![34u8] + escape_seq(a[0]) + seq![34u8] + list_rest_json(a.skip(1))
    }
}

/// The tail of a list payload: each further element after a comma, then `]`.
pub open spec fn list_rest_json(a: Seq<Seq<u8>>) -> Seq<u8>
    decreases a.len(),
{
    if a.len() == 0 {
        seq![93u8]
    } else {
        seq![44u8, 34] + escape_seq(a[0]) + seq![34u8] + list_rest_json(a.skip(1))
    }
}

/// The `data` member, or nothing when absent.
pub open spec fn data_part(d: Option<Seq<u8>>) -> Seq<u8> {
    match d {
        Some(x) => pre_data() + escape_seq(x) + seq![34u8],
        None => Seq::empty(),
    }
}

/// The `dataArray` member, or nothing when absent.
pub open spec fn data_array_part(a: Option<Seq<Seq<u8>>>) -> Seq<u8> {
    match a {
        Some(x) => pre_data_array() + list_json(x),
        None => Seq::empty(),
    }
}

/// The one canonical wire form of an envelope.
pub open spec fn envelope_json(m: MessageDataView) -> Seq<u8> {
    pre_message_type() + escape_seq(m.message_type) + seq![34u8] + data_part(m.data)
        + data_array_part(m.data_array) + seq![125u8]
}

/// The one canonical wire form of a chat payload.
pub open spec fn chat_json(from: Seq<u8>, message: Seq<u8>) -> Seq<u8> {
    pre_from() + escape_seq(from) + seq![34u8] + pre_chat_message() + escape_seq(message)
        + seq![34u8, 125]
}

/// Whether two byte vectors hold the same bytes.
pub fn bytes_eq(a: &Vec<u8>, b: &Vec<u8>) -> (r: bool)
    ensures
        r == (a@ == b@),
{
    if a.len() != b.len() {
        assert(a@.len() != b@.len());
        return false;
    }
    let n = a.len();
    let mut i: usize = 0;
    while i < n
        invariant
            n == a@.len(),
            n == b@.len(),
            i <= n,
            forall|k: int| 0 <= k < i ==> a@[k] == b@[k],
        decreases n - i,
    {
        if a[i] != b[i] {
            return false;
        }
        i = i + 1;
    }
    proof {
        assert(a@ =~= b@);
    }
    true
}

} // verus!
