//! Executable encoder for the wire format: building the canonical byte form
//! of envelopes and chat payloads, proved equal to the spec-level form.

use vstd::prelude::*;
use crate::envelope::{
    chat_json, envelope_json, escape_byte, escape_seq, list_json, list_rest_json, pre_chat_message,
    pre_data, pre_data_array, pre_from, pre_message_type, message_type_name, register_type,
    seqs_view, users_type, ChatMessage, MessageData,
};

verus! {

/// A fresh copy of a byte vector.
pub fn clone_bytes(v: &Vec<u8>) -> (r: Vec<u8>)
    ensures
        r@ == v@,
{
    let mut out: Vec<u8> = Vec::new();
    let n = v.len();
    let mut i: usize = 0;
    while i < n
        invariant
            n == v@.len(),
            i <= n,
            out@ == v@.take(i as int),
        decreases n - i,
    {
        out.push(v[i]);
        proof {
            assert(v@.take(i as int + 1) =~= v@.take(i as int).push(v@[i as int]));
        }
        i = i + 1;
    }
    proof {
        assert(v@.take(n as int) =~= v@);
    }
    out
}

/// The bytes of `{"messageType":"`.
pub fn pre_message_type_vec() -> (r: Vec<u8>)
    ensures
        r@ == pre_message_type(),
{
    let mut v: Vec<u8> = Vec::new();
    v.push(123);
    v.push(34);
    v.push(109);
    v.push(101);
    v.push(115);
    v.push(115);
    v.push(97);
    v.push(103);
    v.push(101);
    v.push(84);
    v.push(121);
    v.push(112);
    v.push(101);
    v.push(34);
    v.push(58);
    v.push(34);
    proof {
        assert(v@ =~= pre_message_type());
    }
    v
}

/// The bytes of `,"data":"`.
pub fn pre_data_vec() -> (r: Vec<u8>)
    ensures
        r@ == pre_data(),
{
    let mut v: Vec<u8> = Vec::new();
    v.push(44);
    v.push(34);
    v.push(100);
    v.push(97);
    v.push(116);
    v.push(97);
    v.push(34);
    v.push(58);
    v.push(34);
    proof {
        assert(v@ =~= pre_data());
    }
    v
}

/// The bytes of `,"dataArray":[`.
pub fn pre_data_array_vec() -> (r: Vec<u8>)
    ensures
        r@ == pre_data_array(),
{
    let mut v: Vec<u8> = Vec::new();
    v.push(44);
    v.push(34);
    v.push(100);
    v.push(97);
    v.push(116);
    v.push(97);
    v.push(65);
    v.push(114);
    v.push(114);
    v.push(97);
    v.push(121);
    v.push(34);
    v.push(58);
    v.push(91);
    proof {
        assert(v@ =~= pre_data_array());
    }
    v
}

/// The bytes of `{"from":"`.
pub fn pre_from_vec() -> (r: Vec<u8>)
    ensures
        r@ == pre_from(),
{
    let mut v: Vec<u8> = Vec::new();
    v.push(123);
    v.push(34);
    v.push(102);
    v.push(114);
    v.push(111);
    v.push(109);
    v.push(34);
    v.push(58);
    v.push(34);
    proof {
        assert(v@ =~= pre_from());
    }
    v
}

/// The bytes of `,"message":"`.
pub fn pre_chat_message_vec() -> (r: Vec<u8>)
    ensures
        r@ == pre_chat_message(),
{
    let mut v: Vec<u8> = Vec::new();
    v.push(44);
    v.push(34);
    v.push(109);
    v.push(101);
    v.push(115);
    v.push(115);
    v.push(97);
    v.push(103);
    v.push(101);
    v.push(34);
    v.push(58);
    v.push(34);
    proof {
        assert(v@ =~= pre_chat_message());
    }
    v
}

/// The bytes of `register`.
pub fn register_type_vec() -> (r: Vec<u8>)
    ensures
        r@ == register_type(),
{
    let mut v: Vec<u8> = Vec::new();
    v.push(114);
    v.push(101);
    v.push(103);
    v.push(105);
    v.push(115);
    v.push(116);
    v.push(101);
    v.push(114);
    proof {
        assert(v@ =~= register_type());
    }
    v
}

/// The bytes of `message`.
pub fn message_type_name_vec() -> (r: Vec<u8>)
    ensures
        r@ == message_type_name(),
{
    let mut v: Vec<u8> = Vec::new();
    v.push(109);
    v.push(101);
    v.push(115);
    v.push(115);
    v.push(97);
    v.push(103);
    v.push(101);
    proof {
        assert(v@ =~= message_type_name());
    }
    v
}

/// The bytes of `users`.
pub fn users_type_vec() -> (r: Vec<u8>)
    ensures
        r@ == users_type(),
{
    let mut v: Vec<u8> = Vec::new();
    v.push(117);
    v.push(115);
    v.push(101);
    v.push(114);
    v.push(115);
    proof {
        assert(v@ =~= users_type());
    }
    v
}

/// The view of a vector of byte vectors grows at the end as the vector does.
pub proof fn lemma_seqs_view_push(v: Seq<Vec<u8>>, x: Vec<u8>)
    ensures
        seqs_view(v.push(x)) == seqs_view(v).push(x@),
{
    assert(seqs_view(v.push(x)) =~= seqs_view(v).push(x@));
}

/// Appends one vector to another.
pub fn append_bytes(out: &mut Vec<u8>, s: &Vec<u8>)
    ensures
        final(out)@ == old(out)@ + s@,
{
    let n = s.len();
    let mut i: usize = 0;
    while i < n
        invariant
            n == s@.len(),
            i <= n,
            out@ == old(out)@ + s@.take(i as int),
        decreases n - i,
    {
        out.push(s[i]);
        proof {
            assert(old(out)@ + s@.take(i as int + 1) =~= (old(out)@ + s@.take(i as int)).push(
                s@[i as int],
            ));
        }
        i = i + 1;
    }
    proof {
        assert(old(out)@ + s@.take(n as int) =~= old(out)@ + s@);
    }
}

/// Escaping distributes over adding one byte at the end.
pub proof fn lemma_escape_snoc(s: Seq<u8>, b: u8)
    ensures
        escape_seq(s.push(b)) == escape_seq(s) + escape_byte(b),
    decreases s.len(),
{
    if s.len() == 0 {
        let t = s.push(b).skip(1);
        assert(t =~= Seq::<u8>::empty());
        assert(escape_seq(t) == Seq::<u8>::empty());
        assert(s.push(b)[0] == b);
        assert(escape_seq(s.push(b)) == escape_byte(b) + escape_seq(t));
        assert(escape_byte(b) + Seq::<u8>::empty() =~= escape_byte(b));
        assert(escape_seq(s) == Seq::<u8>::empty());
        assert(Seq::<u8>::empty() + escape_byte(b) =~= escape_byte(b));
    } else {
        assert(s.push(b)[0] == s[0]);
        assert(s.push(b).skip(1) =~= s.skip(1).push(b));
        lemma_escape_snoc(s.skip(1), b);
        assert(escape_seq(s.push(b)) == escape_byte(s[0]) + (escape_seq(s.skip(1))
            + escape_byte(b)));
        assert(escape_byte(s[0]) + (escape_seq(s.skip(1)) + escape_byte(b)) =~= (escape_byte(s[0])
            + escape_seq(s.skip(1))) + escape_byte(b));
    }
}

/// Appends the escaped form of a string body.
pub fn append_escaped(out: &mut Vec<u8>, s: &Vec<u8>)
    ensures
        final(out)@ == old(out)@ + escape_seq(s@),
{
    let n = s.len();
    let mut i: usize = 0;
    while i < n
        invariant
            n == s@.len(),
            i <= n,
            out@ == old(out)@ + escape_seq(s@.take(i as int)),
        decreases n - i,
    {
        let b = s[i];
        if b == 34 {
            out.push(92);
            out.push(34);
        } else if b == 92 {
            out.push(92);
            out.push(92);
        } else if b < 32 {
            out.push(92);
            out.push(117);
            out.push(48);
            out.push(48);
            let hi = b / 16;
            let lo = b % 16;
            out.push(if hi < 10 { 48 + hi } else { 87 + hi });
            out.push(if lo < 10 { 48 + lo } else { 87 + lo });
        } else {
            out.push(b);
        }
        proof {
            lemma_escape_snoc(s@.take(i as int), s@[i as int]);
            assert(s@.take(i as int + 1) =~= s@.take(i as int).push(s@[i as int]));
            assert(out@ =~= old(out)@ + escape_seq(s@.take(i as int + 1)));
        }
        i = i + 1;
    }
    proof {
        assert(s@.take(n as int) =~= s@);
    }
}

/// The canonical wire bytes of an envelope.
pub fn encode_envelope(m: &MessageData) -> (r: Vec<u8>)
    ensures
        r@ == envelope_json(m@),
{
    let mut out = pre_message_type_vec();
    append_escaped(&mut out, &m.message_type);
    out.push(34);
    match &m.data {
        Some(d) => {
            let pd = pre_data_vec();
            append_bytes(&mut out, &pd);
            append_escaped(&mut out, d);
            out.push(34);
        },
        None => {},
    }
    match &m.data_array {
        Some(a) => {
            let pa = pre_data_array_vec();
            append_bytes(&mut out, &pa);
            append_list(&mut out, a);
        },
        None => {},
    }
    out.push(125);
    proof {
        assert(out@ =~= envelope_json(m@));
    }
    out
}

/// Appends the list payload (everything after `[`, including `]`).
pub fn append_list(out: &mut Vec<u8>, a: &Vec<Vec<u8>>)
    ensures
        final(out)@ == old(out)@ + list_json(seqs_view(a@)),
{
    let ghost v: Seq<Seq<u8>> = seqs_view(a@);
    let n = a.len();
    if n == 0 {
        out.push(93);
        proof {
            assert(out@ =~= old(out)@ + list_json(v));
        }
        return ;
    }
    out.push(34);
    append_escaped(out, &a[0]);
    out.push(34);
    proof {
        assert(v[0] == a@[0]@);
        assert(out@ =~= old(out)@ + (seq![34u8] + escape_seq(v[0]) + seq![34u8]));
        assert(list_json(v) == seq![34u8] + escape_seq(v[0]) + seq![34u8] + list_rest_json(
            v.skip(1),
        ));
        assert(out@ + list_rest_json(v.skip(1)) =~= old(out)@ + list_json(v));
    }
    let mut i: usize = 1;
    while i < n
        invariant
            n == a@.len(),
            n == v.len(),
            v == seqs_view(a@),
            1 <= i <= n,
            out@ + list_rest_json(v.skip(i as int)) == old(out)@ + list_json(v),
        decreases n - i,
    {
        let ghost before = out@;
        out.push(44);
        out.push(34);
        append_escaped(out, &a[i]);
        out.push(34);
        proof {
            assert(v[i as int] == a@[i as int]@);
            assert(out@ =~= before + (seq![44u8, 34] + escape_seq(v[i as int]) + seq![34u8]));
            let rest = v.skip(i as int);
            assert(rest.len() > 0);
            assert(rest[0] == v[i as int]);
            assert(rest.skip(1) =~= v.skip(i as int + 1));
            assert(list_rest_json(rest) == seq![44u8, 34] + escape_seq(v[i as int]) + seq![34u8]
                + list_rest_json(v.skip(i as int + 1)));
            assert(out@ + list_rest_json(v.skip(i as int + 1)) =~= before + list_rest_json(rest));
        }
        i = i + 1;
    }
    out.push(93);
    proof {
        assert(v.skip(n as int) =~= Seq::<Seq<u8>>::empty());
        assert(list_rest_json(v.skip(n as int)) == seq![93u8]);
        assert(out@ =~= old(out)@ + list_json(v));
    }
}

/// The canonical wire bytes of a chat payload.
pub fn encode_chat_message(c: &ChatMessage) -> (r: Vec<u8>)
    ensures
        r@ == chat_json(c.from@, c.message@),
{
    let mut out = pre_from_vec();
    append_escaped(&mut out, &c.from);
    out.push(34);
    let pm = pre_chat_message_vec();
    append_bytes(&mut out, &pm);
    append_escaped(&mut out, &c.message);
    out.push(34);
    out.push(125);
    proof {
        assert(out@ =~= chat_json(c.from@, c.message@));
    }
    out
}

} // verus!
