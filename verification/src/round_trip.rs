//! The decoder accepts the encoder's output: a canonical frame parses back
//! to exactly the envelope it was written from. (The decoder accepts much
//! more — any JSON object form of an envelope — so this is one direction:
//! the canonical form lies inside the accepted language and decodes right.)

use vstd::prelude::*;
use vstd::arithmetic::div_mod::lemma_fundamental_div_mod;
use crate::envelope::{
    data_array_part, data_part, envelope_json, escape_byte, escape_seq, hex_lower, key_data,
    key_data_array, key_message_type, list_json, list_rest_json, MessageDataView,
};
use crate::parse::{
    cons_list, cons_scan, env_state_empty, escape_code, hex4_at, hex4_value, hex_value, is_hex_digit,
    is_ws, member_value, parse_envelope_spec, parse_members, scan_list, scan_list_rest,
    scan_string, skip_ws, EnvStateView,
};

verus! {

/// A lowercase hex digit carries its value back.
proof fn lemma_hex_digit(n: u8)
    requires
        n < 16,
    ensures
        is_hex_digit(hex_lower(n)),
        hex_value(hex_lower(n)) == n as int,
{
}

/// Every list tail takes at least one byte (the closing bracket).
proof fn lemma_list_rest_json_len(a: Seq<Seq<u8>>)
    ensures
        list_rest_json(a).len() >= 1,
{
    if a.len() == 0 {
    } else {
    }
}

/// Escaping a string of ordinary bytes leaves it as it is.
proof fn lemma_escape_plain(x: Seq<u8>)
    requires
        forall|k: int| 0 <= k < x.len() ==> 32 <= #[trigger] x[k] && x[k] != 34 && x[k] != 92,
    ensures
        escape_seq(x) == x,
    decreases x.len(),
{
    if x.len() == 0 {
        assert(escape_seq(x) =~= x);
    } else {
        assert(escape_byte(x[0]) == seq![x[0]]);
        assert(forall|k: int|
            0 <= k < x.skip(1).len() ==> 32 <= #[trigger] x.skip(1)[k] && x.skip(1)[k] != 34
                && x.skip(1)[k] != 92) by {
            assert(forall|k: int| 0 <= k < x.skip(1).len() ==> x.skip(1)[k] == x[k + 1]);
        }
        lemma_escape_plain(x.skip(1));
        assert(escape_seq(x) == seq![x[0]] + x.skip(1));
        assert(seq![x[0]] + x.skip(1) =~= x);
    }
}

/// Scanning from inside a frame that carries an escaped string body yields
/// exactly that body and stops just past its closing quote.
proof fn lemma_scan_escape(s: Seq<u8>, x: Seq<u8>, i: int)
    requires
        0 <= i,
        i + escape_seq(x).len() < s.len(),
        s.subrange(i, i + escape_seq(x).len()) == escape_seq(x),
        s[i + escape_seq(x).len()] == 34,
    ensures
        scan_string(s, i) == Some((x, i + escape_seq(x).len() + 1)),
    decreases x.len(),
{
    let e = escape_seq(x);
    assert(forall|t: int| 0 <= t < e.len() ==> s[i + t] == e[t]) by {
        assert(forall|t: int|
            0 <= t < e.len() ==> #[trigger] s.subrange(i, i + e.len() as int)[t] == s[i + t]);
    }
    if x.len() == 0 {
        assert(e.len() == 0);
        assert(s[i] == 34);
        assert(scan_string(s, i) == Some((Seq::<u8>::empty(), i + 1)));
        assert(Seq::<u8>::empty() =~= x);
    } else {
        let b = x[0];
        let eb = escape_byte(b);
        let xr = x.skip(1);
        let er = escape_seq(xr);
        assert(e == eb + er);
        let l = eb.len() as int;
        assert(forall|t: int| 0 <= t < l ==> s[i + t] == eb[t]) by {
            assert(forall|t: int| 0 <= t < l ==> (eb + er)[t] == eb[t]);
        }
        assert(forall|t: int| 0 <= t < er.len() ==> s[i + l + t] == er[t]) by {
            assert(forall|t: int| 0 <= t < er.len() ==> (eb + er)[l + t] == er[t]);
        }
        assert forall|t: int| 0 <= t < er.len() implies s.subrange(i + l, i + l + er.len() as int)[t]
            == er[t] by {
            assert(s.subrange(i + l, i + l + er.len() as int)[t] == s[i + l + t]);
        }
        assert(s.subrange(i + l, i + l + er.len() as int) =~= er);
        assert(i + l + er.len() == i + e.len());
        lemma_scan_escape(s, xr, i + l);
        assert(scan_string(s, i + l) == Some((xr, i + l + er.len() + 1)));
        assert(seq![b] + xr =~= x);
        if b == 34 {
            assert(eb == seq![92u8, 34]);
            assert(s[i] == 92 && s[i + 1] == 34);
            assert(escape_code(s[i + 1]) == Some(34u8));
            assert(scan_string(s, i) == cons_scan(34u8, scan_string(s, i + 2)));
        } else if b == 92 {
            assert(eb == seq![92u8, 92]);
            assert(s[i] == 92 && s[i + 1] == 92);
            assert(escape_code(s[i + 1]) == Some(92u8));
            assert(scan_string(s, i) == cons_scan(92u8, scan_string(s, i + 2)));
        } else if b < 32 {
            let hi = b / 16;
            let lo = b % 16;
            assert(eb == seq![92u8, 117, 48, 48, hex_lower(hi), hex_lower(lo)]);
            assert(s[i] == 92 && s[i + 1] == 117 && s[i + 2] == 48 && s[i + 3] == 48);
            assert(s[i + 4] == hex_lower(hi) && s[i + 5] == hex_lower(lo));
            assert(hi < 16 && lo < 16);
            lemma_hex_digit(hi);
            lemma_hex_digit(lo);
            assert(is_hex_digit(48) && hex_value(48) == 0);
            assert(hex4_at(s, i + 2));
            lemma_fundamental_div_mod(b as int, 16);
            assert(hex4_value(s, i + 2) == b as int);
            assert(escape_code(s[i + 1]) is None);
            assert(scan_string(s, i) == cons_scan(b, scan_string(s, i + 6)));
        } else {
            assert(eb == seq![b]);
            assert(s[i] == b);
            assert(s[i] != 34 && s[i] != 92 && s[i] >= 32);
            assert(scan_string(s, i) == cons_scan(s[i], scan_string(s, i + 1)));
        }
    }
}

/// Scanning a list tail that stands in a frame with no inner whitespace
/// yields exactly its elements.
proof fn lemma_scan_list_rest(s: Seq<u8>, a: Seq<Seq<u8>>, i: int)
    requires
        0 <= i,
        i + list_rest_json(a).len() <= s.len(),
        s.subrange(i, i + list_rest_json(a).len()) == list_rest_json(a),
    ensures
        scan_list_rest(s, i) == Some((a, i + list_rest_json(a).len())),
    decreases a.len(),
{
    let r = list_rest_json(a);
    if a.len() == 0 {
        assert(r == seq![93u8]);
        assert(s.subrange(i, i + r.len() as int)[0] == s[i + 0]);
        assert(s[i] == 93);
        assert(!is_ws(93u8));
        assert(skip_ws(s, i) == i);
        assert(Seq::<Seq<u8>>::empty() =~= a);
    } else {
        let x = a[0];
        let e = escape_seq(x);
        let ar = a.skip(1);
        let rr = list_rest_json(ar);
        assert(r == seq![44u8, 34] + e + seq![34u8] + rr);
        assert(r.len() == 2 + e.len() + 1 + rr.len());
        assert(s.subrange(i, i + r.len() as int)[0] == s[i + 0]);
        assert(s.subrange(i, i + r.len() as int)[1] == s[i + 1]);
        assert(r[0] == 44 && r[1] == 34);
        assert(s[i] == 44 && s[i + 1] == 34);
        assert(skip_ws(s, i) == i);
        assert(skip_ws(s, i + 1) == i + 1);
        lemma_list_rest_json_len(ar);
        assert forall|k: int| 0 <= k < e.len() implies s.subrange(i + 2, i + 2 + e.len() as int)[k]
            == e[k] by {
            assert(s.subrange(i + 2, i + 2 + e.len() as int)[k] == s[i + 2 + k]);
            assert(s.subrange(i, i + r.len() as int)[2 + k] == s[i + (2 + k)]);
            assert(r[2 + k] == e[k]);
        }
        assert(s.subrange(i + 2, i + 2 + e.len() as int) =~= e);
        assert(s.subrange(i, i + r.len() as int)[2 + e.len() as int] == s[i + (2
            + e.len() as int)]);
        assert(r[2 + e.len() as int] == 34);
        assert(s[i + 2 + e.len()] == 34);
        lemma_scan_escape(s, x, i + 2);
        let j = i + 2 + e.len() + 1;
        assert(scan_string(s, i + 2) == Some((x, j)));
        assert forall|k: int| 0 <= k < rr.len() implies s.subrange(j, j + rr.len() as int)[k]
            == rr[k] by {
            assert(s.subrange(j, j + rr.len() as int)[k] == s[j + k]);
            assert(s.subrange(i, i + r.len() as int)[3 + e.len() + k] == s[i + (3 + e.len() as int
                + k)]);
            assert(r[3 + e.len() as int + k] == rr[k]);
        }
        assert(s.subrange(j, j + rr.len() as int) =~= rr);
        lemma_scan_list_rest(s, ar, j);
        assert(scan_list_rest(s, j) == Some((ar, j + rr.len())));
        assert(i < j && j <= s.len());
        assert(scan_list_rest(s, i) == cons_list(x, scan_list_rest(s, j)));
        assert(seq![x] + ar =~= a);
        assert(j + rr.len() == i + r.len());
    }
}

/// Scanning a whole list that stands in a frame with no inner whitespace
/// yields exactly its elements.
proof fn lemma_scan_list(s: Seq<u8>, a: Seq<Seq<u8>>, i: int)
    requires
        0 <= i,
        i + list_json(a).len() <= s.len(),
        s.subrange(i, i + list_json(a).len()) == list_json(a),
    ensures
        scan_list(s, i) == Some((a, i + list_json(a).len())),
{
    let r = list_json(a);
    if a.len() == 0 {
        assert(r == seq![93u8]);
        assert(s.subrange(i, i + r.len() as int)[0] == s[i + 0]);
        assert(s[i] == 93);
        assert(skip_ws(s, i) == i);
        assert(Seq::<Seq<u8>>::empty() =~= a);
    } else {
        let x = a[0];
        let e = escape_seq(x);
        let ar = a.skip(1);
        let rr = list_rest_json(ar);
        assert(r == seq![34u8] + e + seq![34u8] + rr);
        assert(r.len() == 1 + e.len() + 1 + rr.len());
        assert(s.subrange(i, i + r.len() as int)[0] == s[i + 0]);
        assert(r[0] == 34);
        assert(s[i] == 34);
        assert(skip_ws(s, i) == i);
        lemma_list_rest_json_len(ar);
        assert forall|k: int| 0 <= k < e.len() implies s.subrange(i + 1, i + 1 + e.len() as int)[k]
            == e[k] by {
            assert(s.subrange(i + 1, i + 1 + e.len() as int)[k] == s[i + 1 + k]);
            assert(s.subrange(i, i + r.len() as int)[1 + k] == s[i + (1 + k)]);
            assert(r[1 + k] == e[k]);
        }
        assert(s.subrange(i + 1, i + 1 + e.len() as int) =~= e);
        assert(s.subrange(i, i + r.len() as int)[1 + e.len() as int] == s[i + (1
            + e.len() as int)]);
        assert(r[1 + e.len() as int] == 34);
        assert(s[i + 1 + e.len()] == 34);
        lemma_scan_escape(s, x, i + 1);
        let j = i + 1 + e.len() + 1;
        assert(scan_string(s, i + 1) == Some((x, j)));
        assert forall|k: int| 0 <= k < rr.len() implies s.subrange(j, j + rr.len() as int)[k]
            == rr[k] by {
            assert(s.subrange(j, j + rr.len() as int)[k] == s[j + k]);
            assert(s.subrange(i, i + r.len() as int)[2 + e.len() + k] == s[i + (2 + e.len() as int
                + k)]);
            assert(r[2 + e.len() as int + k] == rr[k]);
        }
        assert(s.subrange(j, j + rr.len() as int) =~= rr);
        lemma_scan_list_rest(s, ar, j);
        assert(scan_list_rest(s, j) == Some((ar, j + rr.len())));
        assert(scan_list(s, i) == cons_list(x, scan_list_rest(s, j)));
        assert(seq![x] + ar =~= a);
        assert(j + rr.len() == i + r.len());
    }
}

/// The member names hold only ordinary bytes and differ from one another.
proof fn lemma_keys_plain()
    ensures
        escape_seq(key_message_type()) == key_message_type(),
        escape_seq(key_data()) == key_data(),
        escape_seq(key_data_array()) == key_data_array(),
        key_message_type().len() == 11,
        key_data().len() == 4,
        key_data_array().len() == 9,
        key_data() != key_message_type(),
        key_data_array() != key_message_type(),
        key_data_array() != key_data(),
{
    assert(forall|k: int|
        0 <= k < key_message_type().len() ==> 32 <= #[trigger] key_message_type()[k]
            && key_message_type()[k] != 34 && key_message_type()[k] != 92);
    assert(forall|k: int|
        0 <= k < key_data().len() ==> 32 <= #[trigger] key_data()[k] && key_data()[k] != 34
            && key_data()[k] != 92);
    assert(forall|k: int|
        0 <= k < key_data_array().len() ==> 32 <= #[trigger] key_data_array()[k]
            && key_data_array()[k] != 34 && key_data_array()[k] != 92);
    lemma_escape_plain(key_message_type());
    lemma_escape_plain(key_data());
    lemma_escape_plain(key_data_array());
}

/// Head facts shared by every canonical frame: each byte region stands at
/// its offset, and the leading member name and value scan back.
#[verifier::rlimit(100)]
#[verifier::spinoff_prover]
proof fn lemma_rt_head(m: MessageDataView)
    ensures
        envelope_json(m).len() == 18 + escape_seq(m.message_type).len() + data_part(m.data).len()
            + data_array_part(m.data_array).len(),
        envelope_json(m)[0] == 123,
        envelope_json(m)[1] == 34,
        envelope_json(m)[14] == 58,
        envelope_json(m)[15] == 34,
        scan_string(envelope_json(m), 2) == Some((key_message_type(), 14int)),
        scan_string(envelope_json(m), 16) == Some(
            (m.message_type, 17 + escape_seq(m.message_type).len() as int),
        ),
        forall|t: int|
            17 + escape_seq(m.message_type).len() <= t < 17 + escape_seq(m.message_type).len()
                + data_part(m.data).len() ==> #[trigger] envelope_json(m)[t] == data_part(m.data)[t
                - 17 - escape_seq(m.message_type).len()],
        forall|t: int|
            17 + escape_seq(m.message_type).len() + data_part(m.data).len() <= t < 17
                + escape_seq(m.message_type).len() + data_part(m.data).len() + data_array_part(
                m.data_array,
            ).len() ==> #[trigger] envelope_json(m)[t] == data_array_part(m.data_array)[t - 17
                - escape_seq(m.message_type).len() - data_part(m.data).len()],
        envelope_json(m)[envelope_json(m).len() - 1] == 125,
{
    let s = envelope_json(m);
    let p16 = crate::envelope::pre_message_type();
    let e = escape_seq(m.message_type);
    let d = data_part(m.data);
    let a = data_array_part(m.data_array);
    assert(s == p16 + e + seq![34u8] + d + a + seq![125u8]);
    let n = s.len() as int;
    assert(n == 16 + e.len() + 1 + d.len() + a.len() + 1);
    let off_d = 17 + e.len() as int;
    let off_a = off_d + d.len() as int;
    assert(forall|t: int| 0 <= t < 16 ==> s[t] == p16[t]);
    assert(forall|t: int| 0 <= t < e.len() ==> s[16 + t] == e[t]);
    assert(s[16 + e.len() as int] == 34);
    assert forall|t: int| off_d <= t < off_d + d.len() implies #[trigger] s[t] == d[t - off_d] by {
        assert(s[off_d + (t - off_d)] == d[t - off_d]);
    }
    assert forall|t: int| off_a <= t < off_a + a.len() implies #[trigger] s[t] == a[t - off_a] by {
        assert(s[off_a + (t - off_a)] == a[t - off_a]);
    }
    assert(s[n - 1] == 125);
    lemma_keys_plain();
    assert forall|t: int| 0 <= t < 11 implies s.subrange(2, 13)[t] == key_message_type()[t] by {
        assert(s.subrange(2, 13)[t] == s[2 + t]);
        assert(s[2 + t] == p16[2 + t]);
    }
    assert(s.subrange(2, 13) =~= key_message_type());
    assert(s[13] == 34);
    lemma_scan_escape(s, key_message_type(), 2);
    assert forall|t: int| 0 <= t < e.len() implies s.subrange(16, 16 + e.len() as int)[t]
        == e[t] by {
        assert(s.subrange(16, 16 + e.len() as int)[t] == s[16 + t]);
    }
    assert(s.subrange(16, 16 + e.len() as int) =~= e);
    lemma_scan_escape(s, m.message_type, 16);
}

/// The member walk of a canonical frame with neither payload member.
#[verifier::rlimit(100)]
#[verifier::spinoff_prover]
proof fn lemma_rt_members_plain(m: MessageDataView)
    requires
        m.data is None,
        m.data_array is None,
    ensures
        parse_members(envelope_json(m), 1, env_state_empty()) == Some(
            (
                EnvStateView {
                    message_type: Some(m.message_type),
                    seen_data: m.data is Some,
                    data: m.data,
                    seen_data_array: m.data_array is Some,
                    data_array: m.data_array,
                },
                envelope_json(m).len() as int,
            ),
        ),
{
    lemma_rt_head(m);
    lemma_keys_plain();
    let s = envelope_json(m);
    let e = escape_seq(m.message_type);
    let d = data_part(m.data);
    let a = data_array_part(m.data_array);
    let n = s.len() as int;
    let w = 17 + e.len() as int;
    let st0 = env_state_empty();
    let st1 = EnvStateView {
        message_type: Some(m.message_type),
        seen_data: false,
        data: None,
        seen_data_array: false,
        data_array: None,
    };
    assert(skip_ws(s, 14) == 14);
    assert(skip_ws(s, 15) == 15);
    assert(member_value(s, 15, st0, key_message_type()) == Some((st1, w)));
                    assert(a == Seq::<u8>::empty());
                    assert(w == n - 1);
                    assert(s[w] == 125);
                    assert(skip_ws(s, w) == w);
                    assert(parse_members(s, 1, st0) == Some((st1, w + 1)));
                
}

/// The member walk of a canonical frame with a dataArray member only.
#[verifier::rlimit(100)]
#[verifier::spinoff_prover]
proof fn lemma_rt_members_array(m: MessageDataView)
    requires
        m.data is None,
        m.data_array is Some,
    ensures
        parse_members(envelope_json(m), 1, env_state_empty()) == Some(
            (
                EnvStateView {
                    message_type: Some(m.message_type),
                    seen_data: m.data is Some,
                    data: m.data,
                    seen_data_array: m.data_array is Some,
                    data_array: m.data_array,
                },
                envelope_json(m).len() as int,
            ),
        ),
{
    lemma_rt_head(m);
    lemma_keys_plain();
    let s = envelope_json(m);
    let e = escape_seq(m.message_type);
    let d = data_part(m.data);
    let a = data_array_part(m.data_array);
    let n = s.len() as int;
    let w = 17 + e.len() as int;
    let st0 = env_state_empty();
    let st1 = EnvStateView {
        message_type: Some(m.message_type),
        seen_data: false,
        data: None,
        seen_data_array: false,
        data_array: None,
    };
    assert(skip_ws(s, 14) == 14);
    assert(skip_ws(s, 15) == 15);
    assert(member_value(s, 15, st0, key_message_type()) == Some((st1, w)));
    let arr = m.data_array->0;
    assert(d == Seq::<u8>::empty());
                    let lj = list_json(arr);
                    assert(a == crate::envelope::pre_data_array() + lj);
                    assert(forall|t: int|
                        0 <= t < 14 ==> a[t] == crate::envelope::pre_data_array()[t]);
                    assert(forall|t: int| 0 <= t < lj.len() ==> a[14 + t] == lj[t]);
                    assert(s[w + 0] == a[0] && s[w + 1] == a[1]);
                    assert(s[w] == 44 && s[w + 1] == 34);
                    assert(skip_ws(s, w) == w);
                    assert(skip_ws(s, w + 1) == w + 1);
                    assert forall|t: int| 0 <= t < 9 implies s.subrange(w + 2, w + 11)[t]
                        == key_data_array()[t] by {
                        assert(s.subrange(w + 2, w + 11)[t] == s[w + 2 + t]);
                        assert(s[w + (2 + t)] == a[2 + t]);
                        assert(crate::envelope::pre_data_array()[2 + t] == key_data_array()[t]);
                    }
                    assert(s.subrange(w + 2, w + 11) =~= key_data_array());
                    assert(s[w + 11] == a[11] && s[w + 12] == a[12] && s[w + 13] == a[13]);
                    assert(s[w + 11] == 34 && s[w + 12] == 58 && s[w + 13] == 91);
                    lemma_scan_escape(s, key_data_array(), w + 2);
                    assert(scan_string(s, w + 2) == Some((key_data_array(), w + 12)));
                    assert(skip_ws(s, w + 12) == w + 12);
                    assert(skip_ws(s, w + 13) == w + 13);
                    assert forall|t: int| 0 <= t < lj.len() implies s.subrange(
                        w + 14,
                        w + 14 + lj.len() as int,
                    )[t] == lj[t] by {
                        assert(s.subrange(w + 14, w + 14 + lj.len() as int)[t] == s[w + 14 + t]);
                        assert(s[w + (14 + t)] == a[14 + t]);
                    }
                    assert(s.subrange(w + 14, w + 14 + lj.len() as int) =~= lj);
                    lemma_scan_list(s, arr, w + 14);
                    let k = w + 14 + lj.len() as int;
                    assert(scan_list(s, w + 14) == Some((arr, k)));
                    let st2 = EnvStateView {
                        message_type: Some(m.message_type),
                        seen_data: false,
                        data: None,
                        seen_data_array: true,
                        data_array: Some(arr),
                    };
                    assert(member_value(s, w + 13, st1, key_data_array()) == Some((st2, k)));
                    assert(k == n - 1);
                    assert(s[k] == 125);
                    assert(skip_ws(s, k) == k);
                    assert(parse_members(s, w + 1, st1) == Some((st2, k + 1)));
                    assert(parse_members(s, 1, st0) == Some((st2, k + 1)));
                
}

/// The member walk of a canonical frame with a data member only.
#[verifier::rlimit(100)]
#[verifier::spinoff_prover]
proof fn lemma_rt_members_data(m: MessageDataView)
    requires
        m.data is Some,
        m.data_array is None,
    ensures
        parse_members(envelope_json(m), 1, env_state_empty()) == Some(
            (
                EnvStateView {
                    message_type: Some(m.message_type),
                    seen_data: m.data is Some,
                    data: m.data,
                    seen_data_array: m.data_array is Some,
                    data_array: m.data_array,
                },
                envelope_json(m).len() as int,
            ),
        ),
{
    lemma_rt_head(m);
    lemma_keys_plain();
    let s = envelope_json(m);
    let e = escape_seq(m.message_type);
    let d = data_part(m.data);
    let a = data_array_part(m.data_array);
    let n = s.len() as int;
    let w = 17 + e.len() as int;
    let st0 = env_state_empty();
    let st1 = EnvStateView {
        message_type: Some(m.message_type),
        seen_data: false,
        data: None,
        seen_data_array: false,
        data_array: None,
    };
    assert(skip_ws(s, 14) == 14);
    assert(skip_ws(s, 15) == 15);
    assert(member_value(s, 15, st0, key_message_type()) == Some((st1, w)));
    let dd = m.data->0;
    let ed = escape_seq(dd);
    assert(d == crate::envelope::pre_data() + ed + seq![34u8]);
    assert(d.len() == 9 + ed.len() + 1);
    assert(forall|t: int| 0 <= t < 9 ==> d[t] == crate::envelope::pre_data()[t]);
    assert(forall|t: int| 0 <= t < ed.len() ==> d[9 + t] == ed[t]);
    assert(d[9 + ed.len() as int] == 34);
    assert(s[w + 0] == d[0] && s[w + 1] == d[1]);
    assert(s[w] == 44 && s[w + 1] == 34);
    assert(skip_ws(s, w) == w);
    assert(skip_ws(s, w + 1) == w + 1);
    assert forall|t: int| 0 <= t < 4 implies s.subrange(w + 2, w + 6)[t] == key_data()[t] by {
        assert(s.subrange(w + 2, w + 6)[t] == s[w + 2 + t]);
        assert(s[w + (2 + t)] == d[2 + t]);
        assert(crate::envelope::pre_data()[2 + t] == key_data()[t]);
    }
    assert(s.subrange(w + 2, w + 6) =~= key_data());
    assert(s[w + 6] == d[6] && s[w + 7] == d[7] && s[w + 8] == d[8]);
    assert(s[w + 6] == 34 && s[w + 7] == 58 && s[w + 8] == 34);
    lemma_scan_escape(s, key_data(), w + 2);
    assert(scan_string(s, w + 2) == Some((key_data(), w + 7)));
    assert(skip_ws(s, w + 7) == w + 7);
    assert(skip_ws(s, w + 8) == w + 8);
    assert forall|t: int| 0 <= t < ed.len() implies s.subrange(w + 9, w + 9 + ed.len() as int)[t]
        == ed[t] by {
        assert(s.subrange(w + 9, w + 9 + ed.len() as int)[t] == s[w + 9 + t]);
        assert(s[w + (9 + t)] == d[9 + t]);
    }
    assert(s.subrange(w + 9, w + 9 + ed.len() as int) =~= ed);
    assert(s[w + (9 + ed.len() as int)] == d[9 + ed.len() as int]);
    lemma_scan_escape(s, dd, w + 9);
    let j = w + 9 + ed.len() + 1;
    assert(scan_string(s, w + 9) == Some((dd, j)));
    let st2 = EnvStateView {
        message_type: Some(m.message_type),
        seen_data: true,
        data: Some(dd),
        seen_data_array: false,
        data_array: None,
    };
    assert(member_value(s, w + 8, st1, key_data()) == Some((st2, j)));
    assert(j == w + d.len());
                    assert(a == Seq::<u8>::empty());
                    assert(j == n - 1);
                    assert(s[j] == 125);
                    assert(skip_ws(s, j) == j);
                    assert(parse_members(s, w + 1, st1) == Some((st2, j + 1)));
                    assert(parse_members(s, 1, st0) == Some((st2, j + 1)));

}

/// The member walk of a canonical frame with both payload members.
#[verifier::rlimit(100)]
#[verifier::spinoff_prover]
proof fn lemma_rt_members_full(m: MessageDataView)
    requires
        m.data is Some,
        m.data_array is Some,
    ensures
        parse_members(envelope_json(m), 1, env_state_empty()) == Some(
            (
                EnvStateView {
                    message_type: Some(m.message_type),
                    seen_data: m.data is Some,
                    data: m.data,
                    seen_data_array: m.data_array is Some,
                    data_array: m.data_array,
                },
                envelope_json(m).len() as int,
            ),
        ),
{
    lemma_rt_head(m);
    lemma_keys_plain();
    let s = envelope_json(m);
    let e = escape_seq(m.message_type);
    let d = data_part(m.data);
    let a = data_array_part(m.data_array);
    let n = s.len() as int;
    let w = 17 + e.len() as int;
    let st0 = env_state_empty();
    let st1 = EnvStateView {
        message_type: Some(m.message_type),
        seen_data: false,
        data: None,
        seen_data_array: false,
        data_array: None,
    };
    assert(skip_ws(s, 14) == 14);
    assert(skip_ws(s, 15) == 15);
    assert(member_value(s, 15, st0, key_message_type()) == Some((st1, w)));
    let dd = m.data->0;
    let ed = escape_seq(dd);
    assert(d == crate::envelope::pre_data() + ed + seq![34u8]);
    assert(d.len() == 9 + ed.len() + 1);
    assert(forall|t: int| 0 <= t < 9 ==> d[t] == crate::envelope::pre_data()[t]);
    assert(forall|t: int| 0 <= t < ed.len() ==> d[9 + t] == ed[t]);
    assert(d[9 + ed.len() as int] == 34);
    assert(s[w + 0] == d[0] && s[w + 1] == d[1]);
    assert(s[w] == 44 && s[w + 1] == 34);
    assert(skip_ws(s, w) == w);
    assert(skip_ws(s, w + 1) == w + 1);
    assert forall|t: int| 0 <= t < 4 implies s.subrange(w + 2, w + 6)[t] == key_data()[t] by {
        assert(s.subrange(w + 2, w + 6)[t] == s[w + 2 + t]);
        assert(s[w + (2 + t)] == d[2 + t]);
        assert(crate::envelope::pre_data()[2 + t] == key_data()[t]);
    }
    assert(s.subrange(w + 2, w + 6) =~= key_data());
    assert(s[w + 6] == d[6] && s[w + 7] == d[7] && s[w + 8] == d[8]);
    assert(s[w + 6] == 34 && s[w + 7] == 58 && s[w + 8] == 34);
    lemma_scan_escape(s, key_data(), w + 2);
    assert(scan_string(s, w + 2) == Some((key_data(), w + 7)));
    assert(skip_ws(s, w + 7) == w + 7);
    assert(skip_ws(s, w + 8) == w + 8);
    assert forall|t: int| 0 <= t < ed.len() implies s.subrange(w + 9, w + 9 + ed.len() as int)[t]
        == ed[t] by {
        assert(s.subrange(w + 9, w + 9 + ed.len() as int)[t] == s[w + 9 + t]);
        assert(s[w + (9 + t)] == d[9 + t]);
    }
    assert(s.subrange(w + 9, w + 9 + ed.len() as int) =~= ed);
    assert(s[w + (9 + ed.len() as int)] == d[9 + ed.len() as int]);
    lemma_scan_escape(s, dd, w + 9);
    let j = w + 9 + ed.len() + 1;
    assert(scan_string(s, w + 9) == Some((dd, j)));
    let st2 = EnvStateView {
        message_type: Some(m.message_type),
        seen_data: true,
        data: Some(dd),
        seen_data_array: false,
        data_array: None,
    };
    assert(member_value(s, w + 8, st1, key_data()) == Some((st2, j)));
    assert(j == w + d.len());
    let arr = m.data_array->0;

                    let lj = list_json(arr);
                    assert(a == crate::envelope::pre_data_array() + lj);
                    assert(forall|t: int|
                        0 <= t < 14 ==> a[t] == crate::envelope::pre_data_array()[t]);
                    assert(forall|t: int| 0 <= t < lj.len() ==> a[14 + t] == lj[t]);
                    assert(s[j + 0] == a[0] && s[j + 1] == a[1]);
                    assert(s[j] == 44 && s[j + 1] == 34);
                    assert(skip_ws(s, j) == j);
                    assert(skip_ws(s, j + 1) == j + 1);
                    assert forall|t: int| 0 <= t < 9 implies s.subrange(j + 2, j + 11)[t]
                        == key_data_array()[t] by {
                        assert(s.subrange(j + 2, j + 11)[t] == s[j + 2 + t]);
                        assert(s[j + (2 + t)] == a[2 + t]);
                        assert(crate::envelope::pre_data_array()[2 + t] == key_data_array()[t]);
                    }
                    assert(s.subrange(j + 2, j + 11) =~= key_data_array());
                    assert(s[j + 11] == a[11] && s[j + 12] == a[12] && s[j + 13] == a[13]);
                    assert(s[j + 11] == 34 && s[j + 12] == 58 && s[j + 13] == 91);
                    lemma_scan_escape(s, key_data_array(), j + 2);
                    assert(scan_string(s, j + 2) == Some((key_data_array(), j + 12)));
                    assert(skip_ws(s, j + 12) == j + 12);
                    assert(skip_ws(s, j + 13) == j + 13);
                    assert forall|t: int| 0 <= t < lj.len() implies s.subrange(
                        j + 14,
                        j + 14 + lj.len() as int,
                    )[t] == lj[t] by {
                        assert(s.subrange(j + 14, j + 14 + lj.len() as int)[t] == s[j + 14 + t]);
                        assert(s[j + (14 + t)] == a[14 + t]);
                    }
                    assert(s.subrange(j + 14, j + 14 + lj.len() as int) =~= lj);
                    lemma_scan_list(s, arr, j + 14);
                    let k = j + 14 + lj.len() as int;
                    assert(scan_list(s, j + 14) == Some((arr, k)));
                    let st3 = EnvStateView {
                        message_type: Some(m.message_type),
                        seen_data: true,
                        data: Some(dd),
                        seen_data_array: true,
                        data_array: Some(arr),
                    };
                    assert(member_value(s, j + 13, st2, key_data_array()) == Some((st3, k)));
                    assert(k == n - 1);
                    assert(s[k] == 125);
                    assert(skip_ws(s, k) == k);
                    assert(parse_members(s, j + 1, st2) == Some((st3, k + 1)));
                    assert(parse_members(s, w + 1, st1) == Some((st3, k + 1)));
                    assert(parse_members(s, 1, st0) == Some((st3, k + 1)));
                
}

/// The member machinery of a canonical frame walks as written: the head
/// member yields the messageType, and each following member its payload.
proof fn lemma_rt_members(m: MessageDataView)
    ensures
        parse_members(envelope_json(m), 1, env_state_empty()) == Some(
            (
                EnvStateView {
                    message_type: Some(m.message_type),
                    seen_data: m.data is Some,
                    data: m.data,
                    seen_data_array: m.data_array is Some,
                    data_array: m.data_array,
                },
                envelope_json(m).len() as int,
            ),
        ),
{
    match m.data {
        None => match m.data_array {
            None => lemma_rt_members_plain(m),
            Some(_) => lemma_rt_members_array(m),
        },
        Some(_) => match m.data_array {
            None => lemma_rt_members_data(m),
            Some(_) => lemma_rt_members_full(m),
        },
    }
}

/// Round trip: the canonical wire form of any envelope parses back to
/// exactly that envelope.
pub proof fn lemma_encode_parse_round_trip(m: MessageDataView)
    ensures
        parse_envelope_spec(envelope_json(m)) == Some(m),
{
    lemma_rt_head(m);
    lemma_rt_members(m);
    let s = envelope_json(m);
    let n = s.len() as int;
    assert(skip_ws(s, 0) == 0);
    assert(skip_ws(s, 1) == 1);
    assert(skip_ws(s, n) == n);
}

} // verus!
