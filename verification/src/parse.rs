//! Parser for inbound frames: a frame is accepted exactly when it is a JSON
//! object form of an envelope, and then yields that envelope.
//!
//! The accepted language is ordinary JSON: insignificant whitespace, the
//! three members in any order, `null` for an absent `data` or `dataArray`,
//! unknown members with arbitrary JSON values (skipped), and the standard
//! string escapes — the short ones, `\/`, and `\uXXXX` with hex digits of
//! either case. One narrowing is deliberate: a `\uXXXX` escape is decoded
//! only below 0x80 (decoding larger code points would mean writing their
//! multi-byte form; such text can always be sent as raw UTF-8 bytes, which
//! pass through unescaped). A duplicate of a known member is refused, as is
//! a missing `messageType`.
//!
//! The grammar is stated once, as the spec functions below; the executable
//! parser returns precisely what the spec functions say on every input.

use vstd::prelude::*;
use crate::envelope::{
    bytes_eq, key_data, key_data_array, key_message_type, seqs_view, MessageData, MessageDataView,
};

verus! {

/// JSON insignificant whitespace.
pub open spec fn is_ws(b: u8) -> bool {
    b == 32 || b == 9 || b == 10 || b == 13
}

/// The first position at or after `i` that holds no whitespace.
pub open spec fn skip_ws(s: Seq<u8>, i: int) -> int
    decreases s.len() - i,
{
    if 0 <= i && i < s.len() && is_ws(s[i]) {
        skip_ws(s, i + 1)
    } else {
        i
    }
}

/// A decimal digit.
pub open spec fn is_digit(b: u8) -> bool {
    48 <= b && b <= 57
}

/// A hex digit of either case.
pub open spec fn is_hex_digit(c: u8) -> bool {
    (48 <= c && c <= 57) || (97 <= c && c <= 102) || (65 <= c && c <= 70)
}

/// The value of a hex digit of either case.
pub open spec fn hex_value(c: u8) -> int {
    if c <= 57 {
        c - 48
    } else if c >= 97 {
        c - 87
    } else {
        c - 55
    }
}

/// What a short escape `\c` stands for, if `c` is one.
pub open spec fn escape_code(c: u8) -> Option<u8> {
    if c == 34 {
        Some(34u8)
    } else if c == 92 {
        Some(92u8)
    } else if c == 47 {
        Some(47u8)
    } else if c == 98 {
        Some(8u8)
    } else if c == 102 {
        Some(12u8)
    } else if c == 110 {
        Some(10u8)
    } else if c == 114 {
        Some(13u8)
    } else if c == 116 {
        Some(9u8)
    } else {
        None
    }
}

/// The value of the four hex digits at `i`.
pub open spec fn hex4_value(s: Seq<u8>, i: int) -> int {
    ((hex_value(s[i]) * 16 + hex_value(s[i + 1])) * 16 + hex_value(s[i + 2])) * 16 + hex_value(
        s[i + 3],
    )
}

/// Whether four hex digits stand at `i`.
pub open spec fn hex4_at(s: Seq<u8>, i: int) -> bool {
    i + 4 <= s.len() && is_hex_digit(s[i]) && is_hex_digit(s[i + 1]) && is_hex_digit(s[i + 2])
        && is_hex_digit(s[i + 3])
}

/// Puts one decoded byte in front of a string-scan result.
pub open spec fn cons_scan(b: u8, r: Option<(Seq<u8>, int)>) -> Option<(Seq<u8>, int)> {
    match r {
        Some(p) => Some((seq![b] + p.0, p.1)),
        None => None,
    }
}

/// Puts one decoded element in front of a list-scan result.
pub open spec fn cons_list(x: Seq<u8>, r: Option<(Seq<Seq<u8>>, int)>) -> Option<
    (Seq<Seq<u8>>, int),
> {
    match r {
        Some(p) => Some((seq![x] + p.0, p.1)),
        None => None,
    }
}

/// Scans a string body from just after its opening quote: yields the decoded
/// bytes and the position just after the closing quote. A `\uXXXX` escape is
/// decoded below 0x80 only.
pub open spec fn scan_string(s: Seq<u8>, i: int) -> Option<(Seq<u8>, int)>
    decreases s.len() - i,
{
    if i < 0 || i >= s.len() {
        None
    } else if s[i] == 34 {
        Some((Seq::empty(), i + 1))
    } else if s[i] == 92 {
        if i + 1 < s.len() && escape_code(s[i + 1]) is Some {
            cons_scan(escape_code(s[i + 1])->0, scan_string(s, i + 2))
        } else if i + 5 < s.len() && s[i + 1] == 117 && hex4_at(s, i + 2) && hex4_value(s, i + 2)
            < 128 {
            cons_scan((hex4_value(s, i + 2)) as u8, scan_string(s, i + 6))
        } else {
            None
        }
    } else if s[i] >= 32 {
        cons_scan(s[i], scan_string(s, i + 1))
    } else {
        None
    }
}

/// Scans the tail of a list: whitespace, then `]`, or a comma and a further
/// string.
pub open spec fn scan_list_rest(s: Seq<u8>, i: int) -> Option<(Seq<Seq<u8>>, int)>
    decreases s.len() - i,
{
    let j = skip_ws(s, i);
    if j < i || j >= s.len() {
        None
    } else if s[j] == 93 {
        Some((Seq::empty(), j + 1))
    } else if s[j] == 44 {
        let k = skip_ws(s, j + 1);
        if k >= s.len() || s[k] != 34 {
            None
        } else {
            match scan_string(s, k + 1) {
                Some(p) => if i < p.1 && p.1 <= s.len() {
                    cons_list(p.0, scan_list_rest(s, p.1))
                } else {
                    None
                },
                None => None,
            }
        }
    } else {
        None
    }
}

/// Scans a list body from just after `[`: yields the decoded elements and
/// the position just after `]`.
pub open spec fn scan_list(s: Seq<u8>, i: int) -> Option<(Seq<Seq<u8>>, int)> {
    let j = skip_ws(s, i);
    if j < i || j >= s.len() {
        None
    } else if s[j] == 93 {
        Some((Seq::empty(), j + 1))
    } else if s[j] == 34 {
        match scan_string(s, j + 1) {
            Some(p) => cons_list(p.0, scan_list_rest(s, p.1)),
            None => None,
        }
    } else {
        None
    }
}

/// Whether the literal `null` stands at `i`.
pub open spec fn is_null_at(s: Seq<u8>, i: int) -> bool {
    0 <= i && i + 4 <= s.len() && s[i] == 110 && s[i + 1] == 117 && s[i + 2] == 108 && s[i + 3]
        == 108
}

/// The first position at or after `i` that holds no decimal digit.
pub open spec fn skip_digits(s: Seq<u8>, i: int) -> int
    decreases s.len() - i,
{
    if 0 <= i && i < s.len() && is_digit(s[i]) {
        skip_digits(s, i + 1)
    } else {
        i
    }
}

/// The end of a JSON number starting at `i`, or nothing if none stands
/// there.
pub open spec fn skip_number(s: Seq<u8>, i: int) -> Option<int> {
    if i < 0 || i >= s.len() {
        None
    } else {
        let j = if s[i] == 45 {
            i + 1
        } else {
            i
        };
        if j >= s.len() || !is_digit(s[j]) {
            None
        } else {
            let k = if s[j] == 48 {
                j + 1
            } else {
                skip_digits(s, j)
            };
            let k2 = if k < s.len() && s[k] == 46 {
                if skip_digits(s, k + 1) == k + 1 {
                    -1
                } else {
                    skip_digits(s, k + 1)
                }
            } else {
                k
            };
            if k2 < 0 {
                None
            } else if k2 < s.len() && (s[k2] == 101 || s[k2] == 69) {
                let e0 = if k2 + 1 < s.len() && (s[k2 + 1] == 43 || s[k2 + 1] == 45) {
                    k2 + 2
                } else {
                    k2 + 1
                };
                if skip_digits(s, e0) == e0 {
                    None
                } else {
                    Some(skip_digits(s, e0))
                }
            } else {
                Some(k2)
            }
        }
    }
}

/// The end of any JSON value starting at `i`, or nothing.
pub open spec fn skip_value(s: Seq<u8>, i: int) -> Option<int>
    decreases s.len() - i, 0int,
{
    if i < 0 || i >= s.len() {
        None
    } else if s[i] == 34 {
        match scan_string(s, i + 1) {
            Some(p) => Some(p.1),
            None => None,
        }
    } else if s[i] == 123 {
        let j = skip_ws(s, i + 1);
        if i < j && j <= s.len() {
            skip_object_rest(s, j, true)
        } else {
            None
        }
    } else if s[i] == 91 {
        let j = skip_ws(s, i + 1);
        if i < j && j <= s.len() {
            skip_array_rest(s, j, true)
        } else {
            None
        }
    } else if s[i] == 116 {
        if i + 4 <= s.len() && s[i + 1] == 114 && s[i + 2] == 117 && s[i + 3] == 101 {
            Some(i + 4)
        } else {
            None
        }
    } else if s[i] == 102 {
        if i + 5 <= s.len() && s[i + 1] == 97 && s[i + 2] == 108 && s[i + 3] == 115 && s[i + 4]
            == 101 {
            Some(i + 5)
        } else {
            None
        }
    } else if s[i] == 110 {
        if is_null_at(s, i) {
            Some(i + 4)
        } else {
            None
        }
    } else if s[i] == 45 || is_digit(s[i]) {
        skip_number(s, i)
    } else {
        None
    }
}

/// The end of an object body: at a member name, or at `}` when `can_close`.
pub open spec fn skip_object_rest(s: Seq<u8>, i: int, can_close: bool) -> Option<int>
    decreases s.len() - i, 1int,
{
    if i < 0 || i >= s.len() {
        None
    } else if s[i] == 125 {
        if can_close {
            Some(i + 1)
        } else {
            None
        }
    } else if s[i] == 34 {
        match scan_string(s, i + 1) {
            None => None,
            Some(kp) => {
                let q = skip_ws(s, kp.1);
                if q >= s.len() || s[q] != 58 {
                    None
                } else {
                    let v = skip_ws(s, q + 1);
                    if v <= i || v > s.len() {
                        None
                    } else {
                        match skip_value(s, v) {
                            None => None,
                            Some(w) => {
                                let x = skip_ws(s, w);
                                if x >= s.len() {
                                    None
                                } else if s[x] == 125 {
                                    Some(x + 1)
                                } else if s[x] == 44 {
                                    let y = skip_ws(s, x + 1);
                                    if i < y && y <= s.len() {
                                        skip_object_rest(s, y, false)
                                    } else {
                                        None
                                    }
                                } else {
                                    None
                                }
                            },
                        }
                    }
                }
            },
        }
    } else {
        None
    }
}

/// The end of an array body: at a value, or at `]` when `can_close`.
pub open spec fn skip_array_rest(s: Seq<u8>, i: int, can_close: bool) -> Option<int>
    decreases s.len() - i, 1int,
{
    if i < 0 || i >= s.len() {
        None
    } else if s[i] == 93 {
        if can_close {
            Some(i + 1)
        } else {
            None
        }
    } else {
        match skip_value(s, i) {
            None => None,
            Some(w) => {
                let x = skip_ws(s, w);
                if x >= s.len() {
                    None
                } else if s[x] == 93 {
                    Some(x + 1)
                } else if s[x] == 44 {
                    let y = skip_ws(s, x + 1);
                    if i < y && y <= s.len() {
                        skip_array_rest(s, y, false)
                    } else {
                        None
                    }
                } else {
                    None
                }
            },
        }
    }
}

/// What has been gathered from the members read so far.
pub struct EnvStateView {
    pub message_type: Option<Seq<u8>>,
    pub seen_data: bool,
    pub data: Option<Seq<u8>>,
    pub seen_data_array: bool,
    pub data_array: Option<Seq<Seq<u8>>>,
}

/// The members before any has been read.
pub open spec fn env_state_empty() -> EnvStateView {
    EnvStateView {
        message_type: None,
        seen_data: false,
        data: None,
        seen_data_array: false,
        data_array: None,
    }
}

/// One member's value, dispatched on its name: `messageType` takes a
/// string; `data` a string or `null`; `dataArray` a list of strings or
/// `null`; any other name takes any JSON value, which is skipped. A second
/// occurrence of a known name is refused.
pub open spec fn member_value(s: Seq<u8>, v: int, st: EnvStateView, key: Seq<u8>) -> Option<
    (EnvStateView, int),
> {
    if key == key_message_type() {
        if st.message_type is Some {
            None
        } else if 0 <= v && v < s.len() && s[v] == 34 {
            match scan_string(s, v + 1) {
                Some(p) => Some(
                    (
                        EnvStateView {
                            message_type: Some(p.0),
                            seen_data: st.seen_data,
                            data: st.data,
                            seen_data_array: st.seen_data_array,
                            data_array: st.data_array,
                        },
                        p.1,
                    ),
                ),
                None => None,
            }
        } else {
            None
        }
    } else if key == key_data() {
        if st.seen_data {
            None
        } else if 0 <= v && v < s.len() && s[v] == 34 {
            match scan_string(s, v + 1) {
                Some(p) => Some(
                    (
                        EnvStateView {
                            message_type: st.message_type,
                            seen_data: true,
                            data: Some(p.0),
                            seen_data_array: st.seen_data_array,
                            data_array: st.data_array,
                        },
                        p.1,
                    ),
                ),
                None => None,
            }
        } else if is_null_at(s, v) {
            Some(
                (
                    EnvStateView {
                        message_type: st.message_type,
                        seen_data: true,
                        data: st.data,
                        seen_data_array: st.seen_data_array,
                        data_array: st.data_array,
                    },
                    v + 4,
                ),
            )
        } else {
            None
        }
    } else if key == key_data_array() {
        if st.seen_data_array {
            None
        } else if 0 <= v && v < s.len() && s[v] == 91 {
            match scan_list(s, v + 1) {
                Some(p) => Some(
                    (
                        EnvStateView {
                            message_type: st.message_type,
                            seen_data: st.seen_data,
                            data: st.data,
                            seen_data_array: true,
                            data_array: Some(p.0),
                        },
                        p.1,
                    ),
                ),
                None => None,
            }
        } else if is_null_at(s, v) {
            Some(
                (
                    EnvStateView {
                        message_type: st.message_type,
                        seen_data: st.seen_data,
                        data: st.data,
                        seen_data_array: true,
                        data_array: st.data_array,
                    },
                    v + 4,
                ),
            )
        } else {
            None
        }
    } else {
        match skip_value(s, v) {
            Some(w) => Some((st, w)),
            None => None,
        }
    }
}

/// Reads members from a member name's opening quote until the closing `}`.
pub open spec fn parse_members(s: Seq<u8>, i: int, st: EnvStateView) -> Option<
    (EnvStateView, int),
>
    decreases s.len() - i,
{
    if i < 0 || i >= s.len() || s[i] != 34 {
        None
    } else {
        match scan_string(s, i + 1) {
            None => None,
            Some(kp) => {
                let q = skip_ws(s, kp.1);
                if q >= s.len() || s[q] != 58 {
                    None
                } else {
                    let v = skip_ws(s, q + 1);
                    match member_value(s, v, st, kp.0) {
                        None => None,
                        Some(mv) => {
                            let x = skip_ws(s, mv.1);
                            if x >= s.len() {
                                None
                            } else if s[x] == 125 {
                                Some((mv.0, x + 1))
                            } else if s[x] == 44 {
                                let y = skip_ws(s, x + 1);
                                if i < y && y <= s.len() {
                                    parse_members(s, y, mv.0)
                                } else {
                                    None
                                }
                            } else {
                                None
                            }
                        },
                    }
                }
            },
        }
    }
}

/// What a whole frame parses to: the envelope its JSON object form denotes,
/// or nothing. A frame without a `messageType` member, or with bytes after
/// the closing brace other than whitespace, is no envelope.
pub open spec fn parse_envelope_spec(s: Seq<u8>) -> Option<MessageDataView> {
    let i0 = skip_ws(s, 0);
    if i0 >= s.len() || s[i0] != 123 {
        None
    } else {
        let i1 = skip_ws(s, i0 + 1);
        if i1 >= s.len() || s[i1] != 34 {
            None
        } else {
            match parse_members(s, i1, env_state_empty()) {
                None => None,
                Some(rp) => match rp.0.message_type {
                    Some(mt) => if skip_ws(s, rp.1) == s.len() {
                        Some(
                            MessageDataView {
                                message_type: mt,
                                data: rp.0.data,
                                data_array: rp.0.data_array,
                            },
                        )
                    } else {
                        None
                    },
                    None => None,
                },
            }
        }
    }
}


/// The spec-side value of an executable string-scan result.
pub open spec fn scan_view(r: Option<(Vec<u8>, usize)>) -> Option<(Seq<u8>, int)> {
    match r {
        Some(p) => Some((p.0@, p.1 as int)),
        None => None,
    }
}

/// The spec-side value of an executable list-scan result.
pub open spec fn list_view(r: Option<(Vec<Vec<u8>>, usize)>) -> Option<(Seq<Seq<u8>>, int)> {
    match r {
        Some(p) => Some((seqs_view(p.0@), p.1 as int)),
        None => None,
    }
}

/// The spec-side value of an executable position result.
pub open spec fn pos_view(r: Option<usize>) -> Option<int> {
    match r {
        Some(p) => Some(p as int),
        None => None,
    }
}

/// The spec-side value of an executable parse result.
pub open spec fn env_view(r: Option<MessageData>) -> Option<MessageDataView> {
    match r {
        Some(m) => Some(m@),
        None => None,
    }
}

/// What has been gathered from the members read so far, executably.
pub struct EnvState {
    pub message_type: Option<Vec<u8>>,
    pub seen_data: bool,
    pub data: Option<Vec<u8>>,
    pub seen_data_array: bool,
    pub data_array: Option<Vec<Vec<u8>>>,
}

impl View for EnvState {
    type V = EnvStateView;

    open spec fn view(&self) -> EnvStateView {
        EnvStateView {
            message_type: match self.message_type {
                Some(m) => Some(m@),
                None => None,
            },
            seen_data: self.seen_data,
            data: match self.data {
                Some(d) => Some(d@),
                None => None,
            },
            seen_data_array: self.seen_data_array,
            data_array: match self.data_array {
                Some(a) => Some(seqs_view(a@)),
                None => None,
            },
        }
    }
}

/// The spec-side value of an executable member-reading result.
pub open spec fn members_view(r: Option<(EnvState, usize)>) -> Option<(EnvStateView, int)> {
    match r {
        Some(p) => Some((p.0@, p.1 as int)),
        None => None,
    }
}

/// Puts already-decoded bytes in front of a string-scan result.
pub open spec fn prepend_scan(p: Seq<u8>, r: Option<(Seq<u8>, int)>) -> Option<(Seq<u8>, int)> {
    match r {
        Some(q) => Some((p + q.0, q.1)),
        None => None,
    }
}

/// Puts already-decoded elements in front of a list-scan result.
pub open spec fn prepend_list(p: Seq<Seq<u8>>, r: Option<(Seq<Seq<u8>>, int)>) -> Option<
    (Seq<Seq<u8>>, int),
> {
    match r {
        Some(q) => Some((p + q.0, q.1)),
        None => None,
    }
}

proof fn lemma_prepend_scan_empty(r: Option<(Seq<u8>, int)>)
    ensures
        prepend_scan(Seq::empty(), r) == r,
{
    match r {
        Some(q) => {
            assert(Seq::<u8>::empty() + q.0 =~= q.0);
        },
        None => {},
    }
}

proof fn lemma_prepend_scan_snoc(p: Seq<u8>, b: u8, r: Option<(Seq<u8>, int)>)
    ensures
        prepend_scan(p, cons_scan(b, r)) == prepend_scan(p.push(b), r),
{
    match r {
        Some(q) => {
            assert(p + (seq![b] + q.0) =~= p.push(b) + q.0);
        },
        None => {},
    }
}

proof fn lemma_prepend_list_snoc(p: Seq<Seq<u8>>, x: Seq<u8>, r: Option<(Seq<Seq<u8>>, int)>)
    ensures
        prepend_list(p, cons_list(x, r)) == prepend_list(p.push(x), r),
{
    match r {
        Some(q) => {
            assert(p + (seq![x] + q.0) =~= p.push(x) + q.0);
        },
        None => {},
    }
}

/// The first whitespace-free position at or after `i`.
pub fn skip_ws_exec(s: &Vec<u8>, start: usize) -> (r: usize)
    requires
        start <= s@.len(),
    ensures
        r as int == skip_ws(s@, start as int),
        start <= r <= s@.len(),
{
    let n = s.len();
    let mut i = start;
    while i < n && (s[i] == 32 || s[i] == 9 || s[i] == 10 || s[i] == 13)
        invariant
            n == s@.len(),
            start <= i <= n,
            skip_ws(s@, start as int) == skip_ws(s@, i as int),
        decreases n - i,
    {
        i = i + 1;
    }
    i
}

/// The first digit-free position at or after `i`.
fn skip_digits_exec(s: &Vec<u8>, start: usize) -> (r: usize)
    requires
        start <= s@.len(),
    ensures
        r as int == skip_digits(s@, start as int),
        start <= r <= s@.len(),
{
    let n = s.len();
    let mut i = start;
    while i < n && 48 <= s[i] && s[i] <= 57
        invariant
            n == s@.len(),
            start <= i <= n,
            skip_digits(s@, start as int) == skip_digits(s@, i as int),
        decreases n - i,
    {
        i = i + 1;
    }
    i
}

fn is_hex_digit_exec(c: u8) -> (r: bool)
    ensures
        r == is_hex_digit(c),
{
    (48 <= c && c <= 57) || (97 <= c && c <= 102) || (65 <= c && c <= 70)
}

fn hex_value_exec(c: u8) -> (r: u8)
    requires
        is_hex_digit(c),
    ensures
        r as int == hex_value(c),
        r < 16,
{
    if c <= 57 {
        c - 48
    } else if c >= 97 {
        c - 87
    } else {
        c - 55
    }
}

fn escape_code_exec(c: u8) -> (r: Option<u8>)
    ensures
        r == escape_code(c),
{
    if c == 34 {
        Some(34)
    } else if c == 92 {
        Some(92)
    } else if c == 47 {
        Some(47)
    } else if c == 98 {
        Some(8)
    } else if c == 102 {
        Some(12)
    } else if c == 110 {
        Some(10)
    } else if c == 114 {
        Some(13)
    } else if c == 116 {
        Some(9)
    } else {
        None
    }
}

/// Scans a string body from just after its opening quote.
pub fn scan_string_exec(s: &Vec<u8>, start: usize) -> (r: Option<(Vec<u8>, usize)>)
    ensures
        scan_view(r) == scan_string(s@, start as int),
        r matches Some(p) ==> start < p.1 && p.1 <= s@.len(),
{
    let n = s.len();
    let mut i: usize = start;
    let mut out: Vec<u8> = Vec::new();
    if start >= n {
        return None;
    }
    proof {
        lemma_prepend_scan_empty(scan_string(s@, start as int));
    }
    while i < n
        invariant
            n == s@.len(),
            start <= i <= n,
            scan_string(s@, start as int) == prepend_scan(out@, scan_string(s@, i as int)),
        decreases n - i,
    {
        let b = s[i];
        if b == 34 {
            proof {
                assert(scan_string(s@, i as int) == Some((Seq::<u8>::empty(), i + 1 as int)));
                assert(out@ + Seq::<u8>::empty() =~= out@);
            }
            return Some((out, i + 1));
        } else if b == 92 {
            if n - i > 1 {
                let c = s[i + 1];
                let short = escape_code_exec(c);
                match short {
                    Some(d) => {
                        proof {
                            assert(scan_string(s@, i as int) == cons_scan(
                                d,
                                scan_string(s@, i + 2),
                            ));
                            lemma_prepend_scan_snoc(out@, d, scan_string(s@, i + 2));
                        }
                        out.push(d);
                        i = i + 2;
                    },
                    None => {
                        if c == 117 && n - i > 5 && is_hex_digit_exec(s[i + 2])
                            && is_hex_digit_exec(s[i + 3]) && is_hex_digit_exec(s[i + 4])
                            && is_hex_digit_exec(s[i + 5]) {
                            let h1 = hex_value_exec(s[i + 2]);
                            let h2 = hex_value_exec(s[i + 3]);
                            let h3 = hex_value_exec(s[i + 4]);
                            let h4 = hex_value_exec(s[i + 5]);
                            let val: u32 = ((h1 as u32 * 16 + h2 as u32) * 16 + h3 as u32) * 16
                                + h4 as u32;
                            proof {
                                assert(val as int == hex4_value(s@, i + 2));
                            }
                            if val < 128 {
                                let d = val as u8;
                                proof {
                                    assert(scan_string(s@, i as int) == cons_scan(
                                        d,
                                        scan_string(s@, i + 6),
                                    ));
                                    lemma_prepend_scan_snoc(out@, d, scan_string(s@, i + 6));
                                }
                                out.push(d);
                                i = i + 6;
                            } else {
                                proof {
                                    assert(scan_string(s@, i as int) is None);
                                }
                                return None;
                            }
                        } else {
                            proof {
                                assert(scan_string(s@, i as int) is None);
                            }
                            return None;
                        }
                    },
                }
            } else {
                return None;
            }
        } else if b >= 32 {
            proof {
                assert(scan_string(s@, i as int) == cons_scan(b, scan_string(s@, i + 1)));
                lemma_prepend_scan_snoc(out@, b, scan_string(s@, i + 1));
            }
            out.push(b);
            i = i + 1;
        } else {
            return None;
        }
    }
    None
}

/// Scans a list body from just after `[`.
pub fn scan_list_exec(s: &Vec<u8>, start: usize) -> (r: Option<(Vec<Vec<u8>>, usize)>)
    requires
        start <= s@.len(),
    ensures
        list_view(r) == scan_list(s@, start as int),
        r matches Some(p) ==> p.1 <= s@.len(),
{
    let n = s.len();
    let j0 = skip_ws_exec(s, start);
    if j0 >= n {
        return None;
    }
    let b0 = s[j0];
    if b0 == 93 {
        let empty_list: Vec<Vec<u8>> = Vec::new();
        proof {
            assert(seqs_view(empty_list@) =~= Seq::<Seq<u8>>::empty());
        }
        return Some((empty_list, j0 + 1));
    }
    if b0 != 34 {
        return None;
    }
    let first = scan_string_exec(s, j0 + 1);
    match first {
        None => {
            return None;
        },
        Some((x, j)) => {
            let mut acc: Vec<Vec<u8>> = Vec::new();
            let ghost xg = x@;
            acc.push(x);
            let mut i: usize = j;
            proof {
                assert(seqs_view(acc@) =~= seq![xg]);
                match scan_list_rest(s@, j as int) {
                    Some(q) => {
                        assert(seq![xg] + q.0 =~= seqs_view(acc@) + q.0);
                    },
                    None => {},
                }
                assert(scan_list(s@, start as int) == prepend_list(
                    seqs_view(acc@),
                    scan_list_rest(s@, i as int),
                ));
            }
            loop
                invariant
                    n == s@.len(),
                    i <= n,
                    scan_list(s@, start as int) == prepend_list(
                        seqs_view(acc@),
                        scan_list_rest(s@, i as int),
                    ),
                decreases n - i,
            {
                let k = skip_ws_exec(s, i);
                if k >= n {
                    proof {
                        assert(scan_list_rest(s@, i as int) is None);
                    }
                    return None;
                }
                let b = s[k];
                if b == 93 {
                    proof {
                        assert(scan_list_rest(s@, i as int) == Some(
                            (Seq::<Seq<u8>>::empty(), k + 1 as int),
                        ));
                        assert(seqs_view(acc@) + Seq::<Seq<u8>>::empty() =~= seqs_view(acc@));
                    }
                    return Some((acc, k + 1));
                }
                if b == 44 {
                    let k2 = skip_ws_exec(s, k + 1);
                    if k2 >= n || s[k2] != 34 {
                        proof {
                            assert(scan_list_rest(s@, i as int) is None);
                        }
                        return None;
                    }
                    let nxt = scan_string_exec(s, k2 + 1);
                    match nxt {
                        None => {
                            proof {
                                assert(scan_list_rest(s@, i as int) is None);
                            }
                            return None;
                        },
                        Some((x2, j2)) => {
                            proof {
                                assert(scan_list_rest(s@, i as int) == cons_list(
                                    x2@,
                                    scan_list_rest(s@, j2 as int),
                                ));
                                lemma_prepend_list_snoc(
                                    seqs_view(acc@),
                                    x2@,
                                    scan_list_rest(s@, j2 as int),
                                );
                                crate::codec::lemma_seqs_view_push(acc@, x2);
                            }
                            acc.push(x2);
                            i = j2;
                        },
                    }
                } else {
                    proof {
                        assert(scan_list_rest(s@, i as int) is None);
                    }
                    return None;
                }
            }
        },
    }
}

/// The end of a JSON number.
fn skip_number_exec(s: &Vec<u8>, i: usize) -> (r: Option<usize>)
    ensures
        pos_view(r) == skip_number(s@, i as int),
        r matches Some(p) ==> p <= s@.len(),
{
    let n = s.len();
    if i >= n {
        return None;
    }
    let j = if s[i] == 45 {
        i + 1
    } else {
        i
    };
    if j >= n || !(48 <= s[j] && s[j] <= 57) {
        return None;
    }
    let k = if s[j] == 48 {
        j + 1
    } else {
        skip_digits_exec(s, j)
    };
    let k2: usize;
    if k < n && s[k] == 46 {
        let d = skip_digits_exec(s, k + 1);
        if d == k + 1 {
            return None;
        }
        k2 = d;
    } else {
        k2 = k;
    }
    if k2 < n && (s[k2] == 101 || s[k2] == 69) {
        let e0 = if k2 + 1 < n && (s[k2 + 1] == 43 || s[k2 + 1] == 45) {
            k2 + 2
        } else {
            k2 + 1
        };
        let d2 = skip_digits_exec(s, e0);
        if d2 == e0 {
            return None;
        }
        return Some(d2);
    }
    Some(k2)
}

/// The end of any JSON value.
fn skip_value_exec(s: &Vec<u8>, i: usize) -> (r: Option<usize>)
    ensures
        pos_view(r) == skip_value(s@, i as int),
        r matches Some(p) ==> p <= s@.len(),
    decreases s@.len() - i, 0int,
{
    let n = s.len();
    if i >= n {
        return None;
    }
    let b = s[i];
    if b == 34 {
        match scan_string_exec(s, i + 1) {
            Some(p) => Some(p.1),
            None => None,
        }
    } else if b == 123 {
        let j = skip_ws_exec(s, i + 1);
        skip_object_rest_exec(s, j, true)
    } else if b == 91 {
        let j = skip_ws_exec(s, i + 1);
        skip_array_rest_exec(s, j, true)
    } else if b == 116 {
        if n - i >= 4 && s[i + 1] == 114 && s[i + 2] == 117 && s[i + 3] == 101 {
            Some(i + 4)
        } else {
            None
        }
    } else if b == 102 {
        if n - i >= 5 && s[i + 1] == 97 && s[i + 2] == 108 && s[i + 3] == 115 && s[i + 4] == 101 {
            Some(i + 5)
        } else {
            None
        }
    } else if b == 110 {
        if n - i >= 4 && s[i + 1] == 117 && s[i + 2] == 108 && s[i + 3] == 108 {
            Some(i + 4)
        } else {
            None
        }
    } else if b == 45 || (48 <= b && b <= 57) {
        skip_number_exec(s, i)
    } else {
        None
    }
}

/// The end of an object body.
fn skip_object_rest_exec(s: &Vec<u8>, i: usize, can_close: bool) -> (r: Option<usize>)
    requires
        i <= s@.len(),
    ensures
        pos_view(r) == skip_object_rest(s@, i as int, can_close),
        r matches Some(p) ==> p <= s@.len(),
    decreases s@.len() - i, 1int,
{
    let n = s.len();
    if i >= n {
        return None;
    }
    let b = s[i];
    if b == 125 {
        if can_close {
            return Some(i + 1);
        }
        return None;
    }
    if b != 34 {
        return None;
    }
    let kp = match scan_string_exec(s, i + 1) {
        Some(p) => p,
        None => {
            return None;
        },
    };
    let q = skip_ws_exec(s, kp.1);
    if q >= n || s[q] != 58 {
        return None;
    }
    let v = skip_ws_exec(s, q + 1);
    if v <= i {
        return None;
    }
    let w = match skip_value_exec(s, v) {
        Some(p) => p,
        None => {
            return None;
        },
    };
    let x = skip_ws_exec(s, w);
    if x >= n {
        return None;
    }
    if s[x] == 125 {
        return Some(x + 1);
    }
    if s[x] == 44 {
        let y = skip_ws_exec(s, x + 1);
        if i < y {
            return skip_object_rest_exec(s, y, false);
        }
        return None;
    }
    None
}

/// The end of an array body.
fn skip_array_rest_exec(s: &Vec<u8>, i: usize, can_close: bool) -> (r: Option<usize>)
    requires
        i <= s@.len(),
    ensures
        pos_view(r) == skip_array_rest(s@, i as int, can_close),
        r matches Some(p) ==> p <= s@.len(),
    decreases s@.len() - i, 1int,
{
    let n = s.len();
    if i >= n {
        return None;
    }
    if s[i] == 93 {
        if can_close {
            return Some(i + 1);
        }
        return None;
    }
    let w = match skip_value_exec(s, i) {
        Some(p) => p,
        None => {
            return None;
        },
    };
    let x = skip_ws_exec(s, w);
    if x >= n {
        return None;
    }
    if s[x] == 93 {
        return Some(x + 1);
    }
    if s[x] == 44 {
        let y = skip_ws_exec(s, x + 1);
        if i < y {
            return skip_array_rest_exec(s, y, false);
        }
        return None;
    }
    None
}

/// The bytes of the member name `messageType`.
fn key_message_type_vec() -> (r: Vec<u8>)
    ensures
        r@ == key_message_type(),
{
    let mut v: Vec<u8> = Vec::new();
    v.push(109);
    v.push(101);
    v.push(115);
    v.push(115);
    v.push(97);
    v.push(103);
    v.push(101);
    v.push(84);
    v.push(121);
    v.push(112);
    v.push(101);
    proof {
        assert(v@ =~= key_message_type());
    }
    v
}

/// The bytes of the member name `data`.
fn key_data_vec() -> (r: Vec<u8>)
    ensures
        r@ == key_data(),
{
    let mut v: Vec<u8> = Vec::new();
    v.push(100);
    v.push(97);
    v.push(116);
    v.push(97);
    proof {
        assert(v@ =~= key_data());
    }
    v
}

/// The bytes of the member name `dataArray`.
fn key_data_array_vec() -> (r: Vec<u8>)
    ensures
        r@ == key_data_array(),
{
    let mut v: Vec<u8> = Vec::new();
    v.push(100);
    v.push(97);
    v.push(116);
    v.push(97);
    v.push(65);
    v.push(114);
    v.push(114);
    v.push(97);
    v.push(121);
    proof {
        assert(v@ =~= key_data_array());
    }
    v
}

/// Whether `null` stands at `i`.
fn is_null_at_exec(s: &Vec<u8>, i: usize) -> (r: bool)
    ensures
        r == is_null_at(s@, i as int),
{
    let n = s.len();
    i < n && n - i >= 4 && s[i] == 110 && s[i + 1] == 117 && s[i + 2] == 108 && s[i + 3] == 108
}

/// One member's value, dispatched on its name.
fn member_value_exec(s: &Vec<u8>, v: usize, st: EnvState, key: &Vec<u8>) -> (r: Option<
    (EnvState, usize),
>)
    ensures
        members_view(r) == member_value(s@, v as int, st@, key@),
        r matches Some(p) ==> p.1 <= s@.len(),
{
    let n = s.len();
    let mt_key = key_message_type_vec();
    let d_key = key_data_vec();
    let a_key = key_data_array_vec();
    if bytes_eq(key, &mt_key) {
        if st.message_type.is_some() {
            return None;
        }
        if v < n && s[v] == 34 {
            match scan_string_exec(s, v + 1) {
                Some((x, w)) => {
                    return Some(
                        (
                            EnvState {
                                message_type: Some(x),
                                seen_data: st.seen_data,
                                data: st.data,
                                seen_data_array: st.seen_data_array,
                                data_array: st.data_array,
                            },
                            w,
                        ),
                    );
                },
                None => {
                    return None;
                },
            }
        }
        return None;
    }
    if bytes_eq(key, &d_key) {
        if st.seen_data {
            return None;
        }
        if v < n && s[v] == 34 {
            match scan_string_exec(s, v + 1) {
                Some((x, w)) => {
                    return Some(
                        (
                            EnvState {
                                message_type: st.message_type,
                                seen_data: true,
                                data: Some(x),
                                seen_data_array: st.seen_data_array,
                                data_array: st.data_array,
                            },
                            w,
                        ),
                    );
                },
                None => {
                    return None;
                },
            }
        }
        if is_null_at_exec(s, v) {
            return Some(
                (
                    EnvState {
                        message_type: st.message_type,
                        seen_data: true,
                        data: st.data,
                        seen_data_array: st.seen_data_array,
                        data_array: st.data_array,
                    },
                    v + 4,
                ),
            );
        }
        return None;
    }
    if bytes_eq(key, &a_key) {
        if st.seen_data_array {
            return None;
        }
        if v < n && s[v] == 91 {
            match scan_list_exec(s, v + 1) {
                Some((a, w)) => {
                    return Some(
                        (
                            EnvState {
                                message_type: st.message_type,
                                seen_data: st.seen_data,
                                data: st.data,
                                seen_data_array: true,
                                data_array: Some(a),
                            },
                            w,
                        ),
                    );
                },
                None => {
                    return None;
                },
            }
        }
        if is_null_at_exec(s, v) {
            return Some(
                (
                    EnvState {
                        message_type: st.message_type,
                        seen_data: st.seen_data,
                        data: st.data,
                        seen_data_array: true,
                        data_array: st.data_array,
                    },
                    v + 4,
                ),
            );
        }
        return None;
    }
    match skip_value_exec(s, v) {
        Some(w) => Some((st, w)),
        None => None,
    }
}

/// Reads members from a member name's opening quote until the closing `}`.
fn parse_members_exec(s: &Vec<u8>, i: usize, st: EnvState) -> (r: Option<(EnvState, usize)>)
    requires
        i <= s@.len(),
    ensures
        members_view(r) == parse_members(s@, i as int, st@),
        r matches Some(p) ==> p.1 <= s@.len(),
    decreases s@.len() - i,
{
    let n = s.len();
    if i >= n || s[i] != 34 {
        return None;
    }
    let (key, p1) = match scan_string_exec(s, i + 1) {
        Some(p) => p,
        None => {
            return None;
        },
    };
    let q = skip_ws_exec(s, p1);
    if q >= n || s[q] != 58 {
        return None;
    }
    let v = skip_ws_exec(s, q + 1);
    let (st2, w) = match member_value_exec(s, v, st, &key) {
        Some(p) => p,
        None => {
            return None;
        },
    };
    let x = skip_ws_exec(s, w);
    if x >= n {
        return None;
    }
    if s[x] == 125 {
        return Some((st2, x + 1));
    }
    if s[x] == 44 {
        let y = skip_ws_exec(s, x + 1);
        if i < y {
            return parse_members_exec(s, y, st2);
        }
        return None;
    }
    None
}

/// Parses one frame: the envelope whose JSON object form it is, or nothing
/// for every other byte string.
pub fn parse_envelope(s: &Vec<u8>) -> (r: Option<MessageData>)
    ensures
        env_view(r) == parse_envelope_spec(s@),
{
    let n = s.len();
    let i0 = skip_ws_exec(s, 0);
    if i0 >= n || s[i0] != 123 {
        return None;
    }
    let i1 = skip_ws_exec(s, i0 + 1);
    if i1 >= n || s[i1] != 34 {
        return None;
    }
    let st0 = EnvState {
        message_type: None,
        seen_data: false,
        data: None,
        seen_data_array: false,
        data_array: None,
    };
    proof {
        assert(st0@ == env_state_empty());
    }
    let (st, j) = match parse_members_exec(s, i1, st0) {
        Some(p) => p,
        None => {
            return None;
        },
    };
    match st.message_type {
        Some(mt) => {
            let e = skip_ws_exec(s, j);
            if e == n {
                Some(MessageData { message_type: mt, data: st.data, data_array: st.data_array })
            } else {
                None
            }
        },
        None => None,
    }
}

} // verus!
