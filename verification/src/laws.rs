//! The relay's guarantees, stated over the spec-level step functions and
//! proved once and for all.

use vstd::prelude::*;
use crate::envelope::{envelope_json, message_type_name, register_type, MessageDataView};
use crate::directory::{
    find_user, lemma_find_none_no_match, lemma_find_push_fresh, lemma_find_push_keeps,
    lemma_nicknames_push, nicknames_of, UserView,
};
use crate::parse::parse_envelope_spec;
use crate::round_trip::lemma_encode_parse_round_trip;
use crate::session::{
    chat_envelope, data_or_empty, handle_spec, step_spec, users_envelope, ActionView, EventView,
    TerminationCause,
};

verus! {

/// A `register` envelope appends exactly one user record — this identity,
/// the chosen nickname, online — and publishes a `users` envelope whose list
/// is every nickname registered so far, in order, with the new one last.
pub proof fn lemma_register_broadcasts_users(
    users: Seq<UserView>,
    identity: u64,
    m: MessageDataView,
)
    requires
        m.message_type == register_type(),
    ensures
        handle_spec(users, identity, m).0 == users.push(
            UserView { identity, nickname: data_or_empty(m.data), is_online: true },
        ),
        handle_spec(users, identity, m).1 == Some(
            envelope_json(
                users_envelope(nicknames_of(users).push(data_or_empty(m.data))),
            ),
        ),
{
    let u = UserView { identity, nickname: data_or_empty(m.data), is_online: true };
    lemma_nicknames_push(users, u);
}

/// After a fresh identity registers a nickname and then sends a chat text,
/// the published payload is the canonical `message` envelope whose chat
/// payload carries exactly that nickname and text — and it parses back to
/// that envelope, so every subscriber decodes the same pair.
pub proof fn lemma_register_then_message(
    users: Seq<UserView>,
    identity: u64,
    reg: MessageDataView,
    msg: MessageDataView,
)
    requires
        find_user(users, identity) is None,
        reg.message_type == register_type(),
        msg.message_type == message_type_name(),
    ensures
        ({
            let users2 = handle_spec(users, identity, reg).0;
            let sent = chat_envelope(data_or_empty(reg.data), data_or_empty(msg.data));
            handle_spec(users2, identity, msg) == (users2, Some(envelope_json(sent)))
                && parse_envelope_spec(envelope_json(sent)) == Some(sent)
        }),
{
    let u = UserView { identity, nickname: data_or_empty(reg.data), is_online: true };
    let users2 = handle_spec(users, identity, reg).0;
    assert(users2 == users.push(u));
    lemma_find_none_no_match(users, identity, 0);
    lemma_find_push_fresh(users, identity, u, 0);
    assert(find_user(users2, identity) == Some(u));
    let sent = chat_envelope(data_or_empty(reg.data), data_or_empty(msg.data));
    lemma_encode_parse_round_trip(sent);
}

/// Registration is append-only: once an identity has a first record, any
/// further `register` from any identity leaves that first record — and so
/// the nickname chat is attributed to — unchanged.
pub proof fn lemma_reregister_keeps_first_nickname(
    users: Seq<UserView>,
    identity: u64,
    other: u64,
    m: MessageDataView,
)
    requires
        m.message_type == register_type(),
        find_user(users, identity) is Some,
    ensures
        find_user(handle_spec(users, other, m).0, identity) == find_user(users, identity),
{
    let u = UserView { identity: other, nickname: data_or_empty(m.data), is_online: true };
    lemma_find_push_keeps(users, identity, u, 0);
}

/// A `message` from an identity that never registered publishes nothing and
/// leaves the directory unchanged.
pub proof fn lemma_unregistered_message_dropped(
    users: Seq<UserView>,
    identity: u64,
    m: MessageDataView,
)
    requires
        m.message_type == message_type_name(),
        find_user(users, identity) is None,
    ensures
        handle_spec(users, identity, m).0 == users,
        handle_spec(users, identity, m).1 is None,
{
}

/// A frame that parses to an envelope of any unknown type neither publishes
/// nor stops the session, and leaves the directory unchanged.
pub proof fn lemma_unknown_type_ignored(
    users: Seq<UserView>,
    identity: u64,
    f: Seq<u8>,
    m: MessageDataView,
)
    requires
        parse_envelope_spec(f) == Some(m),
        m.message_type != register_type(),
        m.message_type != message_type_name(),
    ensures
        step_spec(users, identity, EventView::Frame(f)) == (users, ActionView::Continue),
{
}

/// A frame that is no envelope at all stops only the receiving session —
/// the shared directory is left exactly as it was.
pub proof fn lemma_malformed_frame_stops_session(users: Seq<UserView>, identity: u64, f: Seq<u8>)
    requires
        parse_envelope_spec(f) is None,
    ensures
        step_spec(users, identity, EventView::Frame(f)) == (
            users,
            ActionView::Stop(TerminationCause::Protocol),
        ),
{
}

/// Chat is not deduplicated: a `message` envelope leaves the directory as it
/// was, so handling the identical envelope again yields the identical
/// publication.
pub proof fn lemma_message_idempotent(users: Seq<UserView>, identity: u64, m: MessageDataView)
    requires
        m.message_type == message_type_name(),
    ensures
        handle_spec(users, identity, m).0 == users,
        handle_spec(handle_spec(users, identity, m).0, identity, m) == handle_spec(
            users,
            identity,
            m,
        ),
{
}

} // verus!
