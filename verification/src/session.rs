//! The per-connection decision logic: what one session does with each event,
//! stated as a spec-level step function and implemented exactly.
//!
//! The surrounding application owns the transport and the broadcast channel;
//! it waits for whichever source is ready, hands the event here, and then
//! performs the returned action: publish to the hub, forward to the client,
//! or end the session.

use vstd::prelude::*;
use crate::envelope::{
    bytes_eq, chat_json, envelope_json, message_type_name, register_type, users_type, ChatMessage,
    MessageData, MessageDataView,
};
use crate::codec::{
    clone_bytes, encode_chat_message, encode_envelope, message_type_name_vec, register_type_vec,
    users_type_vec,
};
use crate::directory::{find_user, nicknames_of, UserRepository, UserView};
use crate::parse::{parse_envelope, parse_envelope_spec};

verus! {

/// Why a session ended.
#[derive(Clone, Copy, PartialEq, Eq, Structural, Debug)]
pub enum TerminationCause {
    /// The client closed its stream cleanly.
    CleanClose,
    /// Reading from or writing to the client failed.
    Transport,
    /// A frame was not the wire form of any envelope.
    Protocol,
    /// This session's hub subscription fell behind and lost messages.
    Lagged,
}

/// One thing a session can observe: an inbound frame, the end or failure of
/// the inbound stream, a payload from the hub, or hub lag.
pub enum SessionEvent {
    Frame(Vec<u8>),
    StreamEnd,
    TransportError,
    HubPayload(Vec<u8>),
    HubLagged,
}

/// What the session does next: nothing, publish a payload to the hub,
/// forward a payload to its own client, or stop for the given cause.
pub enum SessionAction {
    Continue,
    Publish(Vec<u8>),
    Forward(Vec<u8>),
    Stop(TerminationCause),
}

/// Mathematical view of a `SessionEvent`.
pub enum EventView {
    Frame(Seq<u8>),
    StreamEnd,
    TransportError,
    HubPayload(Seq<u8>),
    HubLagged,
}

/// Mathematical view of a `SessionAction`.
pub enum ActionView {
    Continue,
    Publish(Seq<u8>),
    Forward(Seq<u8>),
    Stop(TerminationCause),
}

impl View for SessionEvent {
    type V = EventView;

    open spec fn view(&self) -> EventView {
        match self {
            SessionEvent::Frame(f) => EventView::Frame(f@),
            SessionEvent::StreamEnd => EventView::StreamEnd,
            SessionEvent::TransportError => EventView::TransportError,
            SessionEvent::HubPayload(p) => EventView::HubPayload(p@),
            SessionEvent::HubLagged => EventView::HubLagged,
        }
    }
}

impl View for SessionAction {
    type V = ActionView;

    open spec fn view(&self) -> ActionView {
        match self {
            SessionAction::Continue => ActionView::Continue,
            SessionAction::Publish(p) => ActionView::Publish(p@),
            SessionAction::Forward(p) => ActionView::Forward(p@),
            SessionAction::Stop(c) => ActionView::Stop(*c),
        }
    }
}

/// The string payload of an envelope, or empty when absent.
pub open spec fn data_or_empty(d: Option<Seq<u8>>) -> Seq<u8> {
    match d {
        Some(x) => x,
        None => Seq::empty(),
    }
}

/// The `users` envelope that announces the full nickname list.
pub open spec fn users_envelope(nicks: Seq<Seq<u8>>) -> MessageDataView {
    MessageDataView { message_type: users_type(), data: None, data_array: Some(nicks) }
}

/// The `message` envelope that carries one chat line.
pub open spec fn chat_envelope(from: Seq<u8>, text: Seq<u8>) -> MessageDataView {
    MessageDataView {
        message_type: message_type_name(),
        data: Some(chat_json(from, text)),
        data_array: None,
    }
}

/// What one parsed envelope does to the directory, and what it publishes:
/// `register` appends a user and publishes the snapshot; `message` from a
/// registered identity publishes a chat envelope under the first-registered
/// nickname; everything else changes nothing and publishes nothing.
pub open spec fn handle_spec(users: Seq<UserView>, identity: u64, m: MessageDataView) -> (
    Seq<UserView>,
    Option<Seq<u8>>,
) {
    if m.message_type == register_type() {
        let u = UserView { identity, nickname: data_or_empty(m.data), is_online: true };
        let users2 = users.push(u);
        (users2, Some(envelope_json(users_envelope(nicknames_of(users2)))))
    } else if m.message_type == message_type_name() {
        match find_user(users, identity) {
            Some(u) => (
                users,
                Some(envelope_json(chat_envelope(u.nickname, data_or_empty(m.data)))),
            ),
            None => (users, None),
        }
    } else {
        (users, None)
    }
}

/// What one event does to the directory and which action it yields.
pub open spec fn step_spec(users: Seq<UserView>, identity: u64, ev: EventView) -> (
    Seq<UserView>,
    ActionView,
) {
    match ev {
        EventView::Frame(f) => match parse_envelope_spec(f) {
            Some(m) => (
                handle_spec(users, identity, m).0,
                match handle_spec(users, identity, m).1 {
                    Some(p) => ActionView::Publish(p),
                    None => ActionView::Continue,
                },
            ),
            None => (users, ActionView::Stop(TerminationCause::Protocol)),
        },
        EventView::StreamEnd => (users, ActionView::Stop(TerminationCause::CleanClose)),
        EventView::TransportError => (users, ActionView::Stop(TerminationCause::Transport)),
        EventView::HubPayload(p) => (users, ActionView::Forward(p)),
        EventView::HubLagged => (users, ActionView::Stop(TerminationCause::Lagged)),
    }
}

/// Applies one parsed envelope: updates the directory and returns the
/// payload to publish, if any.
pub fn handle_envelope(repo: &mut UserRepository, identity: u64, m: &MessageData) -> (r: Option<
    Vec<u8>,
>)
    ensures
        final(repo)@ == handle_spec(old(repo)@, identity, m@).0,
        match r {
            Some(p) => handle_spec(old(repo)@, identity, m@).1 == Some(p@),
            None => handle_spec(old(repo)@, identity, m@).1 is None,
        },
{
    let reg = register_type_vec();
    let msg = message_type_name_vec();
    if bytes_eq(&m.message_type, &reg) {
        let nick = match &m.data {
            Some(d) => clone_bytes(d),
            None => Vec::new(),
        };
        proof {
            assert(nick@ =~= data_or_empty(m@.data));
        }
        repo.register(identity, nick);
        let snapshot = repo.snapshot_nicknames();
        let env = MessageData {
            message_type: users_type_vec(),
            data: None,
            data_array: Some(snapshot),
        };
        let payload = encode_envelope(&env);
        proof {
            assert(env@ == users_envelope(nicknames_of(repo@)));
        }
        Some(payload)
    } else if bytes_eq(&m.message_type, &msg) {
        let found = repo.find_by_identity(identity);
        match found {
            Some(u) => {
                let from = clone_bytes(&u.nickname);
                let text = match &m.data {
                    Some(d) => clone_bytes(d),
                    None => Vec::new(),
                };
                proof {
                    assert(text@ =~= data_or_empty(m@.data));
                }
                let chat = ChatMessage { from, message: text };
                let inner = encode_chat_message(&chat);
                let env = MessageData {
                    message_type: message_type_name_vec(),
                    data: Some(inner),
                    data_array: None,
                };
                let payload = encode_envelope(&env);
                Some(payload)
            },
            None => None,
        }
    } else {
        None
    }
}

/// Takes one event for this session and returns the action to perform; the
/// directory is updated exactly as `step_spec` says.
pub fn session_step(repo: &mut UserRepository, identity: u64, event: SessionEvent) -> (a:
    SessionAction)
    ensures
        final(repo)@ == step_spec(old(repo)@, identity, event@).0,
        a@ == step_spec(old(repo)@, identity, event@).1,
{
    match event {
        SessionEvent::Frame(f) => {
            let parsed = parse_envelope(&f);
            match parsed {
                Some(m) => {
                    let published = handle_envelope(repo, identity, &m);
                    match published {
                        Some(p) => SessionAction::Publish(p),
                        None => SessionAction::Continue,
                    }
                },
                None => SessionAction::Stop(TerminationCause::Protocol),
            }
        },
        SessionEvent::StreamEnd => SessionAction::Stop(TerminationCause::CleanClose),
        SessionEvent::TransportError => SessionAction::Stop(TerminationCause::Transport),
        SessionEvent::HubPayload(p) => SessionAction::Forward(p),
        SessionEvent::HubLagged => SessionAction::Stop(TerminationCause::Lagged),
    }
}

} // verus!
