use broadcast_chat::directory::UserRepository;
use broadcast_chat::session::{session_step, SessionAction, SessionEvent, TerminationCause};

fn b(s: &str) -> Vec<u8> {
    s.as_bytes().to_vec()
}

fn expect_publish(a: SessionAction) -> Vec<u8> {
    match a {
        SessionAction::Publish(p) => p,
        _ => panic!("expected a publish action"),
    }
}

#[test]
fn scenario_two_clients_register_and_chat() {
    let mut repo = UserRepository::new();
    let p1 = expect_publish(session_step(
        &mut repo,
        1,
        SessionEvent::Frame(b("{\"messageType\":\"register\",\"data\":\"alice\"}")),
    ));
    assert_eq!(p1, b("{\"messageType\":\"users\",\"dataArray\":[\"alice\"]}"));
    let p2 = expect_publish(session_step(
        &mut repo,
        2,
        SessionEvent::Frame(b("{\"messageType\":\"register\",\"data\":\"bob\"}")),
    ));
    assert_eq!(p2, b("{\"messageType\":\"users\",\"dataArray\":[\"alice\",\"bob\"]}"));
    let p3 = expect_publish(session_step(
        &mut repo,
        1,
        SessionEvent::Frame(b("{\"messageType\":\"message\",\"data\":\"hi\"}")),
    ));
    assert_eq!(
        p3,
        b("{\"messageType\":\"message\",\"data\":\"{\\\"from\\\":\\\"alice\\\",\\\"message\\\":\\\"hi\\\"}\"}")
    );
}

#[test]
fn message_before_register_is_dropped() {
    let mut repo = UserRepository::new();
    let a = session_step(
        &mut repo,
        7,
        SessionEvent::Frame(b("{\"messageType\":\"message\",\"data\":\"hello\"}")),
    );
    assert!(matches!(a, SessionAction::Continue));
    assert_eq!(repo.users.len(), 0);
}

#[test]
fn unknown_message_type_is_ignored_and_session_lives() {
    let mut repo = UserRepository::new();
    let a = session_step(
        &mut repo,
        1,
        SessionEvent::Frame(b("{\"messageType\":\"whisper\",\"data\":\"psst\"}")),
    );
    assert!(matches!(a, SessionAction::Continue));
    assert_eq!(repo.users.len(), 0);
}

#[test]
fn malformed_frame_stops_only_the_sender() {
    let mut repo = UserRepository::new();
    expect_publish(session_step(
        &mut repo,
        1,
        SessionEvent::Frame(b("{\"messageType\":\"register\",\"data\":\"alice\"}")),
    ));
    let a = session_step(&mut repo, 2, SessionEvent::Frame(b("this is not a frame")));
    assert!(matches!(a, SessionAction::Stop(TerminationCause::Protocol)));
    assert_eq!(repo.users.len(), 1);
    let forwarded = session_step(&mut repo, 1, SessionEvent::HubPayload(b("later payload")));
    match forwarded {
        SessionAction::Forward(p) => assert_eq!(p, b("later payload")),
        _ => panic!("the surviving session must keep forwarding"),
    }
}

#[test]
fn non_frame_events_map_to_their_causes() {
    let mut repo = UserRepository::new();
    assert!(matches!(
        session_step(&mut repo, 1, SessionEvent::StreamEnd),
        SessionAction::Stop(TerminationCause::CleanClose)
    ));
    assert!(matches!(
        session_step(&mut repo, 1, SessionEvent::TransportError),
        SessionAction::Stop(TerminationCause::Transport)
    ));
    assert!(matches!(
        session_step(&mut repo, 1, SessionEvent::HubLagged),
        SessionAction::Stop(TerminationCause::Lagged)
    ));
    assert_eq!(repo.users.len(), 0);
}

#[test]
fn identical_messages_broadcast_twice() {
    let mut repo = UserRepository::new();
    expect_publish(session_step(
        &mut repo,
        1,
        SessionEvent::Frame(b("{\"messageType\":\"register\",\"data\":\"alice\"}")),
    ));
    let f = b("{\"messageType\":\"message\",\"data\":\"again\"}");
    let p1 = expect_publish(session_step(&mut repo, 1, SessionEvent::Frame(f.clone())));
    let p2 = expect_publish(session_step(&mut repo, 1, SessionEvent::Frame(f)));
    assert_eq!(p1, p2);
    assert_eq!(repo.users.len(), 1);
}

#[test]
fn re_register_appends_and_first_nickname_wins() {
    let mut repo = UserRepository::new();
    expect_publish(session_step(
        &mut repo,
        1,
        SessionEvent::Frame(b("{\"messageType\":\"register\",\"data\":\"alice\"}")),
    ));
    let p = expect_publish(session_step(
        &mut repo,
        1,
        SessionEvent::Frame(b("{\"messageType\":\"register\",\"data\":\"alicia\"}")),
    ));
    assert_eq!(p, b("{\"messageType\":\"users\",\"dataArray\":[\"alice\",\"alicia\"]}"));
    assert_eq!(repo.users.len(), 2);
    let chat = expect_publish(session_step(
        &mut repo,
        1,
        SessionEvent::Frame(b("{\"messageType\":\"message\",\"data\":\"hi\"}")),
    ));
    assert_eq!(
        chat,
        b("{\"messageType\":\"message\",\"data\":\"{\\\"from\\\":\\\"alice\\\",\\\"message\\\":\\\"hi\\\"}\"}")
    );
}

#[test]
fn scenario_with_ordinary_json_frames() {
    let mut repo = UserRepository::new();
    let p1 = expect_publish(session_step(
        &mut repo,
        1,
        SessionEvent::Frame(b("{\"messageType\": \"register\", \"data\": \"alice\"}")),
    ));
    assert_eq!(p1, b("{\"messageType\":\"users\",\"dataArray\":[\"alice\"]}"));
    let a = session_step(
        &mut repo,
        2,
        SessionEvent::Frame(b("{\"data\": null, \"messageType\": \"whisper\"}")),
    );
    assert!(matches!(a, SessionAction::Continue));
    let p2 = expect_publish(session_step(
        &mut repo,
        1,
        SessionEvent::Frame(b("{ \"messageType\" : \"message\" , \"data\" : \"line1\\nline2\" }")),
    ));
    assert_eq!(
        p2,
        b("{\"messageType\":\"message\",\"data\":\"{\\\"from\\\":\\\"alice\\\",\\\"message\\\":\\\"line1\\\\u000aline2\\\"}\"}")
    );
}

#[test]
fn register_without_data_uses_empty_nickname() {
    let mut repo = UserRepository::new();
    let p = expect_publish(session_step(
        &mut repo,
        1,
        SessionEvent::Frame(b("{\"messageType\":\"register\"}")),
    ));
    assert_eq!(p, b("{\"messageType\":\"users\",\"dataArray\":[\"\"]}"));
}

#[test]
fn directory_lookup_and_snapshot() {
    let mut repo = UserRepository::new();
    repo.register(10, b("ada"));
    repo.register(11, b("grace"));
    repo.register(10, b("ada2"));
    let u = repo.find_by_identity(10).expect("identity 10 registered");
    assert_eq!(u.nickname, b("ada"));
    assert!(u.is_online);
    assert!(repo.find_by_identity(99).is_none());
    assert_eq!(repo.snapshot_nicknames(), vec![b("ada"), b("grace"), b("ada2")]);
}
