use desktop_native::ipc::client::on_event;
use desktop_native::ipc::client::start;
use desktop_native::ipc::client::ClientAction;
use desktop_native::ipc::client::ClientEvent;
use desktop_native::ipc::client::ClientState;
use desktop_native::ipc::client::RECONNECT_DELAY_SECS;
use desktop_native::ipc::server;
use desktop_native::ipc::CloseReason;

fn lost(reason: CloseReason) -> ClientAction {
    ClientAction::Reconnect {
        notice: "{\"command\":\"disconnected\"}".to_owned(),
        reason,
        delay_secs: 5,
    }
}

fn connected() -> ClientAction {
    ClientAction::Emit("{\"command\":\"connected\"}".to_owned())
}

#[test]
fn client_begins_by_connecting() {
    assert_eq!(start(&Vec::new()), vec![ClientAction::Connect]);
}

#[test]
fn connect_before_server_exists_retries_at_once() {
    let events = vec![ClientEvent::ConnectFailed, ClientEvent::ConnectFailed, ClientEvent::ConnectFailed];
    assert_eq!(
        start(&events),
        vec![ClientAction::Connect, ClientAction::Connect, ClientAction::Connect, ClientAction::Connect]
    );
    let mut state = ClientState::Connecting;
    assert_eq!(on_event(&mut state, &ClientEvent::ConnectFailed), ClientAction::Connect);
    assert_eq!(state, ClientState::Connecting);
}

#[test]
fn ping_from_server_reaches_the_caller() {
    let written = match server::on_event(1, &server::PumpEvent::Broadcast("ping".to_owned())) {
        server::PumpAction::Write(bytes) => bytes,
        other => panic!("unexpected action {:?}", other),
    };
    let events = vec![ClientEvent::ConnectSucceeded, ClientEvent::Read(written)];
    assert_eq!(
        start(&events),
        vec![ClientAction::Connect, connected(), ClientAction::Emit("ping".to_owned())]
    );
}

#[test]
fn server_stops_and_client_reconnects_after_five_seconds() {
    assert_eq!(RECONNECT_DELAY_SECS, 5);
    let events = vec![
        ClientEvent::ConnectSucceeded,
        ClientEvent::Read(Vec::new()),
        ClientEvent::ConnectFailed,
        ClientEvent::ConnectSucceeded,
    ];
    assert_eq!(
        start(&events),
        vec![
            ClientAction::Connect,
            connected(),
            lost(CloseReason::PeerClosed),
            ClientAction::Connect,
            connected(),
        ]
    );
}

#[test]
fn outbound_message_reaches_the_sink_unchanged() {
    let mut state = ClientState::Connected;
    let payload = "{\"command\":\"unlock\",\"näme\":\"值\"}";
    let written = match on_event(&mut state, &ClientEvent::Outbound(payload.to_owned())) {
        ClientAction::Write(bytes) => bytes,
        other => panic!("unexpected action {:?}", other),
    };
    assert_eq!(written, payload.as_bytes());
    assert_eq!(state, ClientState::Connected);
    assert_eq!(
        server::on_event(8, &server::PumpEvent::Read(written)),
        server::PumpAction::Publish(server::Message {
            client_id: 8,
            kind: server::MessageType::Message,
            message: payload.to_owned(),
        })
    );
}

#[test]
fn closed_queue_finishes_the_client() {
    let events = vec![
        ClientEvent::ConnectSucceeded,
        ClientEvent::Outbound("a".to_owned()),
        ClientEvent::OutboundClosed,
        ClientEvent::Read(b"late".to_vec()),
    ];
    assert_eq!(
        start(&events),
        vec![ClientAction::Connect, connected(), ClientAction::Write(vec![b'a']), ClientAction::Finish]
    );
    let mut state = ClientState::Finished;
    assert_eq!(on_event(&mut state, &ClientEvent::ConnectSucceeded), ClientAction::Ignore);
    assert_eq!(state, ClientState::Finished);
}

#[test]
fn read_error_is_told_from_close() {
    let mut state = ClientState::Connected;
    assert_eq!(on_event(&mut state, &ClientEvent::ReadFailed), lost(CloseReason::ReadError));
    assert_eq!(state, ClientState::Connecting);
    let mut state = ClientState::Connected;
    assert_eq!(on_event(&mut state, &ClientEvent::Read(Vec::new())), lost(CloseReason::PeerClosed));
    assert_eq!(state, ClientState::Connecting);
}

#[test]
fn invalid_bytes_from_server_are_replaced() {
    let mut state = ClientState::Connected;
    assert_eq!(
        on_event(&mut state, &ClientEvent::Read(vec![b'a', 0xff, b'b'])),
        ClientAction::Emit("a\u{fffd}b".to_owned())
    );
    assert_eq!(state, ClientState::Connected);
    assert_eq!(
        on_event(&mut state, &ClientEvent::Read(vec![0xe2, 0x82])),
        ClientAction::Emit("\u{fffd}".to_owned())
    );
}

#[test]
fn read_of_one_byte_is_a_message_for_the_caller() {
    let mut state = ClientState::Connected;
    assert_eq!(on_event(&mut state, &ClientEvent::Read(vec![b'x'])), ClientAction::Emit("x".to_owned()));
}

#[test]
fn events_out_of_place_are_ignored() {
    let mut state = ClientState::Connecting;
    assert_eq!(on_event(&mut state, &ClientEvent::Read(b"x".to_vec())), ClientAction::Ignore);
    assert_eq!(on_event(&mut state, &ClientEvent::Outbound("x".to_owned())), ClientAction::Ignore);
    assert_eq!(on_event(&mut state, &ClientEvent::OutboundClosed), ClientAction::Ignore);
    assert_eq!(state, ClientState::Connecting);
    let mut state = ClientState::Connected;
    assert_eq!(on_event(&mut state, &ClientEvent::ConnectFailed), ClientAction::Ignore);
    assert_eq!(on_event(&mut state, &ClientEvent::ConnectSucceeded), ClientAction::Ignore);
    assert_eq!(state, ClientState::Connected);
}
