use websocket_engine::client::{ClientState, EventSet, HandshakeRead, ReadStep};
use websocket_engine::frame::DecodeError;
use websocket_engine::handshake::Headers;
use websocket_engine::server::{FrameStep, ReadySteps, WebSocketServer, WriteStep, SERVER_TOKEN};

fn key_headers() -> Headers {
    let mut headers = Headers::new();
    headers.insert(
        b"Sec-WebSocket-Key".to_vec(),
        b"dGhlIHNhbXBsZSBub25jZQ==".to_vec(),
    );
    headers
}

#[test]
fn ready_steps() {
    let all = EventSet { readable: true, writable: true, hup: true };
    assert_eq!(SERVER_TOKEN, 0);
    assert_eq!(
        WebSocketServer::<()>::ready(SERVER_TOKEN, EventSet::readable()),
        ReadySteps { accept: true, read: false, write: false, hangup: false }
    );
    assert_eq!(
        WebSocketServer::<()>::ready(5, EventSet::readable()),
        ReadySteps { accept: false, read: true, write: false, hangup: false }
    );
    assert_eq!(
        WebSocketServer::<()>::ready(5, EventSet::writable()),
        ReadySteps { accept: false, read: false, write: true, hangup: false }
    );
    assert_eq!(
        WebSocketServer::<()>::ready(5, EventSet::hup()),
        ReadySteps { accept: false, read: false, write: false, hangup: true }
    );
    assert_eq!(
        WebSocketServer::<()>::ready(5, all),
        ReadySteps { accept: false, read: true, write: true, hangup: true }
    );
    assert_eq!(
        WebSocketServer::<()>::ready(SERVER_TOKEN, all),
        ReadySteps { accept: true, read: false, write: true, hangup: true }
    );
    assert_eq!(
        WebSocketServer::<()>::ready(5, EventSet::none()),
        ReadySteps { accept: false, read: false, write: false, hangup: false }
    );
}

#[test]
fn handles_rise_and_are_not_given_out_again() {
    let mut server: WebSocketServer<&str> = WebSocketServer::new();
    assert_eq!(server.token_counter, 1);
    assert!(server.clients.is_empty());
    assert_eq!(server.accept("a"), Some(1));
    assert_eq!(server.accept("b"), Some(2));
    assert!(server.hangup(1).is_some());
    assert!(server.hangup(2).is_some());
    assert_eq!(server.accept("c"), Some(3));
    assert_eq!(server.token_counter, 4);
    assert_eq!(server.clients.len(), 1);
    assert!(matches!(
        server.clients[&3].state,
        ClientState::AwaitingHandshake("c")
    ));
    assert_eq!(server.interest(3), Some(EventSet::readable()));
    assert_eq!(server.read(3), Some(ReadStep::Handshake));
}

#[test]
fn no_handle_is_left_at_the_end() {
    let mut server: WebSocketServer<()> = WebSocketServer::new();
    server.token_counter = usize::MAX;
    assert_eq!(server.accept(()), None);
    assert_eq!(server.token_counter, usize::MAX);
    assert!(server.clients.is_empty());
    server.token_counter = usize::MAX - 1;
    assert_eq!(server.accept(()), Some(usize::MAX - 1));
    assert_eq!(server.accept(()), None);
}

#[test]
fn unknown_handles() {
    let mut server: WebSocketServer<()> = WebSocketServer::new();
    assert_eq!(server.accept(()), Some(1));
    assert_eq!(server.read(2), None);
    assert_eq!(server.interest(0), None);
    assert_eq!(server.read_handshake(2, HandshakeRead::Incomplete), None);
    assert_eq!(server.read_frame(2, &[0x81, 0x00]), FrameStep::Unknown);
    assert!(matches!(server.write(2), WriteStep::Unknown));
    assert!(server.hangup(2).is_none());
    assert_eq!(server.clients.len(), 1);
    assert_eq!(server.token_counter, 2);
}

#[test]
fn a_connection_through_the_registry() {
    let mut server: WebSocketServer<()> = WebSocketServer::new();
    let other = server.accept(()).unwrap();
    let token = server.accept(()).unwrap();

    assert_eq!(
        server.read_handshake(token, HandshakeRead::Incomplete),
        Some((true, EventSet::readable()))
    );
    assert_eq!(
        server.read_handshake(token, HandshakeRead::NoData),
        Some((false, EventSet::readable()))
    );
    assert_eq!(
        server.read_handshake(token, HandshakeRead::Upgrade(key_headers())),
        Some((false, EventSet::writable()))
    );
    assert_eq!(server.read(token), Some(ReadStep::Nothing));
    match server.write(token) {
        WriteStep::Send(bytes, interest) => {
            let text = String::from_utf8(bytes).unwrap();
            assert!(text.contains("Sec-WebSocket-Accept: s3pPLMBiTxaQ9kYGzzhZRbK+xOo="));
            assert_eq!(interest, EventSet::readable());
        }
        other => panic!("unexpected step: {:?}", other),
    }
    assert_eq!(server.read(token), Some(ReadStep::Frame));

    assert_eq!(
        server.read_frame(token, &[0x89, 0x83, 0, 0, 0, 0, b'a', b'b', b'c']),
        FrameStep::Received(EventSet::writable())
    );
    match server.write(token) {
        WriteStep::Send(bytes, interest) => {
            assert_eq!(bytes, vec![0x8A, 3, b'a', b'b', b'c']);
            assert_eq!(interest, EventSet::readable());
        }
        other => panic!("unexpected step: {:?}", other),
    }
    assert_eq!(
        server.read_frame(token, &[0x88, 0x82, 0, 0, 0, 0, 0x03, 0xE8]),
        FrameStep::Received(EventSet::writable())
    );
    match server.write(token) {
        WriteStep::Send(bytes, interest) => {
            assert_eq!(bytes, vec![0x88, 2, 0x03, 0xE8]);
            assert_eq!(interest, EventSet::hup());
        }
        other => panic!("unexpected step: {:?}", other),
    }
    assert_eq!(server.interest(token), Some(EventSet::hup()));
    let gone = server.hangup(token).unwrap();
    assert!(matches!(gone.state, ClientState::Connected));
    assert_eq!(server.interest(token), None);

    assert_eq!(server.read(other), Some(ReadStep::Handshake));
    assert_eq!(server.interest(other), Some(EventSet::readable()));
    assert_eq!(server.clients.len(), 1);
}

#[test]
fn a_handshake_without_key_closes_that_connection_only() {
    let mut server: WebSocketServer<()> = WebSocketServer::new();
    let good = server.accept(()).unwrap();
    let bad = server.accept(()).unwrap();
    server.read_handshake(good, HandshakeRead::Upgrade(key_headers()));
    server.read_handshake(bad, HandshakeRead::Upgrade(Headers::new()));
    assert!(matches!(server.write(bad), WriteStep::Close));
    assert_eq!(server.interest(bad), None);
    assert!(matches!(server.write(bad), WriteStep::Unknown));
    assert!(matches!(server.write(good), WriteStep::Send(_, _)));
    assert_eq!(server.read(good), Some(ReadStep::Frame));
    assert_eq!(server.accept(()), Some(3));
}

#[test]
fn writing_before_the_handshake_sends_nothing() {
    let mut server: WebSocketServer<()> = WebSocketServer::new();
    let token = server.accept(()).unwrap();
    match server.write(token) {
        WriteStep::Send(bytes, interest) => {
            assert!(bytes.is_empty());
            assert_eq!(interest, EventSet::readable());
        }
        other => panic!("unexpected step: {:?}", other),
    }
    assert_eq!(server.read(token), Some(ReadStep::Handshake));
}

fn connected_pair() -> (WebSocketServer<()>, usize, usize) {
    let mut server: WebSocketServer<()> = WebSocketServer::new();
    let first = server.accept(()).unwrap();
    let second = server.accept(()).unwrap();
    for token in [first, second] {
        server.read_handshake(token, HandshakeRead::Upgrade(key_headers()));
        assert!(matches!(server.write(token), WriteStep::Send(_, _)));
        assert_eq!(server.read(token), Some(ReadStep::Frame));
    }
    (server, first, second)
}

#[test]
fn an_invalid_opcode_closes_that_connection_only() {
    let (mut server, bad, good) = connected_pair();
    assert_eq!(
        server.read_frame(bad, &[0x83, 0x00]),
        FrameStep::Close(DecodeError::InvalidOpcode(3))
    );
    assert_eq!(server.interest(bad), None);
    assert_eq!(server.read(bad), None);
    assert_eq!(server.read_frame(bad, &[0x81, 0x00]), FrameStep::Unknown);
    assert!(matches!(server.write(bad), WriteStep::Unknown));
    assert_eq!(server.clients.len(), 1);
    assert_eq!(server.interest(good), Some(EventSet::readable()));
    assert_eq!(
        server.read_frame(good, &[0x81, 0x80, 1, 2, 3, 4]),
        FrameStep::Received(EventSet::writable())
    );
    assert_eq!(server.token_counter, 3);
    assert_eq!(server.accept(()), Some(3));
}

#[test]
fn truncated_bytes_close_that_connection_only() {
    let (mut server, good, bad) = connected_pair();
    assert_eq!(
        server.read_frame(bad, &[0x89, 0x83, 1, 2, 3, 4, 5]),
        FrameStep::Close(DecodeError::Truncated)
    );
    assert_eq!(server.interest(bad), None);
    assert_eq!(server.interest(good), Some(EventSet::readable()));
    let (mut server, good, bad) = connected_pair();
    assert_eq!(server.read_frame(bad, &[]), FrameStep::Close(DecodeError::Truncated));
    assert!(server.hangup(bad).is_none());
    assert!(server.hangup(good).is_some());
}
