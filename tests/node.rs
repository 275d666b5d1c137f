use zcash_wire::message::Message;
use zcash_wire::netaddr::{IpAddress, SocketAddress};
use zcash_wire::node::{
    auto_reply, handshake_event, handshake_step, may_add_peer, AutoReply, ConnState,
    HandshakeAction, HandshakeEvent, HandshakeMode, HandshakeOutcome, Inbox, NodeConfig,
};

fn peer(last: u8) -> SocketAddress {
    SocketAddress { ip: IpAddress::V4([127, 0, 0, last]), port: 8233 }
}

#[test]
fn full_handshake_in_order() {
    let m = HandshakeMode::Full;
    let s = handshake_step(m, ConnState::Connecting, HandshakeEvent::TcpConnected);
    assert_eq!(s.state, ConnState::AwaitingPeerVersion);
    assert_eq!(s.action, HandshakeAction::SendVersion);
    let s = handshake_step(m, s.state, HandshakeEvent::VersionReceived);
    assert_eq!(s.state, ConnState::AwaitingPeerVerack);
    assert_eq!(s.action, HandshakeAction::SendVerack);
    let s = handshake_step(m, s.state, HandshakeEvent::VerackReceived);
    assert_eq!(s.state, ConnState::Ready);
    assert_eq!(s.outcome, HandshakeOutcome::Completed);
}

#[test]
fn no_handshake_is_ready_on_connect() {
    let s = handshake_step(HandshakeMode::NoHandshake, ConnState::Connecting, HandshakeEvent::TcpConnected);
    assert_eq!(s.state, ConnState::Ready);
    assert_eq!(s.action, HandshakeAction::Nothing);
    assert_eq!(s.outcome, HandshakeOutcome::Completed);
}

#[test]
fn missing_verack_times_out_and_closes() {
    let m = HandshakeMode::Full;
    let mut st = ConnState::Connecting;
    for e in [HandshakeEvent::TcpConnected, HandshakeEvent::VersionReceived, HandshakeEvent::OtherReceived] {
        st = handshake_step(m, st, e).state;
    }
    assert_eq!(st, ConnState::AwaitingPeerVerack);
    let s = handshake_step(m, st, HandshakeEvent::TimedOut);
    assert_eq!(s.state, ConnState::Disconnected);
    assert_eq!(s.action, HandshakeAction::Close);
    assert_eq!(s.outcome, HandshakeOutcome::Timeout);
}

#[test]
fn transport_failure_is_distinct_from_timeout() {
    let s = handshake_step(HandshakeMode::Full, ConnState::AwaitingPeerVersion, HandshakeEvent::TransportFailed);
    assert_eq!(s.state, ConnState::Disconnected);
    assert_eq!(s.action, HandshakeAction::Close);
    assert_eq!(s.outcome, HandshakeOutcome::Transport);
}

#[test]
fn ready_connection_ignores_handshake_events() {
    let s = handshake_step(HandshakeMode::Full, ConnState::Ready, HandshakeEvent::TimedOut);
    assert_eq!(s.state, ConnState::Ready);
    assert_eq!(s.action, HandshakeAction::Nothing);
}

#[test]
fn auto_reply_echoes_ping_nonce() {
    assert_eq!(auto_reply(AutoReply::All, &Message::Ping(991)), Some(Message::Pong(991)));
    assert_eq!(auto_reply(AutoReply::All, &Message::Verack), None);
    assert_eq!(auto_reply(AutoReply::All, &Message::Pong(3)), None);
    assert_eq!(auto_reply(AutoReply::Off, &Message::Ping(991)), None);
}

#[test]
fn handshake_events_of_messages() {
    assert_eq!(handshake_event(&Message::Verack), HandshakeEvent::VerackReceived);
    assert_eq!(handshake_event(&Message::Ping(1)), HandshakeEvent::OtherReceived);
}

#[test]
fn peer_cap() {
    let c = NodeConfig {
        handshake: HandshakeMode::Full,
        auto_reply: AutoReply::All,
        max_peers: 2,
        connect_timeout_ms: 1000,
        io_timeout_ms: 5000,
    };
    assert!(may_add_peer(&c, 1));
    assert!(!may_add_peer(&c, 2));
}

#[test]
fn inbox_keeps_arrival_order() {
    let mut inbox = Inbox::new();
    assert_eq!(inbox.next(), None);
    inbox.deliver(peer(1), Message::Ping(1));
    inbox.deliver(peer(2), Message::Pong(2));
    inbox.deliver(peer(1), Message::Ping(3));
    assert_eq!(inbox.len(), 3);
    assert_eq!(inbox.next(), Some((peer(1), Message::Ping(1))));
    assert_eq!(inbox.next(), Some((peer(2), Message::Pong(2))));
    assert_eq!(inbox.len(), 1);
    assert_eq!(inbox.next(), Some((peer(1), Message::Ping(3))));
    assert_eq!(inbox.next(), None);
}
