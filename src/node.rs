//! The decisions of a synthetic peer: the per-connection handshake state
//! machine and the auto-reply policy. The caller performs the I/O, feeds
//! each outcome back as an event, and carries out the returned action.

use vstd::prelude::*;
use std::collections::VecDeque;
use crate::message::{Message, MessageView};
use crate::netaddr::SocketAddress;

verus! {

/// How much of the handshake a connection performs before it is usable.
#[derive(Debug, Clone, Copy, PartialEq, Eq, Structural)]
pub enum HandshakeMode {
    /// The connection is ready once the TCP connect succeeds.
    NoHandshake,
    /// Send our Version, await the peer's Version, send Verack, await the
    /// peer's Verack.
    Full,
}

/// Which inbound messages the engine answers by itself.
#[derive(Debug, Clone, Copy, PartialEq, Eq, Structural)]
pub enum AutoReply {
    Off,
    /// Every message with a canonical response is answered.
    All,
}

/// A synthetic node's configuration, fixed before any connection is made.
/// Timeouts are in milliseconds.
#[derive(Debug, Clone, Copy, PartialEq, Eq, Structural)]
pub struct NodeConfig {
    pub handshake: HandshakeMode,
    pub auto_reply: AutoReply,
    pub max_peers: usize,
    pub connect_timeout_ms: u64,
    pub io_timeout_ms: u64,
}

/// Where one connection stands.
#[derive(Debug, Clone, Copy, PartialEq, Eq, Structural)]
pub enum ConnState {
    Disconnected,
    Connecting,
    AwaitingPeerVersion,
    AwaitingPeerVerack,
    Ready,
}

/// What happened on a connection while its handshake is driven.
#[derive(Debug, Clone, Copy, PartialEq, Eq, Structural)]
pub enum HandshakeEvent {
    /// The TCP connection was established.
    TcpConnected,
    VersionReceived,
    VerackReceived,
    /// A message that the handshake does not wait for.
    OtherReceived,
    /// The pending step exceeded its timeout.
    TimedOut,
    /// The socket failed or was closed by the peer.
    TransportFailed,
}

/// What the caller must do after a step.
#[derive(Debug, Clone, Copy, PartialEq, Eq, Structural)]
pub enum HandshakeAction {
    Nothing,
    SendVersion,
    SendVerack,
    /// Close the socket and release it.
    Close,
}

/// How the handshake stands after a step.
#[derive(Debug, Clone, Copy, PartialEq, Eq, Structural)]
pub enum HandshakeOutcome {
    InProgress,
    Completed,
    /// A step did not complete in time.
    Timeout,
    /// The transport failed.
    Transport,
}

/// The result of one handshake step.
#[derive(Debug, Clone, Copy, PartialEq, Eq, Structural)]
pub struct HandshakeStep {
    pub state: ConnState,
    pub action: HandshakeAction,
    pub outcome: HandshakeOutcome,
}

/// Whether a connection in `s` is in the middle of being established.
pub open spec fn establishing(s: ConnState) -> bool {
    s == ConnState::Connecting || s == ConnState::AwaitingPeerVersion || s
        == ConnState::AwaitingPeerVerack
}

/// The handshake transition table.
pub open spec fn spec_step(mode: HandshakeMode, s: ConnState, e: HandshakeEvent) -> HandshakeStep {
    if !establishing(s) {
        HandshakeStep { state: s, action: HandshakeAction::Nothing, outcome: HandshakeOutcome::InProgress }
    } else if e == HandshakeEvent::TimedOut {
        HandshakeStep {
            state: ConnState::Disconnected,
            action: HandshakeAction::Close,
            outcome: HandshakeOutcome::Timeout,
        }
    } else if e == HandshakeEvent::TransportFailed {
        HandshakeStep {
            state: ConnState::Disconnected,
            action: HandshakeAction::Close,
            outcome: HandshakeOutcome::Transport,
        }
    } else if s == ConnState::Connecting && e == HandshakeEvent::TcpConnected {
        if mode == HandshakeMode::Full {
            HandshakeStep {
                state: ConnState::AwaitingPeerVersion,
                action: HandshakeAction::SendVersion,
                outcome: HandshakeOutcome::InProgress,
            }
        } else {
            HandshakeStep {
                state: ConnState::Ready,
                action: HandshakeAction::Nothing,
                outcome: HandshakeOutcome::Completed,
            }
        }
    } else if s == ConnState::AwaitingPeerVersion && e == HandshakeEvent::VersionReceived {
        HandshakeStep {
            state: ConnState::AwaitingPeerVerack,
            action: HandshakeAction::SendVerack,
            outcome: HandshakeOutcome::InProgress,
        }
    } else if s == ConnState::AwaitingPeerVerack && e == HandshakeEvent::VerackReceived {
        HandshakeStep {
            state: ConnState::Ready,
            action: HandshakeAction::Nothing,
            outcome: HandshakeOutcome::Completed,
        }
    } else {
        HandshakeStep { state: s, action: HandshakeAction::Nothing, outcome: HandshakeOutcome::InProgress }
    }
}

/// Advances one connection's handshake by one event.
pub fn handshake_step(mode: HandshakeMode, s: ConnState, e: HandshakeEvent) -> (r: HandshakeStep)
    ensures
        r == spec_step(mode, s, e),
        establishing(s) && e == HandshakeEvent::TimedOut ==> r.state == ConnState::Disconnected
            && r.action == HandshakeAction::Close && r.outcome == HandshakeOutcome::Timeout,
{
    let unchanged = HandshakeStep {
        state: s,
        action: HandshakeAction::Nothing,
        outcome: HandshakeOutcome::InProgress,
    };
    let establishing = match s {
        ConnState::Connecting | ConnState::AwaitingPeerVersion | ConnState::AwaitingPeerVerack => true,
        _ => false,
    };
    if !establishing {
        return unchanged;
    }
    match e {
        HandshakeEvent::TimedOut => HandshakeStep {
            state: ConnState::Disconnected,
            action: HandshakeAction::Close,
            outcome: HandshakeOutcome::Timeout,
        },
        HandshakeEvent::TransportFailed => HandshakeStep {
            state: ConnState::Disconnected,
            action: HandshakeAction::Close,
            outcome: HandshakeOutcome::Transport,
        },
        HandshakeEvent::TcpConnected => match (s, mode) {
            (ConnState::Connecting, HandshakeMode::Full) => HandshakeStep {
                state: ConnState::AwaitingPeerVersion,
                action: HandshakeAction::SendVersion,
                outcome: HandshakeOutcome::InProgress,
            },
            (ConnState::Connecting, HandshakeMode::NoHandshake) => HandshakeStep {
                state: ConnState::Ready,
                action: HandshakeAction::Nothing,
                outcome: HandshakeOutcome::Completed,
            },
            _ => unchanged,
        },
        HandshakeEvent::VersionReceived => match s {
            ConnState::AwaitingPeerVersion => HandshakeStep {
                state: ConnState::AwaitingPeerVerack,
                action: HandshakeAction::SendVerack,
                outcome: HandshakeOutcome::InProgress,
            },
            _ => unchanged,
        },
        HandshakeEvent::VerackReceived => match s {
            ConnState::AwaitingPeerVerack => HandshakeStep {
                state: ConnState::Ready,
                action: HandshakeAction::Nothing,
                outcome: HandshakeOutcome::Completed,
            },
            _ => unchanged,
        },
        HandshakeEvent::OtherReceived => unchanged,
    }
}

/// The state a connection reaches from `s` through `events`, in order.
pub open spec fn run(mode: HandshakeMode, s: ConnState, events: Seq<HandshakeEvent>) -> ConnState
    decreases events.len(),
{
    if events.len() == 0 {
        s
    } else {
        run(mode, spec_step(mode, s, events[0]).state, events.drop_first())
    }
}

/// Under a full handshake, a connection that is not yet ready does not
/// become ready unless the peer's Verack arrives; if it is still being
/// established after such events, a timeout then fails it with a handshake
/// timeout and closes its socket.
pub proof fn lemma_no_verack_never_ready(s: ConnState, events: Seq<HandshakeEvent>)
    requires
        s != ConnState::Ready,
        forall|i: int| 0 <= i < events.len() ==> events[i] != HandshakeEvent::VerackReceived,
    ensures
        run(HandshakeMode::Full, s, events) != ConnState::Ready,
        establishing(run(HandshakeMode::Full, s, events)) ==> spec_step(
            HandshakeMode::Full,
            run(HandshakeMode::Full, s, events),
            HandshakeEvent::TimedOut,
        ) == (HandshakeStep {
            state: ConnState::Disconnected,
            action: HandshakeAction::Close,
            outcome: HandshakeOutcome::Timeout,
        }),
    decreases events.len(),
{
    if events.len() > 0 {
        let next = spec_step(HandshakeMode::Full, s, events[0]).state;
        assert forall|i: int| 0 <= i < events.drop_first().len() implies events.drop_first()[i]
            != HandshakeEvent::VerackReceived by {
            assert(events.drop_first()[i] == events[i + 1]);
        }
        lemma_no_verack_never_ready(next, events.drop_first());
    }
}

/// The handshake event that an inbound message stands for.
pub fn handshake_event(m: &Message) -> (r: HandshakeEvent)
    ensures
        r == match m@ {
            MessageView::Version(_) => HandshakeEvent::VersionReceived,
            MessageView::Verack => HandshakeEvent::VerackReceived,
            _ => HandshakeEvent::OtherReceived,
        },
{
    match m {
        Message::Version(_) => HandshakeEvent::VersionReceived,
        Message::Verack => HandshakeEvent::VerackReceived,
        _ => HandshakeEvent::OtherReceived,
    }
}

/// The canonical response to `m` that the engine sends by itself under
/// `policy`: Pong with the same nonce for a Ping, Verack for a Version.
pub fn auto_reply(policy: AutoReply, m: &Message) -> (r: Option<Message>)
    ensures
        policy == AutoReply::Off ==> r is None,
        policy == AutoReply::All ==> match m@ {
            MessageView::Ping(n) => r == Some(Message::Pong(n)),
            MessageView::Version(_) => r == Some(Message::Verack),
            _ => r is None,
        },
{
    match policy {
        AutoReply::Off => None,
        AutoReply::All => match m {
            Message::Ping(n) => Some(Message::Pong(*n)),
            Message::Version(_) => Some(Message::Verack),
            _ => None,
        },
    }
}

/// Whether a node under `config` that holds `peers` connections may open
/// or accept one more.
pub fn may_add_peer(config: &NodeConfig, peers: usize) -> (r: bool)
    ensures
        r == (peers < config.max_peers),
{
    peers < config.max_peers
}

/// The inbound messages of a node, in arrival order, each with the peer it
/// came from. Within one connection the order is the order on the wire.
pub struct Inbox {
    queue: VecDeque<(SocketAddress, Message)>,
}

impl View for Inbox {
    type V = Seq<(SocketAddress, Message)>;

    closed spec fn view(&self) -> Seq<(SocketAddress, Message)> {
        self.queue@
    }
}

impl Inbox {
    pub fn new() -> (r: Self)
        ensures
            r@ == Seq::<(SocketAddress, Message)>::empty(),
    {
        Inbox { queue: VecDeque::new() }
    }

    pub fn len(&self) -> (r: usize)
        ensures
            r == self@.len(),
    {
        self.queue.len()
    }

    /// Queues a decoded message behind every message queued before it.
    pub fn deliver(&mut self, from: SocketAddress, m: Message)
        ensures
            final(self)@ == old(self)@.push((from, m)),
    {
        self.queue.push_back((from, m));
    }

    /// Takes the oldest queued message, if any; the others stay queued.
    pub fn next(&mut self) -> (r: Option<(SocketAddress, Message)>)
        ensures
            old(self)@.len() == 0 ==> r is None && final(self)@ == old(self)@,
            old(self)@.len() > 0 ==> r == Some(old(self)@[0]) && final(self)@ == old(
                self,
            )@.subrange(1, old(self)@.len() as int),
    {
        self.queue.pop_front()
    }
}

} // verus!
