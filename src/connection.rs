//! One client session as a state machine: the host hands it each decoded
//! transport frame and each heartbeat tick, and performs the action it
//! returns. All cross-connection effects go through the peer registry.

use vstd::prelude::*;
use vstd::utf8::*;

use crate::message::{parse, parse_spec, same_text};
use crate::registry::{ConnectionId, PeerRegistry};

verus! {

/// How often a liveness probe is sent, in milliseconds.
pub const HEARTBEAT_INTERVAL_MS: u64 = 5000;

/// How long a connection may stay silent before it is dropped, in
/// milliseconds; longer than the probe interval, so that a probe can be
/// answered in time.
pub const CLIENT_TIMEOUT_MS: u64 = 10000;

/// Where a connection stands in the handshake.
#[derive(Debug, Clone, Copy, PartialEq, Eq, Structural)]
pub enum Phase {
    /// Open, no identity yet.
    Connecting,
    /// The handshake bound an identity.
    Identified,
    /// Terminal.
    Closed,
}

/// Why a connection is closed by the protocol.
#[derive(Debug, Clone, Copy, PartialEq, Eq, Structural)]
pub enum CloseReason {
    /// A command came in the wrong state.
    InvalidProtocol,
    /// The handshake named an identity that is taken.
    InvalidPeer,
}

/// An application payload, relayed without inspection.
#[derive(Debug, PartialEq, Eq)]
pub enum Payload {
    Text(String),
    Binary(Vec<u8>),
}

/// A decoded transport frame.
#[derive(Debug, PartialEq, Eq)]
pub enum Frame {
    /// A liveness probe with its bytes.
    Ping(Vec<u8>),
    /// A liveness acknowledgement.
    Pong,
    Text(String),
    Binary(Vec<u8>),
    Close,
    /// Any frame kind this protocol does not handle.
    Other,
}

/// What the host is to do after a step.
#[derive(Debug, PartialEq, Eq)]
pub enum Action {
    Nothing,
    /// Acknowledge a probe, echoing its bytes.
    Pong(Vec<u8>),
    /// Send a liveness probe.
    Ping,
    /// Send a frame to this connection's own client.
    Send(Payload),
    /// Send a frame to another connection.
    Forward(ConnectionId, Payload),
    /// Send a close frame and end the session.
    Close(Option<CloseReason>),
    /// End the session without sending anything more.
    Drop,
}

/// The state of one client session.
#[derive(Debug)]
pub struct Connection {
    pub id: ConnectionId,
    pub phase: Phase,
    pub identity: Option<String>,
    /// When the last liveness signal came, in milliseconds.
    pub last_seen: u64,
}

/// The command and argument of a text line, as characters.
pub open spec fn command_of(text: Seq<char>) -> Option<(Seq<char>, Seq<char>)> {
    match parse_spec(encode_utf8(text)) {
        Some((c, a)) => Some((decode_utf8(c), decode_utf8(a))),
        None => None,
    }
}

pub open spec fn sends_text(a: Action, s: Seq<char>) -> bool {
    match a {
        Action::Send(Payload::Text(t)) => t@ == s,
        _ => false,
    }
}

/// The connection and the registry are left as they were.
pub open spec fn kept(c0: Connection, c1: Connection, r0: PeerRegistry, r1: PeerRegistry) -> bool {
    &&& c1 == c0
    &&& r1.connections() == r0.connections()
    &&& r1.partners() == r0.partners()
}

/// The connection is closed and its identity, if it had one, has left the
/// registry together with its pairing.
pub open spec fn ended(c0: Connection, c1: Connection, r0: PeerRegistry, r1: PeerRegistry) -> bool {
    &&& c1.phase == Phase::Closed
    &&& c1.id == c0.id
    &&& c1.last_seen == c0.last_seen
    &&& match c0.identity {
        Some(x) => {
            &&& r1.connections() == r0.connections().remove(x@)
            &&& r1.partners() == PeerRegistry::without_pair(r0.partners(), x@)
        },
        None => r1.connections() == r0.connections() && r1.partners() == r0.partners(),
    }
}

/// A protocol violation: the connection ends with a close frame.
pub open spec fn rejected(
    c0: Connection,
    c1: Connection,
    r0: PeerRegistry,
    r1: PeerRegistry,
    a: Action,
    reason: CloseReason,
) -> bool {
    ended(c0, c1, r0, r1) && a == Action::Close(Some(reason))
}

/// `HELLO uid`: binds the identity while connecting.
pub open spec fn hello_step(
    c0: Connection,
    c1: Connection,
    r0: PeerRegistry,
    r1: PeerRegistry,
    uid: Seq<char>,
    a: Action,
) -> bool {
    if c0.phase == Phase::Connecting {
        if r0.connections().contains_key(uid) && r0.connections()[uid] != c0.id {
            rejected(c0, c1, r0, r1, a, CloseReason::InvalidPeer)
        } else {
            &&& c1.phase == Phase::Identified
            &&& c1.identity is Some
            &&& c1.identity->0@ == uid
            &&& c1.id == c0.id
            &&& c1.last_seen == c0.last_seen
            &&& r1.connections() == r0.connections().insert(uid, c0.id)
            &&& r1.partners() == r0.partners()
            &&& sends_text(a, "HELLO"@)
        }
    } else {
        rejected(c0, c1, r0, r1, a, CloseReason::InvalidProtocol)
    }
}

/// `SESSION peer`: pairs the identified connection with `peer`; a refused
/// pairing is answered and is not fatal.
pub open spec fn session_step(
    c0: Connection,
    c1: Connection,
    r0: PeerRegistry,
    r1: PeerRegistry,
    peer: Seq<char>,
    a: Action,
) -> bool {
    if c0.phase == Phase::Identified {
        let x = c0.identity->0@;
        &&& c1 == c0
        &&& r1.connections() == r0.connections()
        &&& if r0.connections().contains_key(x) && r0.connections().contains_key(peer)
            && !r0.partners().contains_key(x) && !r0.partners().contains_key(peer) {
            &&& r1.partners() == r0.partners().insert(x, peer).insert(peer, x)
            &&& sends_text(a, "SESSION_OK"@)
        } else {
            &&& r1.partners() == r0.partners()
            &&& sends_text(a, "SESSION_REJECTED"@)
        }
    } else {
        rejected(c0, c1, r0, r1, a, CloseReason::InvalidProtocol)
    }
}

/// An opaque payload: relayed to the partner when paired, echoed back when
/// not, and a protocol violation before the handshake.
pub open spec fn payload_step(
    c0: Connection,
    c1: Connection,
    r0: PeerRegistry,
    r1: PeerRegistry,
    p: Payload,
    a: Action,
) -> bool {
    if c0.phase == Phase::Identified {
        let x = c0.identity->0@;
        &&& kept(c0, c1, r0, r1)
        &&& if r0.partners().contains_key(x) {
            a == Action::Forward(r0.connections()[r0.partners()[x]], p)
        } else {
            a == Action::Send(p)
        }
    } else {
        rejected(c0, c1, r0, r1, a, CloseReason::InvalidProtocol)
    }
}

/// A text line, dispatched on its command.
pub open spec fn text_step(
    c0: Connection,
    c1: Connection,
    r0: PeerRegistry,
    r1: PeerRegistry,
    text: String,
    a: Action,
) -> bool {
    match command_of(text@) {
        Some((cmd, arg)) => if cmd == "HELLO"@ {
            hello_step(c0, c1, r0, r1, arg, a)
        } else if cmd == "SESSION"@ {
            session_step(c0, c1, r0, r1, arg, a)
        } else {
            payload_step(c0, c1, r0, r1, Payload::Text(text), a)
        },
        None => payload_step(c0, c1, r0, r1, Payload::Text(text), a),
    }
}

/// Only the liveness timestamp moved.
pub open spec fn touched(c0: Connection, c1: Connection, now: u64) -> bool {
    &&& c1.id == c0.id
    &&& c1.phase == c0.phase
    &&& c1.identity == c0.identity
    &&& c1.last_seen == now
}

/// More than the timeout has passed since the last liveness signal.
pub open spec fn timed_out(last_seen: u64, now: u64) -> bool {
    now > last_seen && now - last_seen > CLIENT_TIMEOUT_MS
}

impl Connection {
    /// Only an identified connection holds an identity.
    pub open spec fn wf(&self) -> bool {
        &&& (self.phase == Phase::Identified ==> self.identity is Some)
        &&& (self.phase == Phase::Connecting ==> self.identity is None)
    }

    /// A session that was just accepted at time `now`.
    pub fn new(id: ConnectionId, now: u64) -> (r: Self)
        ensures
            r.wf(),
            r.id == id,
            r.phase == Phase::Connecting,
            r.identity is None,
            r.last_seen == now,
    {
        Connection { id, phase: Phase::Connecting, identity: None, last_seen: now }
    }

    /// Closes the connection and takes its identity out of the registry.
    pub fn terminate(&mut self, reg: &mut PeerRegistry)
        requires
            old(self).wf(),
            old(reg).wf(),
        ensures
            final(self).wf(),
            final(reg).wf(),
            ended(*old(self), *final(self), *old(reg), *final(reg)),
    {
        match &self.identity {
            Some(x) => reg.deregister(x.as_str()),
            None => {},
        }
        self.phase = Phase::Closed;
    }

    fn hello(&mut self, reg: &mut PeerRegistry, uid: String) -> (a: Action)
        requires
            old(self).wf(),
            old(reg).wf(),
            old(self).phase != Phase::Closed,
        ensures
            final(self).wf(),
            final(reg).wf(),
            hello_step(*old(self), *final(self), *old(reg), *final(reg), uid@, a),
    {
        if self.phase == Phase::Identified {
            self.terminate(reg);
            return Action::Close(Some(CloseReason::InvalidProtocol));
        }
        match reg.register(uid.as_str(), self.id) {
            Ok(()) => {
                self.phase = Phase::Identified;
                self.identity = Some(uid);
                Action::Send(Payload::Text("HELLO".to_owned()))
            },
            Err(_) => {
                self.terminate(reg);
                Action::Close(Some(CloseReason::InvalidPeer))
            },
        }
    }

    fn session(&mut self, reg: &mut PeerRegistry, peer: String) -> (a: Action)
        requires
            old(self).wf(),
            old(reg).wf(),
            old(self).phase != Phase::Closed,
        ensures
            final(self).wf(),
            final(reg).wf(),
            session_step(*old(self), *final(self), *old(reg), *final(reg), peer@, a),
    {
        if self.phase == Phase::Connecting {
            self.terminate(reg);
            return Action::Close(Some(CloseReason::InvalidProtocol));
        }
        match &self.identity {
            Some(x) => match reg.pair(x.as_str(), peer.as_str()) {
                Ok(()) => Action::Send(Payload::Text("SESSION_OK".to_owned())),
                Err(_) => Action::Send(Payload::Text("SESSION_REJECTED".to_owned())),
            },
            None => Action::Nothing,
        }
    }

    /// Relays or echoes an opaque payload; before the handshake it is a
    /// protocol violation.
    pub fn handle_payload(&mut self, reg: &mut PeerRegistry, p: Payload) -> (a: Action)
        requires
            old(self).wf(),
            old(reg).wf(),
            old(self).phase != Phase::Closed,
        ensures
            final(self).wf(),
            final(reg).wf(),
            payload_step(*old(self), *final(self), *old(reg), *final(reg), p, a),
    {
        if self.phase == Phase::Connecting {
            self.terminate(reg);
            return Action::Close(Some(CloseReason::InvalidProtocol));
        }
        match &self.identity {
            Some(x) => match reg.route(x.as_str()) {
                Ok(to) => Action::Forward(to, p),
                Err(_) => Action::Send(p),
            },
            None => Action::Nothing,
        }
    }

    /// Dispatches a text line on its command: `HELLO`, `SESSION`, or an
    /// opaque payload.
    pub fn handle_text(&mut self, reg: &mut PeerRegistry, text: String) -> (a: Action)
        requires
            old(self).wf(),
            old(reg).wf(),
            old(self).phase != Phase::Closed,
        ensures
            final(self).wf(),
            final(reg).wf(),
            text_step(*old(self), *final(self), *old(reg), *final(reg), text, a),
    {
        match parse(text.as_str()) {
            Some((cmd, arg)) => {
                proof {
                    encode_utf8_decode_utf8(cmd@);
                    encode_utf8_decode_utf8(arg@);
                }
                if same_text(cmd, "HELLO") {
                    let uid = arg.to_owned();
                    return self.hello(reg, uid);
                }
                if same_text(cmd, "SESSION") {
                    let peer = arg.to_owned();
                    return self.session(reg, peer);
                }
            },
            None => {},
        }
        self.handle_payload(reg, Payload::Text(text))
    }

    /// One decoded frame at time `now`.
    pub fn on_frame(&mut self, reg: &mut PeerRegistry, frame: Frame, now: u64) -> (a: Action)
        requires
            old(self).wf(),
            old(reg).wf(),
        ensures
            final(self).wf(),
            final(reg).wf(),
            old(self).phase == Phase::Closed ==> kept(*old(self), *final(self), *old(reg), *final(reg))
                && a == Action::Nothing,
            old(self).phase != Phase::Closed ==> match frame {
                Frame::Ping(b) => {
                    &&& touched(*old(self), *final(self), now)
                    &&& final(reg).connections() == old(reg).connections()
                    &&& final(reg).partners() == old(reg).partners()
                    &&& a == Action::Pong(b)
                },
                Frame::Pong => {
                    &&& touched(*old(self), *final(self), now)
                    &&& final(reg).connections() == old(reg).connections()
                    &&& final(reg).partners() == old(reg).partners()
                    &&& a == Action::Nothing
                },
                Frame::Text(t) => text_step(*old(self), *final(self), *old(reg), *final(reg), t, a),
                Frame::Binary(b) => payload_step(
                    *old(self),
                    *final(self),
                    *old(reg),
                    *final(reg),
                    Payload::Binary(b),
                    a,
                ),
                Frame::Close | Frame::Other => {
                    &&& ended(*old(self), *final(self), *old(reg), *final(reg))
                    &&& a == Action::Close(None)
                },
            },
    {
        if self.phase == Phase::Closed {
            return Action::Nothing;
        }
        match frame {
            Frame::Ping(b) => {
                self.last_seen = now;
                Action::Pong(b)
            },
            Frame::Pong => {
                self.last_seen = now;
                Action::Nothing
            },
            Frame::Text(t) => self.handle_text(reg, t),
            Frame::Binary(b) => self.handle_payload(reg, Payload::Binary(b)),
            Frame::Close | Frame::Other => {
                self.terminate(reg);
                Action::Close(None)
            },
        }
    }

    /// A heartbeat tick at time `now`: drops a connection that has been
    /// silent for longer than the timeout, and probes it otherwise.
    pub fn on_tick(&mut self, reg: &mut PeerRegistry, now: u64) -> (a: Action)
        requires
            old(self).wf(),
            old(reg).wf(),
        ensures
            final(self).wf(),
            final(reg).wf(),
            old(self).phase == Phase::Closed ==> kept(*old(self), *final(self), *old(reg), *final(reg))
                && a == Action::Nothing,
            old(self).phase != Phase::Closed ==> if timed_out(old(self).last_seen, now) {
                ended(*old(self), *final(self), *old(reg), *final(reg)) && a == Action::Drop
            } else {
                kept(*old(self), *final(self), *old(reg), *final(reg)) && a == Action::Ping
            },
    {
        if self.phase == Phase::Closed {
            return Action::Nothing;
        }
        if now > self.last_seen && now - self.last_seen > CLIENT_TIMEOUT_MS {
            self.terminate(reg);
            Action::Drop
        } else {
            Action::Ping
        }
    }
}

/// Once `SESSION peer` from the identified connection `c0` has been accepted,
/// a payload from `c0` is forwarded unchanged to the connection of `peer`, and
/// a payload from a connection identified as `peer` is forwarded unchanged to
/// the connection of `c0`'s identity.
pub proof fn lemma_session_relays_both_ways(
    c0: Connection,
    c1: Connection,
    r0: PeerRegistry,
    r1: PeerRegistry,
    peer: Seq<char>,
    a: Action,
    d0: Connection,
    p: Payload,
    q: Payload,
    c2: Connection,
    d1: Connection,
    r2: PeerRegistry,
    r3: PeerRegistry,
    b: Action,
    e: Action,
)
    requires
        c0.wf(),
        c0.phase == Phase::Identified,
        session_step(c0, c1, r0, r1, peer, a),
        sends_text(a, "SESSION_OK"@),
        payload_step(c1, c2, r1, r2, p, b),
        d0.phase == Phase::Identified,
        d0.identity is Some,
        d0.identity->0@ == peer,
        payload_step(d0, d1, r1, r3, q, e),
    ensures
        b == Action::Forward(r0.connections()[peer], p),
        e == Action::Forward(r0.connections()[c0.identity->0@], q),
{
    reveal_strlit("SESSION_OK");
    reveal_strlit("SESSION_REJECTED");
    assert("SESSION_OK"@.len() != "SESSION_REJECTED"@.len());
    let x = c0.identity->0@;
    assert(r1.partners() == r0.partners().insert(x, peer).insert(peer, x));
}

} // verus!
