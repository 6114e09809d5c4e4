//! One RCON exchange: authenticate, send the command and a follow-up echo,
//! and collect response bodies until the echo comes back. The decisions are
//! made here; the caller does the socket I/O and reports what happened.
use vstd::prelude::*;
use vstd::utf8::encode_utf8;
use crate::packet::{packet_bytes, PacketView, ProtocolError, RconPacket, RconPacketType, MAX_BODY_LEN};
use crate::text::{append_str, str_eq};

verus! {

/// The follow-up command whose echo marks the end of a response.
pub const TERMINATING_COMMAND: &'static str = "echo CsctrlTerminatingRconCommand";

/// The body the follow-up command's echo arrives with.
pub const TERMINATING_RESPONSE: &'static str = "CsctrlTerminatingRconCommand\n";

#[derive(Clone, Copy, Debug, PartialEq, Eq, Structural)]
pub enum RconError {
    /// The TCP connection could not be opened.
    ConnectError,
    /// The password was refused.
    AuthError,
    /// A reply could not be read as a packet, or came when none was due.
    ProtocolError,
    /// No answer came in time.
    Timeout,
    /// A body longer than the protocol carries.
    BodyTooLong,
}

/// The id allocated after `last`: one more, wrapping from `i32::MAX` to 0.
pub open spec fn next_packet_id(last: i32) -> i32 {
    if last == i32::MAX {
        0
    } else {
        (last + 1) as i32
    }
}

/// The id that the `k`-th allocation of a new connection returns (the first is `k == 1`).
pub open spec fn allocated_id(k: nat) -> i32
    decreases k,
{
    if k == 0 {
        -1i32
    } else {
        next_packet_id(allocated_id((k - 1) as nat))
    }
}

/// Ids start at 0 and count up to `i32::MAX`, then start again at 0: the
/// `k`-th one is `k - 1` modulo 2^31, and none is negative.
pub proof fn lemma_packet_ids(k: nat)
    requires
        k >= 1,
    ensures
        allocated_id(k) == ((k - 1) % 0x8000_0000) as i32,
        allocated_id(k) >= 0,
    decreases k,
{
    if k == 1 {
        assert(allocated_id(0) == -1);
        assert(allocated_id(1) == next_packet_id(-1i32));
    } else {
        lemma_packet_ids((k - 1) as nat);
        let prev = (k - 2) % 0x8000_0000;
        assert(allocated_id(k) == next_packet_id(allocated_id((k - 1) as nat)));
        assert(0 <= prev < 0x8000_0000) by (nonlinear_arith)
            requires
                prev == (k - 2) % 0x8000_0000,
                k >= 2,
        ;
        if prev == 0x7fff_ffff {
            assert((k - 1) % 0x8000_0000 == 0) by (nonlinear_arith)
                requires
                    prev == (k - 2) % 0x8000_0000,
                    prev == 0x7fff_ffff,
                    k >= 2,
            ;
        } else {
            assert((k - 1) % 0x8000_0000 == prev + 1) by (nonlinear_arith)
                requires
                    prev == (k - 2) % 0x8000_0000,
                    prev < 0x7fff_ffff,
                    k >= 2,
            ;
        }
    }
}

pub struct RconConnection {
    address: String,
    password: String,
    current_packet_id: i32,
    is_valid: bool,
}

impl RconConnection {
    /// The id allocated last; -1 before the first.
    pub closed spec fn last_id(&self) -> i32 {
        self.current_packet_id
    }

    pub closed spec fn address(&self) -> Seq<char> {
        self.address@
    }

    pub closed spec fn password(&self) -> Seq<char> {
        self.password@
    }

    /// Whether the last authentication on this connection succeeded.
    pub closed spec fn valid(&self) -> bool {
        self.is_valid
    }

    pub open spec fn wf(&self) -> bool {
        self.last_id() >= -1
    }

    pub fn create_rcon_connection(address: &str, password: &str) -> (r: RconConnection)
        ensures
            r.wf(),
            r.last_id() == -1,
            r.address() == address@,
            r.password() == password@,
            !r.valid(),
    {
        RconConnection { address: address.to_owned(), password: password.to_owned(), current_packet_id: -1, is_valid: false }
    }

    /// The next packet id.
    pub fn get_new_packet_id(&mut self) -> (r: i32)
        requires
            old(self).wf(),
        ensures
            final(self).wf(),
            r == next_packet_id(old(self).last_id()),
            r >= 0,
            final(self).last_id() == r,
            final(self).address() == old(self).address(),
            final(self).password() == old(self).password(),
            final(self).valid() == old(self).valid(),
    {
        if self.current_packet_id == i32::MAX {
            self.current_packet_id = 0;
        } else {
            self.current_packet_id = self.current_packet_id + 1;
        }
        self.current_packet_id
    }

    pub fn get_is_valid(&self) -> (r: bool)
        ensures
            r == self.valid(),
    {
        self.is_valid
    }

    /// The `host:port` the connection opens.
    pub fn get_address(&self) -> (r: &str)
        ensures
            r@ == self.address(),
    {
        self.address.as_str()
    }

    /// The frame of a packet with a fresh id.
    fn frame(&mut self, packet_type: RconPacketType, body: &str) -> (r: Vec<u8>)
        requires
            old(self).wf(),
            encode_utf8(body@).len() <= MAX_BODY_LEN,
        ensures
            final(self).wf(),
            final(self).last_id() == next_packet_id(old(self).last_id()),
            r@ == packet_bytes(PacketView { id: final(self).last_id(), packet_type, body: body@ }),
            final(self).address() == old(self).address(),
            final(self).password() == old(self).password(),
            final(self).valid() == old(self).valid(),
    {
        let id = self.get_new_packet_id();
        RconPacket::new(id, packet_type, body.to_owned()).serialize()
    }
}

/// Where an exchange stands.
#[derive(Clone, Copy, Debug, PartialEq, Eq, Structural)]
pub enum ExchangePhase {
    Connecting,
    Authenticating,
    Collecting,
    Finished,
}

/// What the caller saw since the last step.
pub enum ExchangeEvent {
    /// The TCP connection is open.
    Connected,
    /// A packet arrived.
    Received(RconPacket),
    /// I/O failed or timed out.
    Failed(RconError),
}

/// What the caller does next.
pub enum ExchangeAction {
    /// Write these bytes, then read the next packet.
    SendThenReceive(Vec<u8>),
    /// Read the next packet.
    Receive,
    /// The exchange is over, with this outcome; shut the connection down.
    Done(Result<String, RconError>),
}

/// One command's exchange over a fresh connection.
pub struct RconExchange {
    phase: ExchangePhase,
    command: String,
    response: String,
}

/// The bytes sent once authentication succeeds: the command, then the
/// follow-up echo, each with its own id.
pub open spec fn command_bytes(id: i32, command: Seq<char>) -> Seq<u8> {
    packet_bytes(PacketView { id, packet_type: RconPacketType::ExecCommand, body: command }) + packet_bytes(
        PacketView { id: next_packet_id(id), packet_type: RconPacketType::ExecCommand, body: TERMINATING_COMMAND@ },
    )
}

/// The bodies joined in order.
pub open spec fn concat_bodies(bodies: Seq<Seq<char>>) -> Seq<char>
    decreases bodies.len(),
{
    if bodies.len() == 0 {
        Seq::empty()
    } else {
        bodies[0] + concat_bodies(bodies.drop_first())
    }
}

/// What collecting these bodies after `response` ends with, one body at a
/// time as `RconExchange::step` does while collecting: the text before the
/// first echo body, or `None` if none arrives.
pub open spec fn collected(response: Seq<char>, bodies: Seq<Seq<char>>) -> Option<Seq<char>>
    decreases bodies.len(),
{
    if bodies.len() == 0 {
        None
    } else if bodies[0] == TERMINATING_RESPONSE@ {
        Some(response)
    } else {
        collected(response + bodies[0], bodies.drop_first())
    }
}

/// A command's response is exactly the bodies that arrive before the echo
/// of the follow-up command, joined in arrival order.
pub proof fn lemma_collect_until_echo(response: Seq<char>, bodies: Seq<Seq<char>>, k: int)
    requires
        0 <= k < bodies.len(),
        bodies[k] == TERMINATING_RESPONSE@,
        forall|j: int| 0 <= j < k ==> bodies[j] != TERMINATING_RESPONSE@,
    ensures
        collected(response, bodies) == Some(response + concat_bodies(bodies.subrange(0, k))),
    decreases k,
{
    if k == 0 {
        assert(response + concat_bodies(bodies.subrange(0, 0)) =~= response);
    } else {
        let rest = bodies.drop_first();
        assert forall|j: int| 0 <= j < k - 1 implies rest[j] != TERMINATING_RESPONSE@ by {
            assert(rest[j] == bodies[j + 1]);
        }
        lemma_collect_until_echo(response + bodies[0], rest, k - 1);
        assert(bodies.subrange(0, k).drop_first() =~= rest.subrange(0, k - 1));
        assert(concat_bodies(bodies.subrange(0, k)) == bodies[0] + concat_bodies(rest.subrange(0, k - 1)));
        assert(response + bodies[0] + concat_bodies(rest.subrange(0, k - 1)) =~= response + (bodies[0]
            + concat_bodies(rest.subrange(0, k - 1))));
    }
}

/// The error a failure ends an exchange with: a timeout while
/// authenticating is an authentication failure.
pub open spec fn auth_failure(phase: ExchangePhase, e: RconError) -> RconError {
    if phase == ExchangePhase::Authenticating && e == RconError::Timeout {
        RconError::AuthError
    } else {
        e
    }
}

/// What one step of an exchange does: `ex0` and `c0` before, `ex1` and
/// `c1` after, `r` the action handed back (see `RconExchange::step`).
pub open spec fn step_spec(
    ex0: RconExchange,
    ex1: RconExchange,
    c0: RconConnection,
    c1: RconConnection,
    event: ExchangeEvent,
    r: ExchangeAction,
) -> bool {
    &&& c1.wf()
    &&& c1.address() == c0.address()
    &&& c1.password() == c0.password()
    &&& ex1.command() == ex0.command()
    &&& ({
        let ph = ex0.phase();
        match event {
            ExchangeEvent::Failed(e) => ex1.phase() == ExchangePhase::Finished
                && c1.last_id() == c0.last_id()
                && (r matches ExchangeAction::Done(Err(e2)) && e2 == auth_failure(ph, e)),
            ExchangeEvent::Connected => if ph == ExchangePhase::Connecting {
                if encode_utf8(c0.password()).len() <= MAX_BODY_LEN {
                    &&& ex1.phase() == ExchangePhase::Authenticating
                    &&& ex1.response() == ex0.response()
                    &&& c1.last_id() == next_packet_id(c0.last_id())
                    &&& r matches ExchangeAction::SendThenReceive(bytes) && bytes@ == packet_bytes(
                        PacketView {
                            id: c1.last_id(),
                            packet_type: RconPacketType::Auth,
                            body: c0.password(),
                        },
                    )
                } else {
                    &&& ex1.phase() == ExchangePhase::Finished
                    &&& c1.last_id() == c0.last_id()
                    &&& r matches ExchangeAction::Done(Err(e)) && e == RconError::BodyTooLong
                }
            } else {
                &&& ex1.phase() == ExchangePhase::Finished
                &&& c1.last_id() == c0.last_id()
                &&& r matches ExchangeAction::Done(Err(e)) && e == RconError::ProtocolError
            },
            ExchangeEvent::Received(p) => if ph == ExchangePhase::Authenticating {
                if p@.packet_type != RconPacketType::AuthResponse {
                    &&& ex1.phase() == ph
                    &&& ex1.response() == ex0.response()
                    &&& c1.last_id() == c0.last_id()
                    &&& r is Receive
                } else if p@.id < 0 {
                    &&& ex1.phase() == ExchangePhase::Finished
                    &&& c1.last_id() == c0.last_id()
                    &&& !c1.valid()
                    &&& r matches ExchangeAction::Done(Err(e)) && e == RconError::AuthError
                } else if encode_utf8(ex0.command()).len() <= MAX_BODY_LEN && encode_utf8(
                    TERMINATING_COMMAND@,
                ).len() <= MAX_BODY_LEN {
                    &&& ex1.phase() == ExchangePhase::Collecting
                    &&& ex1.response() == ex0.response()
                    &&& c1.valid()
                    &&& c1.last_id() == next_packet_id(next_packet_id(c0.last_id()))
                    &&& r matches ExchangeAction::SendThenReceive(bytes) && bytes@ == command_bytes(
                        next_packet_id(c0.last_id()),
                        ex0.command(),
                    )
                } else {
                    &&& ex1.phase() == ExchangePhase::Finished
                    &&& c1.last_id() == c0.last_id()
                    &&& r matches ExchangeAction::Done(Err(e)) && e == RconError::BodyTooLong
                }
            } else if ph == ExchangePhase::Collecting {
                &&& c1.last_id() == c0.last_id()
                &&& if p@.body == TERMINATING_RESPONSE@ {
                    &&& ex1.phase() == ExchangePhase::Finished
                    &&& r matches ExchangeAction::Done(Ok(s)) && s@ == ex0.response()
                } else {
                    &&& ex1.phase() == ph
                    &&& ex1.response() == ex0.response() + p@.body
                    &&& r is Receive
                }
            } else {
                &&& ex1.phase() == ExchangePhase::Finished
                &&& c1.last_id() == c0.last_id()
                &&& r matches ExchangeAction::Done(Err(e)) && e == RconError::ProtocolError
            },
        }
    })
}

/// One collecting step keeps what the exchange will end with: collecting
/// the received body and any `rest` from the old response gives either the
/// text the step hands back (on the echo) or what collecting `rest` from the
/// new response gives. With `lemma_collect_until_echo`, a run of steps that
/// ends on the echo hands back exactly the bodies before it, in order.
pub proof fn lemma_step_keeps_collected(
    ex0: RconExchange,
    ex1: RconExchange,
    c0: RconConnection,
    c1: RconConnection,
    p: RconPacket,
    r: ExchangeAction,
    rest: Seq<Seq<char>>,
)
    requires
        ex0.phase() == ExchangePhase::Collecting,
        step_spec(ex0, ex1, c0, c1, ExchangeEvent::Received(p), r),
    ensures
        r is Done || r is Receive,
        r matches ExchangeAction::Done(res) ==> (res matches Ok(s) && collected(ex0.response(), seq![p@.body] + rest)
            == Some(s@)),
        r is Receive ==> ex1.phase() == ExchangePhase::Collecting && collected(
            ex0.response(),
            seq![p@.body] + rest,
        ) == collected(ex1.response(), rest),
{
    let bodies = seq![p@.body] + rest;
    assert(bodies[0] == p@.body);
    assert(bodies.drop_first() =~= rest);
}

impl RconExchange {
    pub closed spec fn phase(&self) -> ExchangePhase {
        self.phase
    }

    pub closed spec fn command(&self) -> Seq<char> {
        self.command@
    }

    /// The response bodies collected so far.
    pub closed spec fn response(&self) -> Seq<char> {
        self.response@
    }

    /// An exchange for `command`, waiting for the connection.
    pub fn new(command: &str) -> (r: RconExchange)
        ensures
            r.phase() == ExchangePhase::Connecting,
            r.command() == command@,
            r.response().len() == 0,
    {
        RconExchange { phase: ExchangePhase::Connecting, command: command.to_owned(), response: String::new() }
    }

    /// Decides what follows `event`:
    /// - once connected, the AUTH packet with the password goes out;
    /// - while authenticating, packets other than an AUTH_RESPONSE are
    ///   skipped, an AUTH_RESPONSE with a negative id is `AuthError`, and any
    ///   other sends the command and the follow-up echo;
    /// - while collecting, a body equal to the echo's ends the exchange with
    ///   the bodies before it, and any other body is appended;
    /// - a failure ends the exchange with it, except that a timeout while
    ///   authenticating is `AuthError`; an event that is not due is a
    ///   `ProtocolError`.
    pub fn step(&mut self, conn: &mut RconConnection, event: ExchangeEvent) -> (r: ExchangeAction)
        requires
            old(conn).wf(),
        ensures
            step_spec(*old(self), *final(self), *old(conn), *final(conn), event, r),
    {
        match event {
            ExchangeEvent::Failed(e) => {
                let e = if self.phase == ExchangePhase::Authenticating && e == RconError::Timeout {
                    RconError::AuthError
                } else {
                    e
                };
                self.phase = ExchangePhase::Finished;
                ExchangeAction::Done(Err(e))
            },
            ExchangeEvent::Connected => {
                if self.phase != ExchangePhase::Connecting {
                    self.phase = ExchangePhase::Finished;
                    return ExchangeAction::Done(Err(RconError::ProtocolError));
                }
                let password = conn.password.clone();
                if password.as_str().as_bytes().len() > MAX_BODY_LEN as usize {
                    self.phase = ExchangePhase::Finished;
                    return ExchangeAction::Done(Err(RconError::BodyTooLong));
                }
                let bytes = conn.frame(RconPacketType::Auth, password.as_str());
                self.phase = ExchangePhase::Authenticating;
                ExchangeAction::SendThenReceive(bytes)
            },
            ExchangeEvent::Received(p) => {
                if self.phase == ExchangePhase::Authenticating {
                    if p.get_type() != RconPacketType::AuthResponse {
                        return ExchangeAction::Receive;
                    }
                    if p.is_error() {
                        conn.is_valid = false;
                        self.phase = ExchangePhase::Finished;
                        return ExchangeAction::Done(Err(RconError::AuthError));
                    }
                    if self.command.as_str().as_bytes().len() > MAX_BODY_LEN as usize
                        || TERMINATING_COMMAND.as_bytes().len() > MAX_BODY_LEN as usize {
                        self.phase = ExchangePhase::Finished;
                        return ExchangeAction::Done(Err(RconError::BodyTooLong));
                    }
                    conn.is_valid = true;
                    let mut bytes = conn.frame(RconPacketType::ExecCommand, self.command.as_str());
                    let mut echo = conn.frame(RconPacketType::ExecCommand, TERMINATING_COMMAND);
                    bytes.append(&mut echo);
                    self.phase = ExchangePhase::Collecting;
                    ExchangeAction::SendThenReceive(bytes)
                } else if self.phase == ExchangePhase::Collecting {
                    if str_eq(p.get_body(), TERMINATING_RESPONSE) {
                        self.phase = ExchangePhase::Finished;
                        let response = self.response.clone();
                        return ExchangeAction::Done(Ok(response));
                    }
                    append_str(&mut self.response, p.get_body());
                    ExchangeAction::Receive
                } else {
                    self.phase = ExchangePhase::Finished;
                    ExchangeAction::Done(Err(RconError::ProtocolError))
                }
            },
        }
    }

    /// Whether the exchange is over.
    pub fn is_finished(&self) -> (r: bool)
        ensures
            r == (self.phase() == ExchangePhase::Finished),
    {
        self.phase == ExchangePhase::Finished
    }
}

} // verus!
