//! The connection state machine: one accepted connection walks from the
//! handshake through either the status flow or the login flow to done,
//! producing at most one loggable event. The machine only decides; the
//! driver around it performs each returned action on the stream and hands
//! the outcome back as the next event.
use vstd::prelude::*;

use vstd::string::StringExecFns;
use vstd::utf8::encode_utf8;

use crate::handshake::{read_handshake, spec_read_handshake, HandshakeTarget};
use crate::identity::{offline_identity, spec_offline_identity};
use crate::packet::{spec_write_packet, write_packet};
use crate::strcodec::{prefix_str_len, read_string, spec_prefix_bytes, spec_read_string};
use crate::varint::{lemma_write_varint_len, spec_write_varint, write_varint};

verus! {

/// The longest username byte length the login flow accepts: any longer and
/// the login-success packet's length prefix could not fit a 32-bit signed
/// value, so the connection is dropped instead.
pub const MAX_USERNAME_BYTES: usize = 0x7fffffe4;

/// What one handled connection reports to the logging collaborator: a
/// status probe, or a login attempt with the username it presented.
#[derive(Debug, PartialEq, Eq)]
pub enum ConnectionEvent {
    StatusProbe { remote_ip: String },
    LoginAttempt { remote_ip: String, username: String },
}

/// The states of one connection's handling. The flow is
/// `AwaitHandshake -> {status flow, login flow} -> Done`, where the status
/// flow is `AwaitStatusRequest -> SendingStatus -> AwaitPing -> SendingPong`
/// and the login flow is `AwaitLoginStart -> SendingLoginSuccess`.
#[derive(Debug, PartialEq, Eq)]
pub enum ConnState {
    AwaitHandshake,
    AwaitStatusRequest,
    SendingStatus,
    AwaitPing,
    SendingPong,
    AwaitLoginStart,
    SendingLoginSuccess { username: String },
    Done,
}

/// What the driver reports back about the stream: a whole packet read, a
/// read that failed or timed out, or the fate of the last requested send.
#[derive(Debug, PartialEq, Eq)]
pub enum StreamEvent {
    Packet { packet_id: i32, payload: Vec<u8> },
    ReadFailed,
    SendOk,
    SendFailed,
}

/// What the driver must do next: read one whole packet, write the given
/// bytes as one contiguous write, or stop, logging the event if one is
/// given and dropping the connection silently otherwise.
#[derive(Debug, PartialEq, Eq)]
pub enum Action {
    ReadPacket,
    Send { bytes: Vec<u8> },
    Finish { event: Option<ConnectionEvent> },
}

/// The read-only configuration a connection is handled under: the status
/// response JSON document (template already loaded and patched by the
/// caller) and the peer's address for the event.
#[derive(Debug, PartialEq, Eq)]
pub struct ConnConfig {
    pub status_json: String,
    pub remote_ip: String,
}

/// The status-response packet for a JSON document: packet id 0, the document
/// as a length-prefixed string.
pub open spec fn spec_status_response(json: Seq<char>) -> Seq<u8> {
    spec_write_packet(0, spec_prefix_bytes(encode_utf8(json)))
}

/// The login-success packet payload for a username: the 16 identity bytes,
/// the length-prefixed username, and a varint zero for the empty property
/// list.
pub open spec fn spec_login_success_payload(username: Seq<char>) -> Seq<u8> {
    spec_offline_identity(username) + spec_prefix_bytes(encode_utf8(username)) + spec_write_varint(0)
}

/// The login-success packet for a username: packet id 2 over the payload
/// above.
pub open spec fn spec_login_success(username: Seq<char>) -> Seq<u8> {
    spec_write_packet(2, spec_login_success_payload(username))
}

/// The machine has stopped with no event: the connection is dropped
/// silently.
pub open spec fn finished_none(r: (ConnState, Action)) -> bool {
    &&& r.0 is Done
    &&& r.1 matches Action::Finish { event } && event is None
}

/// The machine has stopped reporting a status probe from the configured
/// peer.
pub open spec fn finished_probe(r: (ConnState, Action), cfg: ConnConfig) -> bool {
    &&& r.0 is Done
    &&& r.1 matches Action::Finish { event }
        && event matches Some(ConnectionEvent::StatusProbe { remote_ip })
        && remote_ip@ == cfg.remote_ip@
}

/// The machine has stopped reporting a login attempt by `username` from the
/// configured peer.
pub open spec fn finished_login(r: (ConnState, Action), cfg: ConnConfig, username: Seq<char>) -> bool {
    &&& r.0 is Done
    &&& r.1 matches Action::Finish { event }
        && event matches Some(ConnectionEvent::LoginAttempt { remote_ip, username: u })
        && remote_ip@ == cfg.remote_ip@ && u@ == username
}

/// The step relation of the machine, exactly as `step` is bound to it.
///
/// Awaiting the handshake, a packet with id 0 whose payload parses moves to
/// the parsed flow's first state; anything else stops with no event. In the
/// status flow, a status request (id 0) has the status response sent; once
/// that send succeeds one more packet is awaited best-effort, and a ping
/// (id 1, eight bytes) is echoed back as a pong, while any failure from the
/// response send on is swallowed: a probe event is reported whatever became
/// of the optional ping exchange. In the login flow, a login start (id 0)
/// whose payload decodes as a username (no longer than
/// `MAX_USERNAME_BYTES`) has the login-success packet sent, and only a
/// successful send reports the login attempt; every failure stops with no
/// event.
pub open spec fn spec_step(state: ConnState, event: StreamEvent, cfg: ConnConfig, r: (ConnState, Action)) -> bool {
    match state {
        ConnState::AwaitHandshake => match event {
            StreamEvent::Packet { packet_id, payload } => {
                if packet_id != 0 {
                    finished_none(r)
                } else {
                    match spec_read_handshake(payload@) {
                        Ok(HandshakeTarget::Status) => r.0 is AwaitStatusRequest && r.1 is ReadPacket,
                        Ok(HandshakeTarget::Login) => r.0 is AwaitLoginStart && r.1 is ReadPacket,
                        Err(_) => finished_none(r),
                    }
                }
            },
            _ => finished_none(r),
        },
        ConnState::AwaitStatusRequest => match event {
            StreamEvent::Packet { packet_id, payload: _ } => {
                if packet_id == 0 {
                    &&& r.0 is SendingStatus
                    &&& r.1 matches Action::Send { bytes }
                        && bytes@ == spec_status_response(cfg.status_json@)
                } else {
                    finished_none(r)
                }
            },
            _ => finished_none(r),
        },
        ConnState::SendingStatus => match event {
            StreamEvent::SendOk => r.0 is AwaitPing && r.1 is ReadPacket,
            StreamEvent::SendFailed => finished_probe(r, cfg),
            _ => finished_none(r),
        },
        ConnState::AwaitPing => match event {
            StreamEvent::Packet { packet_id, payload } => {
                if packet_id == 1 && payload@.len() == 8 {
                    &&& r.0 is SendingPong
                    &&& r.1 matches Action::Send { bytes } && bytes@ == spec_write_packet(1, payload@)
                } else {
                    finished_probe(r, cfg)
                }
            },
            _ => finished_probe(r, cfg),
        },
        ConnState::SendingPong => finished_probe(r, cfg),
        ConnState::AwaitLoginStart => match event {
            StreamEvent::Packet { packet_id, payload } => {
                if packet_id != 0 {
                    finished_none(r)
                } else {
                    match spec_read_string(payload@) {
                        Err(_) => finished_none(r),
                        Ok((username, _consumed)) => {
                            if encode_utf8(username).len() <= MAX_USERNAME_BYTES {
                                &&& r.0 matches ConnState::SendingLoginSuccess { username: u }
                                    && u@ == username
                                &&& r.1 matches Action::Send { bytes }
                                    && bytes@ == spec_login_success(username)
                            } else {
                                finished_none(r)
                            }
                        },
                    }
                }
            },
            _ => finished_none(r),
        },
        ConnState::SendingLoginSuccess { username } => match event {
            StreamEvent::SendOk => finished_login(r, cfg, username@),
            _ => finished_none(r),
        },
        ConnState::Done => finished_none(r),
    }
}

/// How many more steps a state can take before the machine is done: the
/// measure behind the termination law.
pub open spec fn spec_rank(state: ConnState) -> int {
    match state {
        ConnState::AwaitHandshake => 6,
        ConnState::AwaitStatusRequest => 5,
        ConnState::SendingStatus => 4,
        ConnState::AwaitPing => 3,
        ConnState::SendingPong => 2,
        ConnState::AwaitLoginStart => 3,
        ConnState::SendingLoginSuccess { .. } => 2,
        ConnState::Done => 0,
    }
}

/// Law: a connection's handling always ends. Every step either returns a
/// finishing action or strictly lowers the state's rank, so a driver that
/// performs each action in turn stops after finitely many exchanges,
/// whatever the peer sends.
pub proof fn lemma_step_terminates(state: ConnState, event: StreamEvent, cfg: ConnConfig, r: (ConnState, Action))
    requires
        spec_step(state, event, cfg, r),
    ensures
        r.1 is Finish || spec_rank(r.0) < spec_rank(state),
{
}

/// Where every connection's handling begins: awaiting the handshake packet,
/// with one packet read pending.
pub fn initial() -> (r: (ConnState, Action))
    ensures
        r.0 is AwaitHandshake,
        r.1 is ReadPacket,
{
    (ConnState::AwaitHandshake, Action::ReadPacket)
}

fn finish_none() -> (r: (ConnState, Action))
    ensures
        finished_none(r),
{
    (ConnState::Done, Action::Finish { event: None })
}

fn finish_probe(cfg: &ConnConfig) -> (r: (ConnState, Action))
    ensures
        finished_probe(r, *cfg),
{
    (
        ConnState::Done,
        Action::Finish { event: Some(ConnectionEvent::StatusProbe { remote_ip: cfg.remote_ip.clone() }) },
    )
}

/// Drives the machine one step: from the current state and the stream event
/// the driver reports, to the next state and the action the driver must
/// take. The configured JSON document must leave a packet length that fits
/// a 32-bit signed value.
pub fn step(state: ConnState, event: StreamEvent, cfg: &ConnConfig) -> (r: (ConnState, Action))
    requires
        encode_utf8(cfg.status_json@).len() + 10 <= 0x7fffffff,
    ensures
        spec_step(state, event, *cfg, r),
{
    match state {
        ConnState::AwaitHandshake => match event {
            StreamEvent::Packet { packet_id, payload } => {
                if packet_id != 0 {
                    return finish_none();
                }
                match read_handshake(payload.as_slice()) {
                    Ok(HandshakeTarget::Status) => (ConnState::AwaitStatusRequest, Action::ReadPacket),
                    Ok(HandshakeTarget::Login) => (ConnState::AwaitLoginStart, Action::ReadPacket),
                    Err(_) => finish_none(),
                }
            },
            _ => finish_none(),
        },
        ConnState::AwaitStatusRequest => match event {
            StreamEvent::Packet { packet_id, payload: _ } => {
                if packet_id == 0 {
                    let doc = prefix_str_len(cfg.status_json.as_str());
                    proof {
                        lemma_write_varint_len(encode_utf8(cfg.status_json@).len() as u32);
                    }
                    let bytes = write_packet(0, doc.as_slice());
                    (ConnState::SendingStatus, Action::Send { bytes })
                } else {
                    finish_none()
                }
            },
            _ => finish_none(),
        },
        ConnState::SendingStatus => match event {
            StreamEvent::SendOk => (ConnState::AwaitPing, Action::ReadPacket),
            StreamEvent::SendFailed => finish_probe(cfg),
            _ => finish_none(),
        },
        ConnState::AwaitPing => match event {
            StreamEvent::Packet { packet_id, payload } => {
                if packet_id == 1 && payload.len() == 8 {
                    let bytes = write_packet(1, payload.as_slice());
                    (ConnState::SendingPong, Action::Send { bytes })
                } else {
                    finish_probe(cfg)
                }
            },
            _ => finish_probe(cfg),
        },
        ConnState::SendingPong => finish_probe(cfg),
        ConnState::AwaitLoginStart => match event {
            StreamEvent::Packet { packet_id, payload } => {
                if packet_id != 0 {
                    return finish_none();
                }
                let ghost p = payload@;
                proof {
                    assert(p =~= payload@.skip(0));
                }
                let username = match read_string(payload.as_slice(), 0) {
                    Ok((u, _consumed)) => u,
                    Err(_) => {
                        return finish_none();
                    },
                };
                if username.as_str().as_bytes().len() > MAX_USERNAME_BYTES {
                    return finish_none();
                }
                let mut body = offline_identity(username.as_str());
                let prefixed = prefix_str_len(username.as_str());
                body.extend_from_slice(prefixed.as_slice());
                let zero = write_varint(0);
                body.extend_from_slice(zero.as_slice());
                proof {
                    assert(body@ =~= spec_login_success_payload(username@));
                    lemma_write_varint_len(encode_utf8(username@).len() as u32);
                    lemma_write_varint_len(0);
                }
                let bytes = write_packet(2, body.as_slice());
                (ConnState::SendingLoginSuccess { username }, Action::Send { bytes })
            },
            _ => finish_none(),
        },
        ConnState::SendingLoginSuccess { username } => match event {
            StreamEvent::SendOk => (
                ConnState::Done,
                Action::Finish {
                    event: Some(ConnectionEvent::LoginAttempt {
                        remote_ip: cfg.remote_ip.clone(),
                        username,
                    }),
                },
            ),
            _ => finish_none(),
        },
        ConnState::Done => finish_none(),
    }
}

impl ConnectionEvent {
    /// The display line for this event, as the logging collaborator prints
    /// and delivers it.
    pub open spec fn spec_message(self) -> Seq<char> {
        match self {
            ConnectionEvent::StatusProbe { remote_ip } => "STATUS `"@ + remote_ip@ + "`"@,
            ConnectionEvent::LoginAttempt { remote_ip, username } => "JOIN `"@ + remote_ip@
                + "`, username: `"@ + username@ + "`"@,
        }
    }

    /// Formats the event as its display line.
    pub fn message(&self) -> (r: String)
        ensures
            r@ == (*self).spec_message(),
    {
        match self {
            ConnectionEvent::StatusProbe { remote_ip } => {
                let mut s = String::from_str("STATUS `");
                s.append(remote_ip.as_str());
                s.append("`");
                proof {
                    assert(s@ =~= (*self).spec_message());
                }
                s
            },
            ConnectionEvent::LoginAttempt { remote_ip, username } => {
                let mut s = String::from_str("JOIN `");
                s.append(remote_ip.as_str());
                s.append("`, username: `");
                s.append(username.as_str());
                s.append("`");
                proof {
                    assert(s@ =~= (*self).spec_message());
                }
                s
            },
        }
    }
}

} // verus!
