//! The websocket bridge that lets Codex reach an hcodex launch endpoint:
//! when the launch URL is one Codex accepts as its remote, it is used as it
//! is; otherwise a local bridge relays messages both ways.
//!
//! Listening, the handshakes and moving the messages belong to the caller,
//! which asks here what each read or send outcome means.
use vstd::prelude::*;
use crate::ws_worker::{opt_parts, parse_url, url_parse, UrlParts, UrlPartsView};
use crate::text::str_eq;

verus! {

/// Codex takes a remote URL as it is when it is a `ws` or `wss` URL with a
/// host and an explicit port, at the root path, with no query or fragment.
pub open spec fn safe_remote(parts: Option<UrlPartsView>) -> bool {
    match parts {
        None => false,
        Some(p) => (p.0 == "ws"@ || p.0 == "wss"@) && p.1 is Some && p.2 is Some && p.3 == "/"@ && p.4 is None
            && p.5 is None,
    }
}

/// Whether Codex takes the parsed URL as its remote as it is.
pub fn is_safe_remote_parts(parts: &Option<UrlParts>) -> (b: bool)
    ensures
        b == safe_remote(opt_parts(*parts)),
{
    match parts {
        None => false,
        Some(p) => (str_eq(p.scheme.as_str(), "ws") || str_eq(p.scheme.as_str(), "wss")) && p.host.is_some()
            && p.port.is_some() && str_eq(p.path.as_str(), "/") && p.query.is_none() && p.fragment.is_none(),
    }
}

/// Whether Codex takes a launch URL as its remote as it is; when not, the
/// launch goes through a local bridge.
pub fn is_codex_safe_remote_ws_url(remote_ws_url: &str) -> (b: bool)
    ensures
        b == safe_remote(url_parse(remote_ws_url@)),
{
    let parts = parse_url(remote_ws_url);
    is_safe_remote_parts(&parts)
}

/// The websocket errors the bridge tells apart.
#[derive(Debug, Clone, Copy, PartialEq, Eq, Structural)]
pub enum WsErrorKind {
    /// The connection was closed.
    ConnectionClosed,
    /// The peer reset the connection without the closing handshake.
    ResetWithoutClosingHandshake,
    /// A message was sent after the connection was closed.
    SendAfterClosing,
    /// Anything else.
    Other,
}

/// A peer that went away: the relay stops without an error.
pub open spec fn graceful(e: WsErrorKind) -> bool {
    e != WsErrorKind::Other
}

/// Whether an error only says that the peer went away.
pub fn is_graceful_disconnect(error: WsErrorKind) -> (b: bool)
    ensures
        b == graceful(error),
{
    match error {
        WsErrorKind::Other => false,
        _ => true,
    }
}

/// The two directions of the relay.
#[derive(Debug, Clone, Copy, PartialEq, Eq, Structural)]
pub enum RelayDirection {
    /// From the local Codex client to the upstream endpoint.
    ClientToUpstream,
    /// From the upstream endpoint to the local Codex client.
    UpstreamToClient,
}

/// What a relay direction does next.
#[derive(Debug, Clone, Copy, PartialEq, Eq, Structural)]
pub enum RelayStep {
    /// Send the message read to the other side.
    Forward,
    /// Go on reading.
    Continue,
    /// Stop relaying and close the other side.
    Stop,
    /// Fail with the error of reading.
    FailRead,
    /// Fail with the error of forwarding.
    FailForward,
}

/// What a read gave: a message (a close frame or not), an error, or the
/// end of the stream.
#[derive(Debug, Clone, Copy, PartialEq, Eq, Structural)]
pub enum RelayRead {
    Message { is_close: bool },
    Error(WsErrorKind),
    End,
}

/// After a read: forward a message, stop at the end or when the peer went
/// away, fail on any other error.
pub open spec fn after_read_step(read: RelayRead) -> RelayStep {
    match read {
        RelayRead::Message { .. } => RelayStep::Forward,
        RelayRead::End => RelayStep::Stop,
        RelayRead::Error(e) => if graceful(e) {
            RelayStep::Stop
        } else {
            RelayStep::FailRead
        },
    }
}

/// After forwarding (`sent` is the send's error, if any): a close frame
/// ends the relay, also when its send found the peer gone; any other send
/// error fails.
pub open spec fn after_send_step(is_close: bool, sent: Option<WsErrorKind>) -> RelayStep {
    match sent {
        None => if is_close {
            RelayStep::Stop
        } else {
            RelayStep::Continue
        },
        Some(e) => if is_close && graceful(e) {
            RelayStep::Stop
        } else {
            RelayStep::FailForward
        },
    }
}

/// What to do after a read.
pub fn after_read(read: RelayRead) -> (s: RelayStep)
    ensures
        s == after_read_step(read),
{
    match read {
        RelayRead::Message { .. } => RelayStep::Forward,
        RelayRead::End => RelayStep::Stop,
        RelayRead::Error(e) => if is_graceful_disconnect(e) {
            RelayStep::Stop
        } else {
            RelayStep::FailRead
        },
    }
}

/// What to do after forwarding a message.
pub fn after_send(is_close: bool, sent: Option<WsErrorKind>) -> (s: RelayStep)
    ensures
        s == after_send_step(is_close, sent),
{
    match sent {
        None => if is_close {
            RelayStep::Stop
        } else {
            RelayStep::Continue
        },
        Some(e) => if is_close && is_graceful_disconnect(e) {
            RelayStep::Stop
        } else {
            RelayStep::FailForward
        },
    }
}

/// The context of a relay failure.
pub open spec fn relay_failure_text(direction: RelayDirection, step: RelayStep) -> Seq<char> {
    match (direction, step) {
        (RelayDirection::ClientToUpstream, RelayStep::FailRead) => "failed to read local hcodex websocket message"@,
        (RelayDirection::ClientToUpstream, _) => "failed to forward local hcodex websocket message upstream"@,
        (RelayDirection::UpstreamToClient, RelayStep::FailRead) => "failed to read upstream websocket message"@,
        (RelayDirection::UpstreamToClient, _) => "failed to forward upstream websocket message to local hcodex client"@,
    }
}

/// The context of a relay failure.
pub fn relay_failure_message(direction: RelayDirection, step: RelayStep) -> (r: &'static str)
    ensures
        r@ == relay_failure_text(direction, step),
{
    match (direction, step) {
        (RelayDirection::ClientToUpstream, RelayStep::FailRead) => "failed to read local hcodex websocket message",
        (RelayDirection::ClientToUpstream, _) => "failed to forward local hcodex websocket message upstream",
        (RelayDirection::UpstreamToClient, RelayStep::FailRead) => "failed to read upstream websocket message",
        (RelayDirection::UpstreamToClient, _) => "failed to forward upstream websocket message to local hcodex client",
    }
}

} // verus!
