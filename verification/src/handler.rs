//! The per-connection decision machine.
//!
//! One connection's lifecycle is a sequence of decisions between I/O
//! operations: keep reading, reject, dial the target, send the success
//! response, hand the streams to the relay, or close. The decisions live
//! here, fully verified; an unverified driver performs each returned
//! [`HandlerAction`], feeds the outcome back as a [`HandlerEvent`], and owns
//! the sockets throughout.
use vstd::prelude::*;

use crate::parser::{scan, scan_init, scan_status, Parser, ScanStatus};
use crate::responses::{established_response, established_text, rejection_response, rejection_text};
use vstd::string::StringExecFns;
use vstd::utf8::{encode_utf8, valid_utf8};

verus! {

/// Where a connection stands between two I/O operations.
pub enum HandlerState {
    /// Still scanning the request line.
    Parsing(Parser),
    /// Target extracted; the driver is opening the outbound connection.
    Dialing,
    /// Outbound connection open; the driver is writing the success response.
    Responding,
    /// Both streams belong to the relay until it finishes.
    Relaying,
    /// The connection is over; every further event only closes it again.
    Closed,
}

/// What the driver's last I/O operation produced.
pub enum HandlerEvent {
    /// A chunk of bytes arrived from the client.
    DataReceived(Vec<u8>),
    /// Reading from the client failed or the stream ended early.
    ReadFailed,
    /// The outbound dial succeeded.
    DialSucceeded,
    /// The outbound dial failed.
    DialFailed,
    /// The pending response write succeeded.
    WriteSucceeded,
    /// The pending response write failed.
    WriteFailed,
    /// The relay finished: one direction ended or failed, so the tunnel is
    /// torn down.
    RelayFinished,
}

/// What the driver must do next.
#[derive(Debug, PartialEq, Eq)]
pub enum HandlerAction {
    /// Read more bytes from the client and hand them back as `DataReceived`.
    ContinueReading,
    /// Write exactly these bytes — the rejection response — to the client,
    /// then close the connection whether or not the write succeeds.
    SendRejection(&'static str),
    /// Open an outbound connection to this host and port.
    OpenTarget(String, String),
    /// Write exactly these bytes — the success response — to the client and
    /// report how the write went.
    SendEstablished(&'static str),
    /// Hand both streams to the relay, closing both when either direction
    /// finishes, and report when it has.
    RunRelay,
    /// Close the connection without writing anything to the client.
    CloseSilently,
}

impl HandlerState {
    /// The state of a freshly accepted connection, with no cap on the
    /// accumulated target length.
    pub fn initial() -> (r: HandlerState)
        ensures
            (r matches HandlerState::Parsing(p) && p@ == scan_init(usize::MAX as nat)),
    {
        HandlerState::Parsing(Parser::new())
    }

    /// The state of a freshly accepted connection whose target, host and
    /// port together, may hold at most `limit` bytes.
    pub fn initial_with_limit(limit: usize) -> (r: HandlerState)
        ensures
            (r matches HandlerState::Parsing(p) && p@ == scan_init(limit as nat)),
    {
        HandlerState::Parsing(Parser::with_limit(limit))
    }
}

/// The whole transition relation of the decision machine: given the state
/// before the event, it says which state and action `handle_event` must
/// produce.
pub open spec fn transition(
    state: HandlerState,
    event: HandlerEvent,
    next: HandlerState,
    action: HandlerAction,
) -> bool {
    match state {
        HandlerState::Parsing(p) => match event {
            HandlerEvent::DataReceived(buf) => {
                let m = scan(p@, buf@);
                match scan_status(m) {
                    ScanStatus::NeedMore => (next matches HandlerState::Parsing(p2) && p2@ == m)
                        && action is ContinueReading,
                    ScanStatus::Rejected => next is Closed && (action matches
                        HandlerAction::SendRejection(resp) && resp@ == rejection_text()),
                    ScanStatus::Malformed => next is Closed && action is CloseSilently,
                    ScanStatus::Complete => if valid_utf8(m.host) && valid_utf8(m.port) {
                        next is Dialing && (action matches HandlerAction::OpenTarget(h, pt)
                            && encode_utf8(h@) == m.host && encode_utf8(pt@) == m.port)
                    } else {
                        next is Closed && action is CloseSilently
                    },
                }
            },
            _ => next is Closed && action is CloseSilently,
        },
        HandlerState::Dialing => match event {
            HandlerEvent::DialSucceeded => next is Responding && (action matches
                HandlerAction::SendEstablished(resp) && resp@ == established_text()),
            _ => next is Closed && action is CloseSilently,
        },
        HandlerState::Responding => match event {
            HandlerEvent::WriteSucceeded => next is Relaying && action is RunRelay,
            _ => next is Closed && action is CloseSilently,
        },
        HandlerState::Relaying => next is Closed && action is CloseSilently,
        HandlerState::Closed => next is Closed && action is CloseSilently,
    }
}

/// Advance one connection by one event.
///
/// The returned pair is the only one the [`transition`] relation allows, so
/// in particular: a rejected method is answered with exactly the rejection
/// bytes and the target is never dialed; a malformed target, a failed read,
/// a failed dial and a failed write all close the connection with nothing
/// written to the client; the success response is written only after the
/// dial succeeded; and the relay runs only after that response was written.
pub fn handle_event(state: HandlerState, event: HandlerEvent) -> (r: (HandlerState, HandlerAction))
    ensures
        transition(state, event, r.0, r.1),
{
    match state {
        HandlerState::Parsing(p) => match event {
            HandlerEvent::DataReceived(buf) => {
                let mut p = p;
                let status = p.feed(buf.as_slice());
                match status {
                    ScanStatus::NeedMore => (HandlerState::Parsing(p), HandlerAction::ContinueReading),
                    ScanStatus::Rejected => (
                        HandlerState::Closed,
                        HandlerAction::SendRejection(rejection_response()),
                    ),
                    ScanStatus::Malformed => (HandlerState::Closed, HandlerAction::CloseSilently),
                    ScanStatus::Complete => match p.take_target() {
                        Result::Ok(t) => (
                            HandlerState::Dialing,
                            HandlerAction::OpenTarget(t.0, t.1),
                        ),
                        Result::Err(_) => (HandlerState::Closed, HandlerAction::CloseSilently),
                    },
                }
            },
            _ => (HandlerState::Closed, HandlerAction::CloseSilently),
        },
        HandlerState::Dialing => match event {
            HandlerEvent::DialSucceeded => (
                HandlerState::Responding,
                HandlerAction::SendEstablished(established_response()),
            ),
            _ => (HandlerState::Closed, HandlerAction::CloseSilently),
        },
        HandlerState::Responding => match event {
            HandlerEvent::WriteSucceeded => (HandlerState::Relaying, HandlerAction::RunRelay),
            _ => (HandlerState::Closed, HandlerAction::CloseSilently),
        },
        HandlerState::Relaying => (HandlerState::Closed, HandlerAction::CloseSilently),
        HandlerState::Closed => (HandlerState::Closed, HandlerAction::CloseSilently),
    }
}

/// The single dial address `host:port` handed to the transport, exactly the
/// host, one colon, and the port.
pub fn dial_address(host: &str, port: &str) -> (r: String)
    ensures
        r@ == host@ + ":"@ + port@,
{
    let mut addr: String = host.to_owned();
    addr.append(":");
    addr.append(port);
    addr
}

} // verus!

