use connect_proxy::handler::{dial_address, handle_event, HandlerAction, HandlerEvent, HandlerState};
use connect_proxy::parser::{MalformedReason, Parser, ScanStatus};
use connect_proxy::responses::{established_response, rejection_response};

const REJECTION: &str = "HTTP/1.1 405 Method Not Supported\r\nContent-Type: text/plain;charset=utf-8\r\nContent-Length: 26\r\nContent-Length: 26\r\n\r\nOnly CONNECT Supported\r\n\r\n";
const ESTABLISHED: &str = "HTTP/1.1 200 Connection Established\r\nProxy-agent: connect_proxy/0.1.0\r\n\r\n";

#[test]
fn connect_request_parses_target() {
    let mut p = Parser::new();
    let status = p.feed(b"CONNECT example.com:443 HTTP/1.1\r\nHost: example.com\r\n\r\n");
    assert_eq!(status, ScanStatus::Complete);
    let (host, port) = p.take_target().unwrap();
    assert_eq!(host, "example.com");
    assert_eq!(port, "443");
}

#[test]
fn non_connect_request_is_rejected() {
    let mut p = Parser::new();
    let status = p.feed(b"GET / HTTP/1.1\r\n");
    assert_eq!(status, ScanStatus::Rejected);
}

#[test]
fn rejected_request_gets_exact_rejection_and_no_dial() {
    let state = HandlerState::initial();
    let (state, action) = handle_event(
        state,
        HandlerEvent::DataReceived(b"GET / HTTP/1.1\r\n".to_vec()),
    );
    assert_eq!(action, HandlerAction::SendRejection(REJECTION));
    assert!(matches!(state, HandlerState::Closed));
}

#[test]
fn invalid_utf8_host_terminates_silently() {
    let state = HandlerState::initial();
    let (state, action) = handle_event(
        state,
        HandlerEvent::DataReceived(b"CONNECT bad\xffhost:80 ".to_vec()),
    );
    assert_eq!(action, HandlerAction::CloseSilently);
    assert!(matches!(state, HandlerState::Closed));
}

#[test]
fn invalid_utf8_host_reported_before_port() {
    let mut p = Parser::new();
    let status = p.feed(b"CONNECT bad\xffhost:8\xff0 ");
    assert_eq!(status, ScanStatus::Complete);
    assert_eq!(p.take_target(), Err(MalformedReason::HostNotText));
}

#[test]
fn invalid_utf8_port_reported() {
    let mut p = Parser::new();
    let status = p.feed(b"CONNECT host:8\xff0 ");
    assert_eq!(status, ScanStatus::Complete);
    assert_eq!(p.take_target(), Err(MalformedReason::PortNotText));
}

#[test]
fn parse_is_chunking_independent() {
    let input: &[u8] = b"CONNECT example.com:443 HTTP/1.1\r\n";
    let mut whole = Parser::new();
    let whole_status = whole.feed(input);

    let mut byte_at_a_time = Parser::new();
    let mut last = ScanStatus::NeedMore;
    for b in input {
        last = byte_at_a_time.feed(&[*b]);
    }
    assert_eq!(whole_status, ScanStatus::Complete);
    assert_eq!(last, ScanStatus::Complete);
    assert_eq!(whole.take_target().unwrap(), byte_at_a_time.take_target().unwrap());
}

#[test]
fn prefix_split_across_reads() {
    let mut p = Parser::new();
    assert_eq!(p.feed(b"CONN"), ScanStatus::NeedMore);
    assert_eq!(p.feed(b"ECT ex"), ScanStatus::NeedMore);
    assert_eq!(p.feed(b"ample.com:4"), ScanStatus::NeedMore);
    assert_eq!(p.feed(b"43 rest"), ScanStatus::Complete);
    let (host, port) = p.take_target().unwrap();
    assert_eq!(host, "example.com");
    assert_eq!(port, "443");
}

#[test]
fn later_colons_are_consumed_not_stored() {
    let mut p = Parser::new();
    assert_eq!(p.feed(b"CONNECT a:b:c "), ScanStatus::Complete);
    let (host, port) = p.take_target().unwrap();
    assert_eq!(host, "a");
    assert_eq!(port, "bc");
}

#[test]
fn empty_host_and_port_parse() {
    let mut p = Parser::new();
    assert_eq!(p.feed(b"CONNECT : "), ScanStatus::Complete);
    let (host, port) = p.take_target().unwrap();
    assert_eq!(host, "");
    assert_eq!(port, "");
}

#[test]
fn mismatch_at_eighth_byte_rejects() {
    let mut p = Parser::new();
    assert_eq!(p.feed(b"CONNECTX host:1 "), ScanStatus::Rejected);
}

#[test]
fn target_over_limit_is_malformed() {
    let mut p = Parser::with_limit(4);
    assert_eq!(p.feed(b"CONNECT abc:9 "), ScanStatus::Complete);

    let mut q = Parser::with_limit(4);
    assert_eq!(q.feed(b"CONNECT abcd:9 "), ScanStatus::Malformed);
}

#[test]
fn over_limit_closes_silently() {
    let state = HandlerState::initial_with_limit(4);
    let (state, action) = handle_event(
        state,
        HandlerEvent::DataReceived(b"CONNECT verylonghost:443 ".to_vec()),
    );
    assert_eq!(action, HandlerAction::CloseSilently);
    assert!(matches!(state, HandlerState::Closed));
}

#[test]
fn responses_are_byte_exact() {
    assert_eq!(rejection_response(), REJECTION);
    assert_eq!(established_response(), ESTABLISHED);
}

#[test]
fn successful_connect_walks_to_relay() {
    let state = HandlerState::initial();
    let (state, action) = handle_event(
        state,
        HandlerEvent::DataReceived(b"CONNECT example.com:443 HTTP/1.1\r\n".to_vec()),
    );
    assert_eq!(
        action,
        HandlerAction::OpenTarget("example.com".to_string(), "443".to_string())
    );
    assert!(matches!(state, HandlerState::Dialing));

    let (state, action) = handle_event(state, HandlerEvent::DialSucceeded);
    assert_eq!(action, HandlerAction::SendEstablished(ESTABLISHED));
    assert!(matches!(state, HandlerState::Responding));

    let (state, action) = handle_event(state, HandlerEvent::WriteSucceeded);
    assert_eq!(action, HandlerAction::RunRelay);
    assert!(matches!(state, HandlerState::Relaying));

    let (state, action) = handle_event(state, HandlerEvent::RelayFinished);
    assert_eq!(action, HandlerAction::CloseSilently);
    assert!(matches!(state, HandlerState::Closed));
}

#[test]
fn dial_failure_sends_nothing() {
    let state = HandlerState::initial();
    let (state, _) = handle_event(
        state,
        HandlerEvent::DataReceived(b"CONNECT localhost:1 ".to_vec()),
    );
    assert!(matches!(state, HandlerState::Dialing));

    let (state, action) = handle_event(state, HandlerEvent::DialFailed);
    assert_eq!(action, HandlerAction::CloseSilently);
    assert!(matches!(state, HandlerState::Closed));
}

#[test]
fn read_failure_closes_silently() {
    let state = HandlerState::initial();
    let (state, action) = handle_event(state, HandlerEvent::ReadFailed);
    assert_eq!(action, HandlerAction::CloseSilently);
    assert!(matches!(state, HandlerState::Closed));
}

#[test]
fn write_failure_skips_relay() {
    let state = HandlerState::initial();
    let (state, _) = handle_event(
        state,
        HandlerEvent::DataReceived(b"CONNECT h:1 ".to_vec()),
    );
    let (state, _) = handle_event(state, HandlerEvent::DialSucceeded);
    assert!(matches!(state, HandlerState::Responding));

    let (state, action) = handle_event(state, HandlerEvent::WriteFailed);
    assert_eq!(action, HandlerAction::CloseSilently);
    assert!(matches!(state, HandlerState::Closed));
}

#[test]
fn closed_connection_ignores_events() {
    let (state, action) = handle_event(HandlerState::Closed, HandlerEvent::DialSucceeded);
    assert_eq!(action, HandlerAction::CloseSilently);
    assert!(matches!(state, HandlerState::Closed));
}

#[test]
fn dial_address_joins_host_and_port() {
    assert_eq!(dial_address("example.com", "443"), "example.com:443");
    assert_eq!(dial_address("", ""), ":");
}

#[test]
fn partial_reads_keep_needing_more() {
    let mut p = Parser::new();
    assert_eq!(p.feed(b""), ScanStatus::NeedMore);
    assert_eq!(p.feed(b"CONNECT host:443"), ScanStatus::NeedMore);
    assert_eq!(p.feed(b" "), ScanStatus::Complete);
}

#[test]
fn mismatch_across_reads_rejects() {
    let mut p = Parser::new();
    assert_eq!(p.feed(b"CONN"), ScanStatus::NeedMore);
    assert_eq!(p.feed(b"EXT host:1 "), ScanStatus::Rejected);
}
