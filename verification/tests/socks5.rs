use conduit5::net::IpAddress;
use conduit5::socks5::{encode_reply, step, Action, Candidate, Input, SessionError, SessionState};
use conduit5::whitelist::Whitelist;

fn policy(rules: &[&str]) -> Whitelist {
    Whitelist::from_strings(rules.iter().map(|s| s.to_string()).collect())
}

/// Drives the machine through the greeting and up to the request header.
fn after_handshake(w: &Whitelist) -> SessionState {
    let (s, a) = step(SessionState::Greeting, Input::Bytes(vec![5, 1]), w);
    assert_eq!(a, Action::Read(1));
    let (s, a) = step(s, Input::Bytes(vec![0]), w);
    assert_eq!(a, Action::WriteRead(vec![5, 0], 4));
    s
}

#[test]
fn reply_encoding_is_exactly_ten_bytes() {
    assert_eq!(encode_reply(0), vec![5, 0, 0, 1, 0, 0, 0, 0, 0, 0]);
    assert_eq!(encode_reply(2), vec![5, 2, 0, 1, 0, 0, 0, 0, 0, 0]);
    assert_eq!(encode_reply(7), vec![5, 7, 0, 1, 0, 0, 0, 0, 0, 0]);
}

#[test]
fn denied_ipv4_connect_gets_reply_2_and_no_upstream() {
    let w = policy(&["example.com"]);
    let s = after_handshake(&w);
    let (s, a) = step(s, Input::Bytes(vec![5, 1, 0, 1]), &w);
    assert_eq!(a, Action::Read(6));
    let (s, a) = step(s, Input::Bytes(vec![93, 184, 216, 34, 0, 80]), &w);
    assert_eq!(
        a,
        Action::WriteClose(vec![5, 2, 0, 1, 0, 0, 0, 0, 0, 0], SessionError::PolicyDenied)
    );
    assert_eq!(s, SessionState::Failed { error: SessionError::PolicyDenied });
}

#[test]
fn bind_command_gets_reply_7_and_no_connection() {
    let w = policy(&["example.com"]);
    let s = after_handshake(&w);
    let (s, a) = step(s, Input::Bytes(vec![5, 2, 0, 1]), &w);
    assert_eq!(a, Action::Read(6));
    let (s, a) = step(s, Input::Bytes(vec![127, 0, 0, 1, 0, 80]), &w);
    assert_eq!(
        a,
        Action::WriteClose(vec![5, 7, 0, 1, 0, 0, 0, 0, 0, 0], SessionError::ProtocolViolation)
    );
    assert_eq!(s, SessionState::Failed { error: SessionError::ProtocolViolation });
}

#[test]
fn allowed_domain_resolves_connects_and_relays() {
    let w = policy(&["example.com"]);
    let s = after_handshake(&w);
    let (s, a) = step(s, Input::Bytes(vec![5, 1, 0, 3]), &w);
    assert_eq!(a, Action::Read(1));
    let (s, a) = step(s, Input::Bytes(vec![11]), &w);
    assert_eq!(a, Action::Read(13));
    let mut req = b"example.com".to_vec();
    req.push(0);
    req.push(80);
    let (s, a) = step(s, Input::Bytes(req), &w);
    assert_eq!(a, Action::Resolve("example.com".to_string(), 80));
    let cand = Candidate { ip: IpAddress::V4(0x5DB8_D822), port: 80 };
    let (s, a) = step(s, Input::Resolved(vec![cand]), &w);
    assert_eq!(a, Action::Connect(cand));
    let (s, a) = step(s, Input::ConnectSucceeded, &w);
    assert_eq!(a, Action::WriteRelay(vec![5, 0, 0, 1, 0, 0, 0, 0, 0, 0]));
    assert_eq!(s, SessionState::Relaying);
}

#[test]
fn denied_domain_gets_reply_2() {
    let w = policy(&["allowed.com"]);
    let s = after_handshake(&w);
    let (s, _) = step(s, Input::Bytes(vec![5, 1, 0, 3]), &w);
    let (s, _) = step(s, Input::Bytes(vec![8]), &w);
    let mut req = b"evil.com".to_vec();
    req.push(0);
    req.push(80);
    let (_, a) = step(s, Input::Bytes(req), &w);
    assert_eq!(
        a,
        Action::WriteClose(vec![5, 2, 0, 1, 0, 0, 0, 0, 0, 0], SessionError::PolicyDenied)
    );
}

#[test]
fn domain_that_is_a_literal_ip_is_judged_by_ip_rules() {
    let w = policy(&["10.0.0.0/8"]);
    let s = after_handshake(&w);
    let (s, _) = step(s, Input::Bytes(vec![5, 1, 0, 3]), &w);
    let (s, _) = step(s, Input::Bytes(vec![8]), &w);
    let mut req = b"10.1.2.3".to_vec();
    req.push(0);
    req.push(80);
    let (_, a) = step(s, Input::Bytes(req), &w);
    assert_eq!(a, Action::Connect(Candidate { ip: IpAddress::V4(0x0A01_0203), port: 80 }));
}

#[test]
fn wrong_version_closes_without_reply() {
    let w = policy(&[]);
    let (s, a) = step(SessionState::Greeting, Input::Bytes(vec![4, 1]), &w);
    assert_eq!(a, Action::Close(SessionError::ProtocolViolation));
    assert_eq!(s, SessionState::Failed { error: SessionError::ProtocolViolation });
    let (_, a) = step(SessionState::RequestHeader, Input::Bytes(vec![4, 1, 0, 1]), &w);
    assert_eq!(a, Action::Close(SessionError::ProtocolViolation));
}

#[test]
fn unknown_address_type_closes_without_reply() {
    let w = policy(&[]);
    let (_, a) = step(SessionState::RequestHeader, Input::Bytes(vec![5, 1, 0, 2]), &w);
    assert_eq!(a, Action::Close(SessionError::ProtocolViolation));
}

#[test]
fn invalid_utf8_domain_closes_without_reply() {
    let w = policy(&["example.com"]);
    let s = after_handshake(&w);
    let (s, _) = step(s, Input::Bytes(vec![5, 1, 0, 3]), &w);
    let (s, a) = step(s, Input::Bytes(vec![2]), &w);
    assert_eq!(a, Action::Read(4));
    let (s, a) = step(s, Input::Bytes(vec![0xff, 0xfe, 0, 80]), &w);
    assert_eq!(a, Action::Close(SessionError::ProtocolViolation));
    assert_eq!(s, SessionState::Failed { error: SessionError::ProtocolViolation });
}

#[test]
fn empty_resolution_gets_reply_4() {
    let w = policy(&["example.com"]);
    let s = after_handshake(&w);
    let (s, _) = step(s, Input::Bytes(vec![5, 1, 0, 3]), &w);
    let (s, _) = step(s, Input::Bytes(vec![11]), &w);
    let mut req = b"example.com".to_vec();
    req.push(0);
    req.push(80);
    let (s, _) = step(s, Input::Bytes(req), &w);
    let (s, a) = step(s, Input::Resolved(Vec::new()), &w);
    assert_eq!(
        a,
        Action::WriteClose(vec![5, 4, 0, 1, 0, 0, 0, 0, 0, 0], SessionError::ResolutionFailed)
    );
    assert_eq!(s, SessionState::Failed { error: SessionError::ResolutionFailed });
}

#[test]
fn connect_failures_try_candidates_in_order_then_reply_5() {
    let w = policy(&["example.com"]);
    let s = after_handshake(&w);
    let (s, _) = step(s, Input::Bytes(vec![5, 1, 0, 3]), &w);
    let (s, _) = step(s, Input::Bytes(vec![11]), &w);
    let mut req = b"example.com".to_vec();
    req.push(0);
    req.push(80);
    let (s, _) = step(s, Input::Bytes(req), &w);
    let c1 = Candidate { ip: IpAddress::V4(0x0100_0001), port: 80 };
    let c2 = Candidate { ip: IpAddress::V6(7), port: 80 };
    let (s, a) = step(s, Input::Resolved(vec![c1, c2]), &w);
    assert_eq!(a, Action::Connect(c1));
    let (s, a) = step(s, Input::ConnectFailed, &w);
    assert_eq!(a, Action::Connect(c2));
    let (s, a) = step(s, Input::ConnectFailed, &w);
    assert_eq!(
        a,
        Action::WriteClose(
            vec![5, 5, 0, 1, 0, 0, 0, 0, 0, 0],
            SessionError::UpstreamUnreachable
        )
    );
    assert_eq!(s, SessionState::Failed { error: SessionError::UpstreamUnreachable });
}

#[test]
fn ipv6_connect_allowed() {
    let w = policy(&["::1"]);
    let s = after_handshake(&w);
    let (s, a) = step(s, Input::Bytes(vec![5, 1, 0, 4]), &w);
    assert_eq!(a, Action::Read(18));
    let mut req = vec![0u8; 15];
    req.push(1);
    req.push(0x1f);
    req.push(0x90);
    let (_, a) = step(s, Input::Bytes(req), &w);
    assert_eq!(a, Action::Connect(Candidate { ip: IpAddress::V6(1), port: 0x1f90 }));
}

#[test]
fn method_bytes_are_not_inspected() {
    let w = policy(&[]);
    let (s, a) = step(SessionState::Greeting, Input::Bytes(vec![5, 3]), &w);
    assert_eq!(a, Action::Read(3));
    let (_, a) = step(s, Input::Bytes(vec![0xaa, 0xbb, 0xcc]), &w);
    assert_eq!(a, Action::WriteRead(vec![5, 0], 4));
}

#[test]
fn zero_methods_still_get_the_handshake_reply() {
    let w = policy(&[]);
    let (s, a) = step(SessionState::Greeting, Input::Bytes(vec![5, 0]), &w);
    assert_eq!(a, Action::Read(0));
    let (_, a) = step(s, Input::Bytes(Vec::new()), &w);
    assert_eq!(a, Action::WriteRead(vec![5, 0], 4));
}
