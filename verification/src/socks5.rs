use vstd::prelude::*;
use vstd::utf8::{decode_utf8, valid_utf8};
use crate::net::{parse_ip, spec_parse_ip, IpAddress};
use crate::whitelist::{lower_of, spec_allows_domain, spec_allows_ip, RuleV, Whitelist};

verus! {

/// The SOCKS protocol version byte.
pub const SOCKS_VERSION: u8 = 5;

/// The method identifier for "no authentication required".
pub const METHOD_NO_AUTH: u8 = 0;

/// The only supported command: CONNECT.
pub const CMD_CONNECT: u8 = 1;

/// Address type: IPv4.
pub const ATYP_V4: u8 = 1;

/// Address type: domain name.
pub const ATYP_DOMAIN: u8 = 3;

/// Address type: IPv6.
pub const ATYP_V6: u8 = 4;

/// Reply code: succeeded.
pub const REPLY_SUCCEEDED: u8 = 0;

/// Reply code: connection not allowed by ruleset.
pub const REPLY_NOT_ALLOWED: u8 = 2;

/// Reply code: host unreachable.
pub const REPLY_HOST_UNREACHABLE: u8 = 4;

/// Reply code: connection refused.
pub const REPLY_CONNECTION_REFUSED: u8 = 5;

/// Reply code: command not supported.
pub const REPLY_COMMAND_NOT_SUPPORTED: u8 = 7;

/// Why a session ended before or instead of the relay.
#[derive(Clone, Copy, Debug, PartialEq, Eq, Structural)]
pub enum SessionError {
    /// Bad version, address type or command, or a malformed domain.
    ProtocolViolation,
    /// The destination is not in the rule set.
    PolicyDenied,
    /// Name resolution returned no addresses or failed.
    ResolutionFailed,
    /// Every candidate connection attempt failed.
    UpstreamUnreachable,
}

/// A resolved endpoint the session may connect to.
#[derive(Clone, Copy, Debug, PartialEq, Eq, Structural)]
pub struct Candidate {
    pub ip: IpAddress,
    pub port: u16,
}

/// How the destination address arrives on the wire.
#[derive(Clone, Copy, Debug, PartialEq, Eq, Structural)]
pub enum AddrKind {
    V4,
    V6,
    Domain { len: u8 },
}

/// Where a session stands; states advance strictly forward.
#[derive(Debug, PartialEq)]
pub enum SessionState {
    /// Expecting the two greeting bytes: version and method count.
    Greeting,
    /// Expecting `count` method identifier bytes (their values are ignored).
    Methods { count: u8 },
    /// Expecting the four request header bytes: version, command, reserved,
    /// address type.
    RequestHeader,
    /// Expecting the one-byte length of a domain name.
    DomainLength { command: u8 },
    /// Expecting the raw address bytes followed by the two port bytes.
    ReadingAddress { command: u8, kind: AddrKind },
    /// Waiting for the outcome of name resolution.
    Resolving,
    /// Trying candidate addresses in order, currently the one at `trying`.
    Connecting { candidates: Vec<Candidate>, trying: usize },
    /// The tunnel is established; bytes flow both ways until either side
    /// closes.
    Relaying,
    /// The session ended without a tunnel.
    Failed { error: SessionError },
}

/// The mathematical shape of a session state.
pub enum StateV {
    Greeting,
    Methods { count: u8 },
    RequestHeader,
    DomainLength { command: u8 },
    ReadingAddress { command: u8, kind: AddrKind },
    Resolving,
    Connecting { candidates: Seq<Candidate>, trying: int },
    Relaying,
    Failed { error: SessionError },
}

impl View for SessionState {
    type V = StateV;

    open spec fn view(&self) -> StateV {
        match self {
            SessionState::Greeting => StateV::Greeting,
            SessionState::Methods { count } => StateV::Methods { count: *count },
            SessionState::RequestHeader => StateV::RequestHeader,
            SessionState::DomainLength { command } => StateV::DomainLength { command: *command },
            SessionState::ReadingAddress { command, kind } => StateV::ReadingAddress {
                command: *command,
                kind: *kind,
            },
            SessionState::Resolving => StateV::Resolving,
            SessionState::Connecting { candidates, trying } => StateV::Connecting {
                candidates: candidates@,
                trying: *trying as int,
            },
            SessionState::Relaying => StateV::Relaying,
            SessionState::Failed { error } => StateV::Failed { error: *error },
        }
    }
}

/// What the outside world hands the session next.
#[derive(Debug, PartialEq)]
pub enum Input {
    /// Exactly the bytes the previous action asked to read.
    Bytes(Vec<u8>),
    /// The outcome of name resolution; a failed lookup arrives as an empty
    /// list.
    Resolved(Vec<Candidate>),
    /// The pending connection attempt succeeded.
    ConnectSucceeded,
    /// The pending connection attempt failed.
    ConnectFailed,
}

/// The mathematical shape of an input.
pub enum InputV {
    Bytes(Seq<u8>),
    Resolved(Seq<Candidate>),
    ConnectSucceeded,
    ConnectFailed,
}

impl View for Input {
    type V = InputV;

    open spec fn view(&self) -> InputV {
        match self {
            Input::Bytes(b) => InputV::Bytes(b@),
            Input::Resolved(c) => InputV::Resolved(c@),
            Input::ConnectSucceeded => InputV::ConnectSucceeded,
            Input::ConnectFailed => InputV::ConnectFailed,
        }
    }
}

/// What the session asks the outside world to do next.
#[derive(Debug, PartialEq)]
pub enum Action {
    /// Read exactly this many bytes from the client.
    Read(usize),
    /// Write these bytes to the client, then read exactly that many bytes.
    WriteRead(Vec<u8>, usize),
    /// Resolve this name with this port through the host's name resolution.
    Resolve(String, u16),
    /// Attempt a connection to this candidate.
    Connect(Candidate),
    /// Write these bytes to the client, then relay both directions until
    /// both have finished, and close.
    WriteRelay(Vec<u8>),
    /// Write these bytes to the client, then close; the session failed.
    WriteClose(Vec<u8>, SessionError),
    /// Close without any reply; the session failed.
    Close(SessionError),
}

/// The mathematical shape of an action.
pub enum ActionV {
    Read(int),
    WriteRead(Seq<u8>, int),
    Resolve(Seq<char>, u16),
    Connect(Candidate),
    WriteRelay(Seq<u8>),
    WriteClose(Seq<u8>, SessionError),
    Close(SessionError),
}

impl View for Action {
    type V = ActionV;

    open spec fn view(&self) -> ActionV {
        match self {
            Action::Read(n) => ActionV::Read(*n as int),
            Action::WriteRead(w, n) => ActionV::WriteRead(w@, *n as int),
            Action::Resolve(name, port) => ActionV::Resolve(name@, *port),
            Action::Connect(c) => ActionV::Connect(*c),
            Action::WriteRelay(w) => ActionV::WriteRelay(w@),
            Action::WriteClose(w, e) => ActionV::WriteClose(w@, *e),
            Action::Close(e) => ActionV::Close(*e),
        }
    }
}

/// The reply this proxy sends: ten bytes with the given reply code, address
/// type IPv4 and bound endpoint 0.0.0.0:0.
pub open spec fn spec_reply(rep: u8) -> Seq<u8> {
    seq![SOCKS_VERSION, rep, 0u8, 1u8, 0u8, 0u8, 0u8, 0u8, 0u8, 0u8]
}

/// The two-byte greeting reply selecting "no authentication required".
pub open spec fn spec_handshake_reply() -> Seq<u8> {
    seq![SOCKS_VERSION, METHOD_NO_AUTH]
}

/// Encodes the ten-byte reply for the given reply code.
pub fn encode_reply(rep: u8) -> (r: Vec<u8>)
    ensures
        r@ == spec_reply(rep),
{
    let mut v: Vec<u8> = Vec::new();
    v.push(SOCKS_VERSION);
    v.push(rep);
    v.push(0);
    v.push(1);
    v.push(0);
    v.push(0);
    v.push(0);
    v.push(0);
    v.push(0);
    v.push(0);
    proof {
        assert(v@ =~= spec_reply(rep));
    }
    v
}

/// The big-endian 16-bit value at offset `k`.
pub open spec fn spec_be_u16(b: Seq<u8>, k: int) -> u16 {
    ((b[k] as u16) << 8) | (b[k + 1] as u16)
}

/// The big-endian 32-bit value of the first four bytes.
pub open spec fn spec_be_u32(b: Seq<u8>) -> u32 {
    ((b[0] as u32) << 24) | ((b[1] as u32) << 16) | ((b[2] as u32) << 8) | (b[3] as u32)
}

/// The big-endian 128-bit value of the first sixteen bytes.
pub open spec fn spec_be_u128(b: Seq<u8>) -> u128 {
    ((b[0] as u128) << 120) | ((b[1] as u128) << 112) | ((b[2] as u128) << 104) | ((b[3] as u128)
        << 96) | ((b[4] as u128) << 88) | ((b[5] as u128) << 80) | ((b[6] as u128) << 72) | ((b[7]
        as u128) << 64) | ((b[8] as u128) << 56) | ((b[9] as u128) << 48) | ((b[10] as u128) << 40)
        | ((b[11] as u128) << 32) | ((b[12] as u128) << 24) | ((b[13] as u128) << 16) | ((b[14]
        as u128) << 8) | (b[15] as u128)
}

fn be_u16_at(b: &Vec<u8>, k: usize) -> (r: u16)
    requires
        k + 2 <= b@.len(),
    ensures
        r == spec_be_u16(b@, k as int),
{
    let n = b.len();
    proof {
        assert(k + 1 < n);
    }
    ((b[k] as u16) << 8u16) | (b[k + 1] as u16)
}

fn be_u32(b: &Vec<u8>) -> (r: u32)
    requires
        b@.len() >= 4,
    ensures
        r == spec_be_u32(b@),
{
    ((b[0] as u32) << 24u32) | ((b[1] as u32) << 16u32) | ((b[2] as u32) << 8u32) | (b[3] as u32)
}

fn be_u128(b: &Vec<u8>) -> (r: u128)
    requires
        b@.len() >= 16,
    ensures
        r == spec_be_u128(b@),
{
    ((b[0] as u128) << 120u128) | ((b[1] as u128) << 112u128) | ((b[2] as u128) << 104u128) | ((
    b[3] as u128) << 96u128) | ((b[4] as u128) << 88u128) | ((b[5] as u128) << 80u128) | ((b[6]
        as u128) << 72u128) | ((b[7] as u128) << 64u128) | ((b[8] as u128) << 56u128) | ((b[9]
        as u128) << 48u128) | ((b[10] as u128) << 40u128) | ((b[11] as u128) << 32u128) | ((b[12]
        as u128) << 24u128) | ((b[13] as u128) << 16u128) | ((b[14] as u128) << 8u128) | (b[15]
        as u128)
}

/// The first `n` bytes as their own vector.
fn vec_prefix(v: &Vec<u8>, n: usize) -> (r: Vec<u8>)
    requires
        n <= v@.len(),
    ensures
        r@ == v@.take(n as int),
{
    let mut r: Vec<u8> = Vec::new();
    let mut i: usize = 0;
    while i < n
        invariant
            i <= n,
            n <= v@.len(),
            r@ == v@.take(i as int),
        decreases n - i,
    {
        r.push(v[i]);
        proof {
            assert(r@ =~= v@.take(i + 1));
        }
        i += 1;
    }
    r
}

/// Relies on String::from_utf8: it succeeds exactly on valid UTF-8 and
/// decodes the bytes; the result depends on the bytes alone.
#[verifier::external_body]
fn decode_utf8_vec(b: Vec<u8>) -> (r: Option<String>)
    ensures
        r is Some <==> valid_utf8(b@),
        r matches Some(s) ==> s@ == decode_utf8(b@),
{
    String::from_utf8(b).ok()
}

/// How many raw address bytes each address kind occupies on the wire.
pub open spec fn spec_addr_bytes(kind: AddrKind) -> int {
    match kind {
        AddrKind::V4 => 4,
        AddrKind::V6 => 16,
        AddrKind::Domain { len } => len as int,
    }
}

/// The terminal outcome of a malformed exchange: close with no reply.
pub open spec fn spec_fail() -> (StateV, ActionV) {
    (
        StateV::Failed { error: SessionError::ProtocolViolation },
        ActionV::Close(SessionError::ProtocolViolation),
    )
}

/// The terminal outcome of a failure that still gets a reply.
pub open spec fn spec_reply_fail(rep: u8, e: SessionError) -> (StateV, ActionV) {
    (StateV::Failed { error: e }, ActionV::WriteClose(spec_reply(rep), e))
}

/// The decision once the destination is a literal address: unsupported
/// commands are refused with a reply, a destination outside the rules is
/// denied with a reply, and otherwise the one candidate is tried.
pub open spec fn spec_decide_ip(rules: Seq<RuleV>, command: u8, ip: IpAddress, port: u16) -> (
    StateV,
    ActionV,
) {
    if command != CMD_CONNECT {
        spec_reply_fail(REPLY_COMMAND_NOT_SUPPORTED, SessionError::ProtocolViolation)
    } else if !spec_allows_ip(rules, ip) {
        spec_reply_fail(REPLY_NOT_ALLOWED, SessionError::PolicyDenied)
    } else {
        (
            StateV::Connecting { candidates: seq![Candidate { ip, port }], trying: 0 },
            ActionV::Connect(Candidate { ip, port }),
        )
    }
}

/// The decision once the destination is a name: a name that is itself a
/// literal address is judged as an address; otherwise the (lowercased) name
/// is judged against the domain rules and, when allowed, resolved.
pub open spec fn spec_decide_domain(rules: Seq<RuleV>, command: u8, name: Seq<char>, port: u16) -> (
    StateV,
    ActionV,
) {
    if command != CMD_CONNECT {
        spec_reply_fail(REPLY_COMMAND_NOT_SUPPORTED, SessionError::ProtocolViolation)
    } else {
        match spec_parse_ip(name) {
            Some(ip) => spec_decide_ip(rules, command, ip, port),
            None => if !spec_allows_domain(rules, lower_of(name)) {
                spec_reply_fail(REPLY_NOT_ALLOWED, SessionError::PolicyDenied)
            } else {
                (StateV::Resolving, ActionV::Resolve(name, port))
            },
        }
    }
}

/// One step of the session: from the current state and the next input to
/// the next state and the action the runner must perform. Any input that
/// does not fit the state closes the session as a protocol violation.
pub open spec fn spec_step(state: StateV, input: InputV, rules: Seq<RuleV>) -> (StateV, ActionV) {
    match (state, input) {
        (StateV::Greeting, InputV::Bytes(b)) => {
            if b.len() == 2 && b[0] == SOCKS_VERSION {
                (StateV::Methods { count: b[1] }, ActionV::Read(b[1] as int))
            } else {
                spec_fail()
            }
        },
        (StateV::Methods { count }, InputV::Bytes(b)) => {
            if b.len() == count as int {
                (StateV::RequestHeader, ActionV::WriteRead(spec_handshake_reply(), 4))
            } else {
                spec_fail()
            }
        },
        (StateV::RequestHeader, InputV::Bytes(b)) => {
            if b.len() == 4 && b[0] == SOCKS_VERSION {
                if b[3] == ATYP_V4 {
                    (
                        StateV::ReadingAddress { command: b[1], kind: AddrKind::V4 },
                        ActionV::Read(6),
                    )
                } else if b[3] == ATYP_DOMAIN {
                    (StateV::DomainLength { command: b[1] }, ActionV::Read(1))
                } else if b[3] == ATYP_V6 {
                    (
                        StateV::ReadingAddress { command: b[1], kind: AddrKind::V6 },
                        ActionV::Read(18),
                    )
                } else {
                    spec_fail()
                }
            } else {
                spec_fail()
            }
        },
        (StateV::DomainLength { command }, InputV::Bytes(b)) => {
            if b.len() == 1 {
                (
                    StateV::ReadingAddress { command, kind: AddrKind::Domain { len: b[0] } },
                    ActionV::Read(b[0] as int + 2),
                )
            } else {
                spec_fail()
            }
        },
        (StateV::ReadingAddress { command, kind }, InputV::Bytes(b)) => {
            if b.len() == spec_addr_bytes(kind) + 2 {
                let port = spec_be_u16(b, spec_addr_bytes(kind));
                match kind {
                    AddrKind::V4 => spec_decide_ip(rules, command, IpAddress::V4(spec_be_u32(b)), port),
                    AddrKind::V6 => spec_decide_ip(
                        rules,
                        command,
                        IpAddress::V6(spec_be_u128(b)),
                        port,
                    ),
                    AddrKind::Domain { len } => {
                        let db = b.take(len as int);
                        if valid_utf8(db) {
                            spec_decide_domain(rules, command, decode_utf8(db), port)
                        } else {
                            spec_fail()
                        }
                    },
                }
            } else {
                spec_fail()
            }
        },
        (StateV::Resolving, InputV::Resolved(cands)) => {
            if cands.len() == 0 {
                spec_reply_fail(REPLY_HOST_UNREACHABLE, SessionError::ResolutionFailed)
            } else {
                (
                    StateV::Connecting { candidates: cands, trying: 0 },
                    ActionV::Connect(cands[0]),
                )
            }
        },
        (StateV::Connecting { candidates: _, trying: _ }, InputV::ConnectSucceeded) => {
            (StateV::Relaying, ActionV::WriteRelay(spec_reply(REPLY_SUCCEEDED)))
        },
        (StateV::Connecting { candidates, trying }, InputV::ConnectFailed) => {
            if 0 <= trying && trying + 1 < candidates.len() {
                (
                    StateV::Connecting { candidates, trying: trying + 1 },
                    ActionV::Connect(candidates[trying + 1]),
                )
            } else {
                spec_reply_fail(REPLY_CONNECTION_REFUSED, SessionError::UpstreamUnreachable)
            }
        },
        _ => spec_fail(),
    }
}

/// The executable counterpart of `spec_fail`.
fn fail_close() -> (r: (SessionState, Action))
    ensures
        r.0@ == spec_fail().0,
        r.1@ == spec_fail().1,
{
    (
        SessionState::Failed { error: SessionError::ProtocolViolation },
        Action::Close(SessionError::ProtocolViolation),
    )
}

/// The executable counterpart of `spec_reply_fail`.
fn reply_fail(rep: u8, e: SessionError) -> (r: (SessionState, Action))
    ensures
        r.0@ == spec_reply_fail(rep, e).0,
        r.1@ == spec_reply_fail(rep, e).1,
{
    (SessionState::Failed { error: e }, Action::WriteClose(encode_reply(rep), e))
}

/// Decides what to do with a literal destination address.
fn decide_ip(wl: &Whitelist, command: u8, ip: IpAddress, port: u16) -> (r: (SessionState, Action))
    ensures
        r.0@ == spec_decide_ip(wl@, command, ip, port).0,
        r.1@ == spec_decide_ip(wl@, command, ip, port).1,
{
    if command != CMD_CONNECT {
        reply_fail(REPLY_COMMAND_NOT_SUPPORTED, SessionError::ProtocolViolation)
    } else if !wl.allows_ip(&ip) {
        reply_fail(REPLY_NOT_ALLOWED, SessionError::PolicyDenied)
    } else {
        let c = Candidate { ip, port };
        let mut cands: Vec<Candidate> = Vec::new();
        cands.push(c);
        proof {
            assert(cands@ =~= seq![Candidate { ip, port }]);
        }
        (SessionState::Connecting { candidates: cands, trying: 0 }, Action::Connect(c))
    }
}

/// Decides what to do with a destination name.
fn decide_domain(wl: &Whitelist, command: u8, name: String, port: u16) -> (r: (
    SessionState,
    Action,
))
    ensures
        r.0@ == spec_decide_domain(wl@, command, name@, port).0,
        r.1@ == spec_decide_domain(wl@, command, name@, port).1,
{
    if command != CMD_CONNECT {
        return reply_fail(REPLY_COMMAND_NOT_SUPPORTED, SessionError::ProtocolViolation);
    }
    match parse_ip(name.as_str()) {
        Some(ip) => decide_ip(wl, command, ip, port),
        None => {
            if !wl.allows_domain(name.as_str()) {
                reply_fail(REPLY_NOT_ALLOWED, SessionError::PolicyDenied)
            } else {
                (SessionState::Resolving, Action::Resolve(name, port))
            }
        },
    }
}

/// Advances the session by one step: performs the protocol checks and the
/// policy decision for the given input and says what to do next.
pub fn step(state: SessionState, input: Input, wl: &Whitelist) -> (r: (SessionState, Action))
    ensures
        r.0@ == spec_step(state@, input@, wl@).0,
        r.1@ == spec_step(state@, input@, wl@).1,
{
    match (state, input) {
        (SessionState::Greeting, Input::Bytes(b)) => {
            if b.len() == 2 && b[0] == SOCKS_VERSION {
                let count = b[1];
                (SessionState::Methods { count }, Action::Read(count as usize))
            } else {
                fail_close()
            }
        },
        (SessionState::Methods { count }, Input::Bytes(b)) => {
            if b.len() == count as usize {
                let mut hs: Vec<u8> = Vec::new();
                hs.push(SOCKS_VERSION);
                hs.push(METHOD_NO_AUTH);
                proof {
                    assert(hs@ =~= spec_handshake_reply());
                }
                (SessionState::RequestHeader, Action::WriteRead(hs, 4))
            } else {
                fail_close()
            }
        },
        (SessionState::RequestHeader, Input::Bytes(b)) => {
            if b.len() == 4 && b[0] == SOCKS_VERSION {
                let command = b[1];
                let atyp = b[3];
                if atyp == ATYP_V4 {
                    (
                        SessionState::ReadingAddress { command, kind: AddrKind::V4 },
                        Action::Read(6),
                    )
                } else if atyp == ATYP_DOMAIN {
                    (SessionState::DomainLength { command }, Action::Read(1))
                } else if atyp == ATYP_V6 {
                    (
                        SessionState::ReadingAddress { command, kind: AddrKind::V6 },
                        Action::Read(18),
                    )
                } else {
                    fail_close()
                }
            } else {
                fail_close()
            }
        },
        (SessionState::DomainLength { command }, Input::Bytes(b)) => {
            if b.len() == 1 {
                let len = b[0];
                (
                    SessionState::ReadingAddress { command, kind: AddrKind::Domain { len } },
                    Action::Read(len as usize + 2),
                )
            } else {
                fail_close()
            }
        },
        (SessionState::ReadingAddress { command, kind }, Input::Bytes(b)) => {
            let alen: usize = match kind {
                AddrKind::V4 => 4,
                AddrKind::V6 => 16,
                AddrKind::Domain { len } => len as usize,
            };
            if b.len() == alen + 2 {
                let port = be_u16_at(&b, alen);
                match kind {
                    AddrKind::V4 => {
                        let ip = IpAddress::V4(be_u32(&b));
                        decide_ip(wl, command, ip, port)
                    },
                    AddrKind::V6 => {
                        let ip = IpAddress::V6(be_u128(&b));
                        decide_ip(wl, command, ip, port)
                    },
                    AddrKind::Domain { len } => {
                        let db = vec_prefix(&b, len as usize);
                        match decode_utf8_vec(db) {
                            Some(name) => decide_domain(wl, command, name, port),
                            None => fail_close(),
                        }
                    },
                }
            } else {
                fail_close()
            }
        },
        (SessionState::Resolving, Input::Resolved(cands)) => {
            if cands.len() == 0 {
                reply_fail(REPLY_HOST_UNREACHABLE, SessionError::ResolutionFailed)
            } else {
                let c = cands[0];
                (SessionState::Connecting { candidates: cands, trying: 0 }, Action::Connect(c))
            }
        },
        (SessionState::Connecting { candidates: _, trying: _ }, Input::ConnectSucceeded) => {
            (SessionState::Relaying, Action::WriteRelay(encode_reply(REPLY_SUCCEEDED)))
        },
        (SessionState::Connecting { candidates, trying }, Input::ConnectFailed) => {
            if trying < candidates.len() && candidates.len() - trying > 1 {
                let next = trying + 1;
                let c = candidates[next];
                (
                    SessionState::Connecting { candidates, trying: next },
                    Action::Connect(c),
                )
            } else {
                reply_fail(REPLY_CONNECTION_REFUSED, SessionError::UpstreamUnreachable)
            }
        },
        _ => fail_close(),
    }
}

} // verus!

