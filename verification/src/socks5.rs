//! The SOCKS5 side of the local proxy: the handshake, as a machine that says how many
//! bytes it needs next and what to send back.

use crate::text;
use vstd::prelude::*;

verus! {

broadcast use vstd::seq::group_seq_axioms;

pub const SOCKS5_VERSION: u8 = 0x05;

pub const SOCKS5_AUTH_NONE: u8 = 0x00;

pub const SOCKS5_AUTH_REFUSED: u8 = 0xff;

pub const SOCKS5_CMD_CONNECT: u8 = 0x01;

pub const SOCKS5_ATYP_IPV4: u8 = 0x01;

pub const SOCKS5_ATYP_DOMAIN: u8 = 0x03;

pub const SOCKS5_ATYP_IPV6: u8 = 0x04;

pub const SOCKS5_REP_SUCCESS: u8 = 0x00;

pub const SOCKS5_REP_GENERAL_FAILURE: u8 = 0x01;

pub const SOCKS5_REP_CMD_NOT_SUPPORTED: u8 = 0x07;

/// Why a handshake was refused.
#[derive(Debug, Clone, Copy, PartialEq, Eq, Structural)]
pub enum Socks5Error {
    NotSocks5(u8),
    NoAcceptableAuth,
    InvalidRequestVersion,
    UnsupportedCommand(u8),
    UnsupportedAddressType(u8),
    DomainNotUtf8,
}

impl Socks5Error {
    /// What the error says to a user.
    pub open spec fn text(&self) -> Seq<char> {
        match *self {
            Socks5Error::NotSocks5(v) => "Not SOCKS5 protocol (got version "@ + text::decimal(
                v as nat,
            ) + ")"@,
            Socks5Error::NoAcceptableAuth => "No acceptable auth method"@,
            Socks5Error::InvalidRequestVersion => "Invalid SOCKS5 request version"@,
            Socks5Error::UnsupportedCommand(c) => "Unsupported SOCKS5 command: "@ + text::decimal(
                c as nat,
            ),
            Socks5Error::UnsupportedAddressType(t) => "Unsupported address type: "@
                + text::decimal(t as nat),
            Socks5Error::DomainNotUtf8 => "Domain name is not UTF-8"@,
        }
    }

    /// What the error says to a user.
    pub fn message(&self) -> (r: String)
        ensures
            r@ == self.text(),
    {
        match self {
            Socks5Error::NotSocks5(v) => String::from_str(
                "Not SOCKS5 protocol (got version ",
            ).concat(text::decimal_of(*v as u64).as_str()).concat(")"),
            Socks5Error::NoAcceptableAuth => String::from_str("No acceptable auth method"),
            Socks5Error::InvalidRequestVersion => String::from_str(
                "Invalid SOCKS5 request version",
            ),
            Socks5Error::UnsupportedCommand(c) => String::from_str(
                "Unsupported SOCKS5 command: ",
            ).concat(text::decimal_of(*c as u64).as_str()),
            Socks5Error::UnsupportedAddressType(t) => String::from_str(
                "Unsupported address type: ",
            ).concat(text::decimal_of(*t as u64).as_str()),
            Socks5Error::DomainNotUtf8 => String::from_str("Domain name is not UTF-8"),
        }
    }
}

/// What is read next.
#[derive(Debug)]
pub enum Phase {
    /// Version and number of authentication methods.
    Greeting,
    /// That many authentication methods.
    Methods(u8),
    /// Version, command, a reserved byte and the address type.
    Request,
    /// Four bytes of address.
    Ipv4,
    /// The length of a domain name.
    DomainLength,
    /// A domain name of that length.
    Domain(u8),
    /// Sixteen bytes of address.
    Ipv6,
    /// The port, for this host.
    Port(String),
}

/// What is read next, with the host as text.
#[verifier::ext_equal]
pub enum PhaseView {
    Greeting,
    Methods(u8),
    Request,
    Ipv4,
    DomainLength,
    Domain(u8),
    Ipv6,
    Port(Seq<char>),
}

impl View for Phase {
    type V = PhaseView;

    open spec fn view(&self) -> PhaseView {
        match *self {
            Phase::Greeting => PhaseView::Greeting,
            Phase::Methods(n) => PhaseView::Methods(n),
            Phase::Request => PhaseView::Request,
            Phase::Ipv4 => PhaseView::Ipv4,
            Phase::DomainLength => PhaseView::DomainLength,
            Phase::Domain(n) => PhaseView::Domain(n),
            Phase::Ipv6 => PhaseView::Ipv6,
            Phase::Port(host) => PhaseView::Port(host@),
        }
    }
}

/// Where the handshake stands after a read.
#[derive(Debug)]
pub enum Step {
    /// Send the reply, if it is not empty, and go on.
    Next { phase: Phase, reply: Vec<u8> },
    /// The client wants a connection to this target.
    Target { host: String, port: u16 },
    /// Send the reply, if it is not empty, and give up.
    Refused { reply: Vec<u8>, error: Socks5Error },
}

/// Where the handshake stands after a read, with its contents.
#[allow(inconsistent_fields)]
#[verifier::ext_equal]
pub enum StepView {
    Next { phase: PhaseView, reply: Seq<u8> },
    Target { host: Seq<char>, port: u16 },
    Refused { reply: Seq<u8>, error: Socks5Error },
}

impl View for Step {
    type V = StepView;

    open spec fn view(&self) -> StepView {
        match *self {
            Step::Next { phase, reply } => StepView::Next { phase: phase@, reply: reply@ },
            Step::Target { host, port } => StepView::Target { host: host@, port },
            Step::Refused { reply, error } => StepView::Refused { reply: reply@, error },
        }
    }
}

/// A reply to a request, with an address of zeros: `0.0.0.0:0`.
pub open spec fn reply_bytes(code: u8) -> Seq<u8> {
    seq![SOCKS5_VERSION, code, 0u8, SOCKS5_ATYP_IPV4, 0u8, 0u8, 0u8, 0u8, 0u8, 0u8]
}

/// A reply to a request.
pub fn reply(code: u8) -> (r: Vec<u8>)
    ensures
        r@ == reply_bytes(code),
{
    let r: Vec<u8> = vec![
        SOCKS5_VERSION,
        code,
        0u8,
        SOCKS5_ATYP_IPV4,
        0u8,
        0u8,
        0u8,
        0u8,
        0u8,
        0u8,
    ];
    assert(r@ =~= reply_bytes(code));
    r
}

/// The reply once the tunnel has answered: success, or general failure.
pub fn connect_reply(established: bool) -> (r: Vec<u8>)
    ensures
        r@ == reply_bytes(
            if established {
                SOCKS5_REP_SUCCESS
            } else {
                SOCKS5_REP_GENERAL_FAILURE
            },
        ),
{
    if established {
        reply(SOCKS5_REP_SUCCESS)
    } else {
        reply(SOCKS5_REP_GENERAL_FAILURE)
    }
}

/// Four bytes as a dotted address.
pub open spec fn ipv4_text(b: Seq<u8>) -> Seq<char> {
    text::decimal(b[0] as nat) + "."@ + text::decimal(b[1] as nat) + "."@ + text::decimal(
        b[2] as nat,
    ) + "."@ + text::decimal(b[3] as nat)
}

/// Pairs of bytes in hexadecimal, four digits each, with colons between them.
pub open spec fn ipv6_text(b: Seq<u8>) -> Seq<char>
    decreases b.len(),
{
    if b.len() < 2 {
        Seq::empty()
    } else if b.len() < 4 {
        text::hex(b[0] as nat, 2) + text::hex(b[1] as nat, 2)
    } else {
        text::hex(b[0] as nat, 2) + text::hex(b[1] as nat, 2) + ":"@ + ipv6_text(b.skip(2))
    }
}

/// How many bytes a phase reads.
pub open spec fn wanted(p: PhaseView) -> nat {
    match p {
        PhaseView::Greeting => 2,
        PhaseView::Methods(n) => n as nat,
        PhaseView::Request => 4,
        PhaseView::Ipv4 => 4,
        PhaseView::DomainLength => 1,
        PhaseView::Domain(n) => n as nat,
        PhaseView::Ipv6 => 16,
        PhaseView::Port(_) => 2,
    }
}

/// The next phase, with nothing to send.
pub open spec fn silently(p: PhaseView) -> StepView {
    StepView::Next { phase: p, reply: Seq::empty() }
}

/// Where a phase leads with the bytes that it wanted.
pub open spec fn advance(p: PhaseView, b: Seq<u8>) -> StepView {
    match p {
        PhaseView::Greeting => if b[0] != SOCKS5_VERSION {
            StepView::Refused { reply: Seq::empty(), error: Socks5Error::NotSocks5(b[0]) }
        } else {
            silently(PhaseView::Methods(b[1]))
        },
        PhaseView::Methods(_) => if !b.contains(SOCKS5_AUTH_NONE) {
            StepView::Refused {
                reply: seq![SOCKS5_VERSION, SOCKS5_AUTH_REFUSED],
                error: Socks5Error::NoAcceptableAuth,
            }
        } else {
            StepView::Next {
                phase: PhaseView::Request,
                reply: seq![SOCKS5_VERSION, SOCKS5_AUTH_NONE],
            }
        },
        PhaseView::Request => if b[0] != SOCKS5_VERSION {
            StepView::Refused { reply: Seq::empty(), error: Socks5Error::InvalidRequestVersion }
        } else if b[1] != SOCKS5_CMD_CONNECT {
            StepView::Refused {
                reply: reply_bytes(SOCKS5_REP_CMD_NOT_SUPPORTED),
                error: Socks5Error::UnsupportedCommand(b[1]),
            }
        } else if b[3] == SOCKS5_ATYP_IPV4 {
            silently(PhaseView::Ipv4)
        } else if b[3] == SOCKS5_ATYP_DOMAIN {
            silently(PhaseView::DomainLength)
        } else if b[3] == SOCKS5_ATYP_IPV6 {
            silently(PhaseView::Ipv6)
        } else {
            StepView::Refused {
                reply: Seq::empty(),
                error: Socks5Error::UnsupportedAddressType(b[3]),
            }
        },
        PhaseView::Ipv4 => silently(PhaseView::Port(ipv4_text(b))),
        PhaseView::DomainLength => silently(PhaseView::Domain(b[0])),
        PhaseView::Domain(_) => if vstd::utf8::valid_utf8(b) {
            silently(PhaseView::Port(vstd::utf8::decode_utf8(b)))
        } else {
            StepView::Refused { reply: Seq::empty(), error: Socks5Error::DomainNotUtf8 }
        },
        PhaseView::Ipv6 => silently(PhaseView::Port(ipv6_text(b))),
        PhaseView::Port(host) => StepView::Target { host, port: (256 * b[0] + b[1]) as u16 },
    }
}

fn ipv4_of(b: &[u8]) -> (r: String)
    requires
        b@.len() == 4,
    ensures
        r@ == ipv4_text(b@),
{
    let mut out = text::decimal_of(b[0] as u64);
    out.append(".");
    out.append(text::decimal_of(b[1] as u64).as_str());
    out.append(".");
    out.append(text::decimal_of(b[2] as u64).as_str());
    out.append(".");
    out.append(text::decimal_of(b[3] as u64).as_str());
    out
}

fn ipv6_of(b: &[u8]) -> (r: String)
    ensures
        r@ == ipv6_text(b@),
{
    let mut out = String::new();
    let mut i: usize = 0;
    let size: usize = b.len();
    assert(b@.skip(0) =~= b@);
    assert(out@ + ipv6_text(b@) =~= ipv6_text(b@));
    while size - i >= 2
        invariant
            i <= size,
            size == b@.len(),
            out@ + ipv6_text(b@.skip(i as int)) == ipv6_text(b@),
        decreases size - i,
    {
        let ghost before = out@;
        let ghost rest = b@.skip(i as int);
        out.append(text::hex_of(b[i] as u64, 2).as_str());
        out.append(text::hex_of(b[i + 1] as u64, 2).as_str());
        if size - i >= 4 {
            out.append(":");
        }
        proof {
            assert(rest.skip(2) =~= b@.skip(i + 2));
            assert(rest[0] == b@[i as int] && rest[1] == b@[i + 1]);
            assert(out@ + ipv6_text(rest.skip(2)) =~= before + ipv6_text(rest));
        }
        i += 2;
    }
    assert(out@ =~= out@ + ipv6_text(b@.skip(i as int)));
    out
}

fn has_no_auth(methods: &[u8]) -> (r: bool)
    ensures
        r == methods@.contains(SOCKS5_AUTH_NONE),
{
    let mut i: usize = 0;
    while i < methods.len()
        invariant
            i <= methods@.len(),
            forall|j: int| 0 <= j < i ==> methods@[j] != SOCKS5_AUTH_NONE,
        decreases methods@.len() - i,
    {
        if methods[i] == SOCKS5_AUTH_NONE {
            return true;
        }
        i += 1;
    }
    false
}

impl Phase {
    /// How many bytes to read next.
    pub fn wants(&self) -> (r: usize)
        ensures
            r == wanted(self@),
    {
        match self {
            Phase::Greeting => 2,
            Phase::Methods(n) => *n as usize,
            Phase::Request => 4,
            Phase::Ipv4 => 4,
            Phase::DomainLength => 1,
            Phase::Domain(n) => *n as usize,
            Phase::Ipv6 => 16,
            Phase::Port(_) => 2,
        }
    }

    /// Takes the bytes that were wanted.
    pub fn feed(self, bytes: &[u8]) -> (r: Step)
        requires
            bytes@.len() == wanted(self@),
        ensures
            r@ == advance(self@, bytes@),
    {
        let nothing: Vec<u8> = Vec::new();
        assert(nothing@ =~= Seq::<u8>::empty());
        match self {
            Phase::Greeting => if bytes[0] != SOCKS5_VERSION {
                Step::Refused { reply: nothing, error: Socks5Error::NotSocks5(bytes[0]) }
            } else {
                Step::Next { phase: Phase::Methods(bytes[1]), reply: nothing }
            },
            Phase::Methods(_) => if !has_no_auth(bytes) {
                let reply: Vec<u8> = vec![SOCKS5_VERSION, SOCKS5_AUTH_REFUSED];
                assert(reply@ =~= seq![SOCKS5_VERSION, SOCKS5_AUTH_REFUSED]);
                Step::Refused { reply, error: Socks5Error::NoAcceptableAuth }
            } else {
                let reply: Vec<u8> = vec![SOCKS5_VERSION, SOCKS5_AUTH_NONE];
                assert(reply@ =~= seq![SOCKS5_VERSION, SOCKS5_AUTH_NONE]);
                Step::Next { phase: Phase::Request, reply }
            },
            Phase::Request => if bytes[0] != SOCKS5_VERSION {
                Step::Refused { reply: nothing, error: Socks5Error::InvalidRequestVersion }
            } else if bytes[1] != SOCKS5_CMD_CONNECT {
                Step::Refused {
                    reply: reply(SOCKS5_REP_CMD_NOT_SUPPORTED),
                    error: Socks5Error::UnsupportedCommand(bytes[1]),
                }
            } else if bytes[3] == SOCKS5_ATYP_IPV4 {
                Step::Next { phase: Phase::Ipv4, reply: nothing }
            } else if bytes[3] == SOCKS5_ATYP_DOMAIN {
                Step::Next { phase: Phase::DomainLength, reply: nothing }
            } else if bytes[3] == SOCKS5_ATYP_IPV6 {
                Step::Next { phase: Phase::Ipv6, reply: nothing }
            } else {
                Step::Refused {
                    reply: nothing,
                    error: Socks5Error::UnsupportedAddressType(bytes[3]),
                }
            },
            Phase::Ipv4 => Step::Next { phase: Phase::Port(ipv4_of(bytes)), reply: nothing },
            Phase::DomainLength => Step::Next { phase: Phase::Domain(bytes[0]), reply: nothing },
            Phase::Domain(_) => {
                let mut name: Vec<u8> = Vec::new();
                name.extend_from_slice(bytes);
                assert(name@ =~= bytes@);
                match text::utf8_text(name) {
                    Ok(host) => Step::Next { phase: Phase::Port(host), reply: nothing },
                    Err(_) => Step::Refused { reply: nothing, error: Socks5Error::DomainNotUtf8 },
                }
            },
            Phase::Ipv6 => Step::Next { phase: Phase::Port(ipv6_of(bytes)), reply: nothing },
            Phase::Port(host) => Step::Target {
                host,
                port: 256 * bytes[0] as u16 + bytes[1] as u16,
            },
        }
    }
}

// The handshake as a whole.

/// How a handshake ends on what the client sends: what was sent back, and the target
/// or the refusal; nothing where the client stops too early.
pub open spec fn handshake(p: PhaseView, sent: Seq<u8>, steps: nat) -> Option<
    (Seq<u8>, Result<(Seq<char>, u16), Socks5Error>),
>
    decreases steps,
{
    if steps == 0 || sent.len() < wanted(p) {
        None
    } else {
        match advance(p, sent.take(wanted(p) as int)) {
            StepView::Next { phase, reply } => match handshake(
                phase,
                sent.skip(wanted(p) as int),
                (steps - 1) as nat,
            ) {
                Some((more, end)) => Some((reply + more, end)),
                None => None,
            },
            StepView::Target { host, port } => Some((Seq::empty(), Ok((host, port)))),
            StepView::Refused { reply, error } => Some((reply, Err(error))),
        }
    }
}

/// The most steps that a handshake takes.
pub const MAX_STEPS: usize = 6;

/// A port in network byte order.
pub open spec fn port_bytes(port: u16) -> Seq<u8> {
    seq![(port / 256) as u8, (port % 256) as u8]
}

/// A client that offers to go without authentication and asks for a connection is
/// answered with the method and reaches the port phase with the address type that it
/// names, whatever other methods it offers.
proof fn greeting_leads_to_request(
    methods: Seq<u8>,
    reserved: u8,
    atyp: u8,
    rest: Seq<u8>,
    steps: nat,
)
    requires
        methods.len() <= 255,
        methods.contains(SOCKS5_AUTH_NONE),
        steps >= 3,
    ensures
        ({
            let sent = seq![SOCKS5_VERSION, methods.len() as u8] + methods + seq![
                SOCKS5_VERSION,
                SOCKS5_CMD_CONNECT,
                reserved,
                atyp,
            ] + rest;
            let head = seq![SOCKS5_VERSION, SOCKS5_CMD_CONNECT, reserved, atyp];
            handshake(PhaseView::Greeting, sent, steps) == match advance(
                PhaseView::Request,
                head,
            ) {
                StepView::Next { phase, reply } => match handshake(
                    phase,
                    rest,
                    (steps - 3) as nat,
                ) {
                    Some((more, end)) => Some(
                        (seq![SOCKS5_VERSION, SOCKS5_AUTH_NONE] + reply + more, end),
                    ),
                    None => None,
                },
                StepView::Refused { reply, error } => Some(
                    (seq![SOCKS5_VERSION, SOCKS5_AUTH_NONE] + reply, Err(error)),
                ),
                StepView::Target { .. } => None,
            }
        }),
{
    let greeting = seq![SOCKS5_VERSION, methods.len() as u8];
    let head = seq![SOCKS5_VERSION, SOCKS5_CMD_CONNECT, reserved, atyp];
    let sent = greeting + methods + head + rest;
    let after_greeting = methods + head + rest;
    let after_methods = head + rest;
    let n = methods.len() as int;
    assert(sent.take(2) =~= greeting);
    assert(sent.skip(2) =~= after_greeting);
    assert(after_greeting.take(n) =~= methods);
    assert(after_greeting.skip(n) =~= after_methods);
    assert(after_methods.take(4) =~= head);
    assert(after_methods.skip(4) =~= rest);
    let m = PhaseView::Methods(methods.len() as u8);
    let auth = seq![SOCKS5_VERSION, SOCKS5_AUTH_NONE];
    let h3 = handshake(PhaseView::Request, after_methods, (steps - 2) as nat);
    let h2 = handshake(m, after_greeting, (steps - 1) as nat);
    assert(advance(m, methods) == StepView::Next { phase: PhaseView::Request, reply: auth });
    assert(h2 == match h3 {
        Some((more, end)) => Some((auth + more, end)),
        None => None,
    });
    assert(advance(PhaseView::Greeting, greeting) == silently(m));
    assert(handshake(PhaseView::Greeting, sent, steps) == match h2 {
        Some((more, end)) => Some((Seq::<u8>::empty() + more, end)),
        None => None,
    });
    if let Some((more, _)) = h2 {
        assert(Seq::<u8>::empty() + more =~= more);
    }
    match advance(PhaseView::Request, head) {
        StepView::Next { phase, reply } => {
            match handshake(phase, rest, (steps - 3) as nat) {
                Some((more, end)) => {
                    assert(auth + (reply + more) =~= auth + reply + more);
                },
                None => {},
            }
        },
        _ => {},
    }
}

/// The last phase yields the host that was read before and the port.
proof fn port_phase(host: Seq<char>, port: u16, extra: Seq<u8>, steps: nat)
    requires
        steps >= 1,
    ensures
        handshake(PhaseView::Port(host), port_bytes(port) + extra, steps) == Some(
            (Seq::<u8>::empty(), Ok::<(Seq<char>, u16), Socks5Error>((host, port))),
        ),
{
    assert((port_bytes(port) + extra).take(2) =~= port_bytes(port));
}

/// A complete handshake for a domain name: whatever methods are offered beside
/// "none", the client is told to go without authentication, and the target is the
/// name and the port that it sent. Bytes behind the handshake do not matter.
pub proof fn domain_handshake(
    methods: Seq<u8>,
    reserved: u8,
    name: Seq<char>,
    port: u16,
    extra: Seq<u8>,
)
    requires
        methods.len() <= 255,
        methods.contains(SOCKS5_AUTH_NONE),
        vstd::utf8::encode_utf8(name).len() <= 255,
    ensures
        ({
            let bytes = vstd::utf8::encode_utf8(name);
            handshake(
                PhaseView::Greeting,
                seq![SOCKS5_VERSION, methods.len() as u8] + methods + seq![
                    SOCKS5_VERSION,
                    SOCKS5_CMD_CONNECT,
                    reserved,
                    SOCKS5_ATYP_DOMAIN,
                ] + (seq![bytes.len() as u8] + bytes + port_bytes(port) + extra),
                MAX_STEPS as nat,
            ) == Some(
                (
                    seq![SOCKS5_VERSION, SOCKS5_AUTH_NONE],
                    Ok::<(Seq<char>, u16), Socks5Error>((name, port)),
                ),
            )
        }),
{
    let bytes = vstd::utf8::encode_utf8(name);
    let rest = seq![bytes.len() as u8] + bytes + port_bytes(port) + extra;
    greeting_leads_to_request(methods, reserved, SOCKS5_ATYP_DOMAIN, rest, 6);
    vstd::utf8::encode_utf8_valid_utf8(name);
    vstd::utf8::encode_utf8_decode_utf8(name);
    assert(rest.take(1) =~= seq![bytes.len() as u8]);
    let tail = bytes + (port_bytes(port) + extra);
    assert(rest.skip(1) =~= tail);
    let n = bytes.len() as int;
    assert(tail.take(n) =~= bytes);
    assert(tail.skip(n) =~= port_bytes(port) + extra);
    port_phase(name, port, extra, 1);
    let d = PhaseView::Domain(bytes.len() as u8);
    let none = Seq::<u8>::empty();
    assert(none + none =~= none);
    assert(handshake(d, tail, 2) == Some(
        (none + none, Ok::<(Seq<char>, u16), Socks5Error>((name, port))),
    ));
    assert(handshake(PhaseView::DomainLength, rest, 3) == Some(
        (none + none, Ok::<(Seq<char>, u16), Socks5Error>((name, port))),
    ));
    assert(seq![SOCKS5_VERSION, SOCKS5_AUTH_NONE] + none + none =~= seq![
        SOCKS5_VERSION,
        SOCKS5_AUTH_NONE,
    ]);
}

/// A complete handshake for four or sixteen bytes of address: the target is the
/// address in text and the port.
pub proof fn address_handshake(
    methods: Seq<u8>,
    reserved: u8,
    address: Seq<u8>,
    port: u16,
    extra: Seq<u8>,
)
    requires
        methods.len() <= 255,
        methods.contains(SOCKS5_AUTH_NONE),
        address.len() == 4 || address.len() == 16,
    ensures
        ({
            let (atyp, host) = if address.len() == 4 {
                (SOCKS5_ATYP_IPV4, ipv4_text(address))
            } else {
                (SOCKS5_ATYP_IPV6, ipv6_text(address))
            };
            handshake(
                PhaseView::Greeting,
                seq![SOCKS5_VERSION, methods.len() as u8] + methods + seq![
                    SOCKS5_VERSION,
                    SOCKS5_CMD_CONNECT,
                    reserved,
                    atyp,
                ] + (address + port_bytes(port) + extra),
                MAX_STEPS as nat,
            ) == Some(
                (
                    seq![SOCKS5_VERSION, SOCKS5_AUTH_NONE],
                    Ok::<(Seq<char>, u16), Socks5Error>((host, port)),
                ),
            )
        }),
{
    let (atyp, host, p) = if address.len() == 4 {
        (SOCKS5_ATYP_IPV4, ipv4_text(address), PhaseView::Ipv4)
    } else {
        (SOCKS5_ATYP_IPV6, ipv6_text(address), PhaseView::Ipv6)
    };
    let rest = address + port_bytes(port) + extra;
    greeting_leads_to_request(methods, reserved, atyp, rest, 6);
    let n = address.len() as int;
    assert(rest.take(n) =~= address);
    assert(rest.skip(n) =~= port_bytes(port) + extra);
    port_phase(host, port, extra, 2);
    let none = Seq::<u8>::empty();
    assert(none + none =~= none);
    assert(handshake(p, rest, 3) == Some(
        (none + none, Ok::<(Seq<char>, u16), Socks5Error>((host, port))),
    ));
    assert(seq![SOCKS5_VERSION, SOCKS5_AUTH_NONE] + none + none =~= seq![
        SOCKS5_VERSION,
        SOCKS5_AUTH_NONE,
    ]);
}

/// A client that does not offer to go without authentication is refused with 0xff,
/// whatever it sends next.
pub proof fn authentication_is_refused(methods: Seq<u8>, rest: Seq<u8>)
    requires
        methods.len() <= 255,
        !methods.contains(SOCKS5_AUTH_NONE),
    ensures
        handshake(
            PhaseView::Greeting,
            seq![SOCKS5_VERSION, methods.len() as u8] + methods + rest,
            MAX_STEPS as nat,
        ) == Some(
            (
                seq![SOCKS5_VERSION, SOCKS5_AUTH_REFUSED],
                Err::<(Seq<char>, u16), Socks5Error>(Socks5Error::NoAcceptableAuth),
            ),
        ),
{
    let greeting = seq![SOCKS5_VERSION, methods.len() as u8];
    let sent = greeting + methods + rest;
    let n = methods.len() as int;
    assert(sent.take(2) =~= greeting);
    assert(sent.skip(2) =~= methods + rest);
    assert((methods + rest).take(n) =~= methods);
    let refused = seq![SOCKS5_VERSION, SOCKS5_AUTH_REFUSED];
    assert(Seq::<u8>::empty() + refused =~= refused);
    assert(handshake(PhaseView::Methods(methods.len() as u8), methods + rest, 5) == Some(
        (refused, Err::<(Seq<char>, u16), Socks5Error>(Socks5Error::NoAcceptableAuth)),
    ));
}

/// The text of a four-byte address reads back to it: split at its dots it has four parts,
/// and each is the decimal form of its byte.
pub proof fn ipv4_reads_back(b: Seq<u8>)
    requires
        b.len() == 4,
    ensures
        ({
            let parts = text::split(ipv4_text(b), '.');
            &&& parts.len() == 4
            &&& forall|i: int|
                0 <= i < 4 ==> {
                    &&& text::number(#[trigger] parts[i]) == Some(b[i] as nat)
                    &&& parts[i].len() > 1 ==> parts[i][0] != '0'
                    &&& parts[i][0] != '+'
                }
        }),
{
    reveal_strlit(".");
    let d0 = text::decimal(b[0] as nat);
    let d1 = text::decimal(b[1] as nat);
    let d2 = text::decimal(b[2] as nat);
    let d3 = text::decimal(b[3] as nat);
    text::decimal_stands_for_its_number(b[0] as nat);
    text::decimal_stands_for_its_number(b[1] as nat);
    text::decimal_stands_for_its_number(b[2] as nat);
    text::decimal_stands_for_its_number(b[3] as nat);
    let dot = seq!['.'];
    assert("."@ =~= dot);
    assert(ipv4_text(b) =~= d0 + dot + (d1 + dot + (d2 + dot + d3)));
    text::split_at_separator(d0, '.', d1 + dot + (d2 + dot + d3));
    text::split_at_separator(d1, '.', d2 + dot + d3);
    text::split_at_separator(d2, '.', d3);
    text::split_without_separator(d3, '.');
    let parts = text::split(ipv4_text(b), '.');
    assert(parts =~= seq![d0, d1, d2, d3]);
    assert(text::number(d0) == Some(b[0] as nat));
    assert(text::number(d1) == Some(b[1] as nat));
    assert(text::number(d2) == Some(b[2] as nat));
    assert(text::number(d3) == Some(b[3] as nat));
}

/// The text of an address of pairs of bytes reads back to it: split at its colons it has one
/// part per pair, and each is the number of the pair, the first byte counting more, in four
/// hexadecimal digits.
pub proof fn ipv6_reads_back(b: Seq<u8>)
    requires
        b.len() >= 2,
        b.len() % 2 == 0,
    ensures
        ({
            let parts = text::split(ipv6_text(b), ':');
            &&& 2 * parts.len() == b.len()
            &&& forall|i: int|
                0 <= i < parts.len() ==> {
                    &&& (#[trigger] parts[i]).len() == 4
                    &&& text::hex_value(parts[i]) == 256 * (b[2 * i] as nat) + b[2 * i + 1] as nat
                }
        }),
    decreases b.len(),
{
    reveal_strlit(":");
    let colon = seq![':'];
    assert(":"@ =~= colon);
    let h0 = text::hex(b[0] as nat, 2);
    let h1 = text::hex(b[1] as nat, 2);
    let group = h0 + h1;
    reveal_with_fuel(text::hex_range, 3);
    text::hex_stands_for_its_number(b[0] as nat, 2);
    text::hex_stands_for_its_number(b[1] as nat, 2);
    assert(text::hex_value(group) == 256 * (b[0] as nat) + b[1] as nat) by {
        assert(group.drop_last() =~= h0 + h1.drop_last());
        assert(group.drop_last().drop_last() =~= h0);
        assert(h1.drop_last().drop_last() =~= Seq::<char>::empty());
        reveal_with_fuel(text::hex_value, 3);
    }
    assert(!group.contains(':')) by {
        if group.contains(':') {
            let i = choose|i: int| 0 <= i < group.len() && group[i] == ':';
            if i < 2 {
                assert(group[i] == h0[i]);
            } else {
                assert(group[i] == h1[i - 2]);
            }
        }
    }
    let parts = text::split(ipv6_text(b), ':');
    if b.len() < 4 {
        text::split_without_separator(group, ':');
        assert(ipv6_text(b) =~= group);
        assert(parts =~= seq![group]);
    } else {
        let rest = b.skip(2);
        ipv6_reads_back(rest);
        assert(ipv6_text(b) =~= group + colon + ipv6_text(rest));
        text::split_at_separator(group, ':', ipv6_text(rest));
        let later = text::split(ipv6_text(rest), ':');
        assert(parts =~= seq![group] + later);
        assert forall|i: int| 0 <= i < parts.len() implies {
            &&& (#[trigger] parts[i]).len() == 4
            &&& text::hex_value(parts[i]) == 256 * (b[2 * i] as nat) + b[2 * i + 1] as nat
        } by {
            if i > 0 {
                assert(parts[i] == later[i - 1]);
                assert(rest[2 * (i - 1)] == b[2 * i]);
                assert(rest[2 * (i - 1) + 1] == b[2 * i + 1]);
            }
        }
    }
}

/// A port is read with its first byte counting more, and the host is the one that was read
/// before.
pub proof fn ports_are_in_network_order(host: Seq<char>, hi: u8, lo: u8)
    ensures
        ({
            let step = advance(PhaseView::Port(host), seq![hi, lo]);
            &&& step is Target
            &&& step->host == host
            &&& step->port as int == 256 * hi + lo
        }),
{
}

/// What a request leads to, byte by byte: one of another version ends the handshake, a
/// command other than CONNECT is answered with 7 and ends it, and an address of an unknown
/// kind ends it; the others are read on.
pub proof fn requests_are_judged_by_their_bytes(b: Seq<u8>)
    requires
        b.len() == 4,
    ensures
        ({
            let step = advance(PhaseView::Request, b);
            &&& b[0] != 5 ==> step == (StepView::Refused {
                reply: Seq::empty(),
                error: Socks5Error::InvalidRequestVersion,
            })
            &&& b[0] == 5 && b[1] != 1 ==> step == (StepView::Refused {
                reply: seq![5u8, 7, 0, 1, 0, 0, 0, 0, 0, 0],
                error: Socks5Error::UnsupportedCommand(b[1]),
            })
            &&& b[0] == 5 && b[1] == 1 && b[3] != 1 && b[3] != 3 && b[3] != 4 ==> step == (
            StepView::Refused {
                reply: Seq::empty(),
                error: Socks5Error::UnsupportedAddressType(b[3]),
            })
            &&& b[0] == 5 && b[1] == 1 && (b[3] == 1 || b[3] == 3 || b[3] == 4) ==> {
                &&& step is Next
                &&& step->Next_reply.len() == 0
                &&& b[3] == 1 ==> wanted(step->phase) == 4
                &&& b[3] == 4 ==> wanted(step->phase) == 16
                &&& b[3] == 3 ==> wanted(step->phase) == 1
            }
        }),
{
    assert(reply_bytes(7) =~= seq![5u8, 7, 0, 1, 0, 0, 0, 0, 0, 0]);
}

/// A client that does not speak version 5 is turned away without a word.
pub proof fn other_versions_are_turned_away(b: Seq<u8>, rest: Seq<u8>)
    requires
        b.len() == 2,
        b[0] != 5,
    ensures
        handshake(PhaseView::Greeting, b + rest, MAX_STEPS as nat) == Some(
            (
                Seq::<u8>::empty(),
                Err::<(Seq<char>, u16), Socks5Error>(Socks5Error::NotSocks5(b[0])),
            ),
        ),
{
    assert((b + rest).take(2) =~= b);
}

/// A domain name that is no text is refused; any other is the host, letter by letter.
pub proof fn names_are_text(b: Seq<u8>, n: u8)
    requires
        b.len() == n,
    ensures
        !vstd::utf8::valid_utf8(b) ==> advance(PhaseView::Domain(n), b) == (StepView::Refused {
            reply: Seq::empty(),
            error: Socks5Error::DomainNotUtf8,
        }),
        vstd::utf8::valid_utf8(b) ==> advance(PhaseView::Domain(n), b) == (StepView::Next {
            phase: PhaseView::Port(vstd::utf8::decode_utf8(b)),
            reply: Seq::empty(),
        }),
        wanted(PhaseView::Domain(n)) == n,
        wanted(PhaseView::Methods(n)) == n,
{
}

/// The answer to a request, byte by byte: success and failure differ in the second byte.
pub proof fn replies_are_ten_bytes(code: u8)
    ensures
        reply_bytes(code) == seq![5u8, code, 0, 1, 0, 0, 0, 0, 0, 0],
        SOCKS5_REP_SUCCESS == 0,
        SOCKS5_REP_GENERAL_FAILURE == 1,
        SOCKS5_VERSION == 5,
        SOCKS5_AUTH_NONE == 0,
        SOCKS5_AUTH_REFUSED == 255,
        SOCKS5_CMD_CONNECT == 1,
        SOCKS5_ATYP_IPV4 == 1,
        SOCKS5_ATYP_DOMAIN == 3,
        SOCKS5_ATYP_IPV6 == 4,
{
}

/// What a refused handshake is reported with.
pub proof fn handshake_errors_speak(n: u8)
    ensures
        Socks5Error::NotSocks5(n).text() == "Not SOCKS5 protocol (got version "@ + text::decimal(
            n as nat,
        ) + ")"@,
        Socks5Error::NoAcceptableAuth.text() == "No acceptable auth method"@,
        Socks5Error::InvalidRequestVersion.text() == "Invalid SOCKS5 request version"@,
        Socks5Error::UnsupportedCommand(n).text() == "Unsupported SOCKS5 command: "@
            + text::decimal(n as nat),
        Socks5Error::UnsupportedAddressType(n).text() == "Unsupported address type: "@
            + text::decimal(n as nat),
        Socks5Error::DomainNotUtf8.text() == "Domain name is not UTF-8"@,
{
}

} // verus!
