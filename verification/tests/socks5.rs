use tunnix::socks5::{connect_reply, reply, Phase, Socks5Error, Step, MAX_STEPS};

enum End {
    Target(String, u16),
    Refused(Socks5Error),
    Unfinished,
}

/// Runs a handshake on what a client sends: what it is sent back, and the outcome.
fn handshake(sent: &[u8]) -> (Vec<u8>, End) {
    let mut phase = Phase::Greeting;
    let mut rest = sent;
    let mut back = Vec::new();
    for _ in 0..MAX_STEPS {
        let n = phase.wants();
        if rest.len() < n {
            return (back, End::Unfinished);
        }
        let (now, later) = rest.split_at(n);
        rest = later;
        match phase.feed(now) {
            Step::Next { phase: next, reply } => {
                back.extend(reply);
                phase = next;
            }
            Step::Target { host, port } => return (back, End::Target(host, port)),
            Step::Refused { reply, error } => {
                back.extend(reply);
                return (back, End::Refused(error));
            }
        }
    }
    (back, End::Unfinished)
}

#[test]
fn a_connection_to_an_ipv4_address() {
    let (back, end) = handshake(&[5, 1, 0, 5, 1, 0, 1, 127, 0, 0, 1, 0x1f, 0x90]);
    assert_eq!(back, [5, 0]);
    assert!(matches!(end, End::Target(host, 8080) if host == "127.0.0.1"));
}

#[test]
fn a_connection_to_a_name() {
    let mut sent = vec![5, 3, 2, 0, 1, 5, 1, 0, 3, 11];
    sent.extend_from_slice(b"example.com");
    sent.extend_from_slice(&[1, 187]);
    // What follows the handshake does not matter.
    sent.extend_from_slice(b"GET /");
    let (back, end) = handshake(&sent);
    assert_eq!(back, [5, 0]);
    assert!(matches!(end, End::Target(host, 443) if host == "example.com"));
}

#[test]
fn a_connection_to_an_ipv6_address() {
    let mut sent = vec![5, 1, 0, 5, 1, 0, 4];
    sent.extend_from_slice(&[0x20, 0x01, 0x0d, 0xb8, 0, 0, 0, 0, 0, 0, 0, 0, 0, 0, 0, 1]);
    sent.extend_from_slice(&[0, 80]);
    let (_, end) = handshake(&sent);
    assert!(matches!(
        end,
        End::Target(host, 80) if host == "2001:0db8:0000:0000:0000:0000:0000:0001"
    ));
}

#[test]
fn refusals() {
    let refused = |sent: &[u8]| match handshake(sent) {
        (back, End::Refused(error)) => (back, error),
        _ => panic!("not refused"),
    };
    assert_eq!(refused(&[4, 1]), (vec![], Socks5Error::NotSocks5(4)));
    assert_eq!(refused(&[5, 2, 1, 2]), (vec![5, 0xff], Socks5Error::NoAcceptableAuth));
    assert_eq!(refused(&[5, 0]), (vec![5, 0xff], Socks5Error::NoAcceptableAuth));
    assert_eq!(
        refused(&[5, 1, 0, 4, 1, 0, 1]),
        (vec![5, 0], Socks5Error::InvalidRequestVersion)
    );
    assert_eq!(
        refused(&[5, 1, 0, 5, 2, 0, 1]),
        (vec![5, 0, 5, 7, 0, 1, 0, 0, 0, 0, 0, 0], Socks5Error::UnsupportedCommand(2))
    );
    assert_eq!(
        refused(&[5, 1, 0, 5, 1, 0, 9]),
        (vec![5, 0], Socks5Error::UnsupportedAddressType(9))
    );
    assert_eq!(
        refused(&[5, 1, 0, 5, 1, 0, 3, 1, 0xff]),
        (vec![5, 0], Socks5Error::DomainNotUtf8)
    );
    assert!(matches!(handshake(&[5]).1, End::Unfinished));
}

#[test]
fn replies() {
    assert_eq!(reply(7), vec![5, 7, 0, 1, 0, 0, 0, 0, 0, 0]);
    assert_eq!(connect_reply(true)[1], 0);
    assert_eq!(connect_reply(false)[1], 1);
}

#[test]
fn socks5_errors_speak() {
    assert_eq!(Socks5Error::NotSocks5(4).message(), "Not SOCKS5 protocol (got version 4)");
    assert_eq!(Socks5Error::NoAcceptableAuth.message(), "No acceptable auth method");
    assert_eq!(Socks5Error::InvalidRequestVersion.message(), "Invalid SOCKS5 request version");
    assert_eq!(Socks5Error::UnsupportedCommand(3).message(), "Unsupported SOCKS5 command: 3");
    assert_eq!(Socks5Error::UnsupportedAddressType(9).message(), "Unsupported address type: 9");
    assert_eq!(Socks5Error::DomainNotUtf8.message(), "Domain name is not UTF-8");
}
