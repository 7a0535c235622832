use tunnix::http_proxy::{
    parse_authority, parse_head, parse_head_text, parse_http_uri, plan, HeadReader, HeadStep,
    HttpProxyError, Plan, BAD_GATEWAY, ESTABLISHED, MAX_HEAD,
};
use tunnix::proxy::{detect, unknown_protocol_message, ProxyProtocol};
use tunnix::socks5::{connect_reply, Phase, Step};

fn read_head(bytes: &[u8]) -> (Vec<u8>, HeadStep) {
    let mut reader = HeadReader::new();
    for b in bytes {
        let step = reader.push(*b);
        if step != HeadStep::More {
            return (reader.into_bytes(), step);
        }
    }
    (reader.into_bytes(), HeadStep::More)
}

#[test]
fn http_socks5_and_connect_share_the_rama_listener() {
    let target_port: u16 = 34567;

    // Plain HTTP: the request goes on with its path, its header lines as they were.
    let http = format!(
        "GET http://127.0.0.1:{target_port}/plain HTTP/1.1\r\nHost: 127.0.0.1:{target_port}\r\nX-MiXeD: one\r\nx-second: middle\r\nX-MiXeD: two\r\nConnection: close\r\n\r\n"
    );
    assert_eq!(detect(http.as_bytes()[0]), ProxyProtocol::Http);
    let (head, step) = read_head(http.as_bytes());
    assert_eq!(step, HeadStep::Complete);
    match plan(&parse_head(head).unwrap()).unwrap() {
        Plan::Forward { host, port, request } => {
            assert_eq!((host.as_str(), port), ("127.0.0.1", target_port));
            let request = String::from_utf8(request).expect("utf-8 request");
            let custom_headers = request
                .lines()
                .filter(|line| line.starts_with("X-MiXeD:") || line.starts_with("x-second:"))
                .collect::<Vec<_>>();
            assert_eq!(
                custom_headers,
                ["X-MiXeD: one", "x-second: middle", "X-MiXeD: two"]
            );
            let path = request
                .lines()
                .next()
                .and_then(|line| line.split_whitespace().nth(1))
                .expect("request path");
            assert_eq!(format!("target:{path}"), "target:/plain");
            assert!(!request.contains("Connection"));
        }
        other => panic!("{:?}", other),
    }

    // SOCKS5.
    let mut socks = vec![5, 1, 0];
    assert_eq!(detect(socks[0]), ProxyProtocol::Socks5);
    socks.extend_from_slice(&[5, 1, 0, 1, 127, 0, 0, 1]);
    socks.extend_from_slice(&target_port.to_be_bytes());
    let mut rest = &socks[..];
    let mut phase = Phase::Greeting;
    let mut auth = Vec::new();
    let target = loop {
        let (now, later) = rest.split_at(phase.wants());
        rest = later;
        match phase.feed(now) {
            Step::Next { phase: next, reply } => {
                auth.extend(reply);
                phase = next;
            }
            Step::Target { host, port } => break (host, port),
            Step::Refused { error, .. } => panic!("{:?}", error),
        }
    };
    assert_eq!(auth, [5, 0]);
    assert_eq!(target, ("127.0.0.1".to_string(), target_port));
    assert_eq!(&connect_reply(true)[..2], &[5, 0]);

    // CONNECT.
    let connect = format!(
        "CONNECT 127.0.0.1:{target_port} HTTP/1.1\r\nHost: 127.0.0.1:{target_port}\r\n\r\n"
    );
    let (head, _) = read_head(connect.as_bytes());
    match plan(&parse_head(head).unwrap()).unwrap() {
        Plan::Connect { host, port } => assert_eq!((host.as_str(), port), ("127.0.0.1", target_port)),
        other => panic!("{:?}", other),
    }
    assert!(ESTABLISHED.starts_with("HTTP/1.1 200"), "{ESTABLISHED}");
}

#[test]
fn protocols_are_told_by_their_first_byte() {
    assert_eq!(detect(5), ProxyProtocol::Socks5);
    for b in [b'A', b'Z', b'a', b'z'] {
        assert_eq!(detect(b), ProxyProtocol::Http);
    }
    for b in [0u8, 4, b'@', b'[', b'`', b'{', 255] {
        assert_eq!(detect(b), ProxyProtocol::Unknown(b));
    }
    assert_eq!(unknown_protocol_message(0x0a), "Unknown protocol (first byte: 0x0a)");
}

#[test]
fn heads_end_at_the_empty_line() {
    let (head, step) = read_head(b"GET / HTTP/1.1\r\n\r\nbody");
    assert_eq!(step, HeadStep::Complete);
    assert_eq!(head, b"GET / HTTP/1.1\r\n\r\n");
    assert_eq!(read_head(b"GET / HTTP/1.1\r\n").1, HeadStep::More);
    assert_eq!(read_head(&vec![b'a'; MAX_HEAD]).1, HeadStep::More);
    let (large, step) = read_head(&vec![b'a'; MAX_HEAD + 9]);
    assert_eq!((large.len(), step), (MAX_HEAD + 1, HeadStep::TooLarge));
    let mut longest = vec![b'a'; MAX_HEAD - 3];
    longest.extend_from_slice(b"\r\n\r\n");
    assert_eq!(read_head(&longest).1, HeadStep::Complete);
}

#[test]
fn heads_are_taken_apart() {
    let head = parse_head(b"GET http://h/ HTTP/1.0\r\nA: 1\r\n\r\nB: 2\r\n\r\n".to_vec()).unwrap();
    assert_eq!(head.method, "GET");
    assert_eq!(head.uri, "http://h/");
    assert_eq!(head.version, "HTTP/1.0");
    assert_eq!(head.headers, ["A: 1", "B: 2"]);
    let short = parse_head_text("GET /x").unwrap();
    assert_eq!((short.uri.as_str(), short.version.as_str()), ("/x", "HTTP/1.1"));
    let odd = parse_head_text("GET /x HTTP/1.1 more\r\n\r\n").unwrap();
    assert_eq!(odd.version, "HTTP/1.1 more");
    assert!(matches!(parse_head(b"GET\r\n\r\n".to_vec()), Err(HttpProxyError::MissingUri)));
    assert!(matches!(parse_head(vec![0xff]), Err(HttpProxyError::NotUtf8)));
    assert!(parse_head_text("").is_none());
}

#[test]
fn authorities() {
    assert_eq!(parse_authority("h:8443").unwrap(), ("h".to_string(), 8443));
    assert_eq!(parse_authority("h").unwrap(), ("h".to_string(), 443));
    assert_eq!(parse_authority("[::1]:80").unwrap(), ("[::1]".to_string(), 80));
    assert_eq!(parse_authority("h:+80").unwrap(), ("h".to_string(), 80));
    for (raw, port) in [("h:", ""), ("h:65536", "65536"), ("h:x", "x"), ("h:-1", "-1")] {
        let err = parse_authority(raw).unwrap_err();
        assert!(matches!(&err, HttpProxyError::InvalidAuthorityPort(p) if p == port));
        assert_eq!(err.message(), format!("Invalid port in CONNECT authority: {}", port));
    }
}

#[test]
fn addresses() {
    let parsed = |s: &str| {
        let (h, p, path) = parse_http_uri(s).unwrap();
        format!("{} {} {}", h, p, path)
    };
    assert_eq!(parsed("http://h:81/a/b?c"), "h 81 /a/b?c");
    assert_eq!(parsed("http://h"), "h 80 /");
    assert_eq!(parsed("https://h/x"), "h 443 /x");
    assert_eq!(parsed("h:9/x"), "h 9 /x");
    assert_eq!(parsed("/x"), " 80 /x");
    let err = parse_http_uri("http://h:x/y:1").unwrap_err();
    assert!(matches!(&err, HttpProxyError::InvalidUriPort(p) if p == "x"));
    assert_eq!(err.message(), "Invalid port in URI: x");
}

#[test]
fn requests_are_rewritten_for_the_origin() {
    let head = parse_head_text("POST http://h:8/p?q HTTP/1.1\r\nHost: h\r\nA: 1\r\n\r\n").unwrap();
    match plan(&head).unwrap() {
        Plan::Forward { host, port, request } => {
            assert_eq!((host.as_str(), port), ("h", 8));
            assert_eq!(request, b"POST /p?q HTTP/1.1\r\nHost: h\r\nA: 1\r\n\r\n");
        }
        other => panic!("{:?}", other),
    }
    let connect = parse_head_text("connect h HTTP/1.1\r\n\r\n").unwrap();
    assert!(matches!(plan(&connect), Ok(Plan::Connect { port: 443, .. })));
    let bad = parse_head_text("CONNECT h:y HTTP/1.1\r\n\r\n").unwrap();
    assert!(matches!(plan(&bad), Err(HttpProxyError::InvalidAuthorityPort(_))));
    let bad = parse_head_text("GET http://h:y/ HTTP/1.1\r\n\r\n").unwrap();
    assert!(matches!(plan(&bad), Err(HttpProxyError::InvalidUriPort(_))));
}

#[test]
fn what_concerns_the_proxy_alone_does_not_go_on() {
    let head = parse_head_text(concat_lines(&[
        "POST http://h/p HTTP/1.1",
        "Host: h",
        "Connection: keep-alive",
        "KEEP-ALIVE: timeout=5",
        "Proxy-Connection: keep-alive",
        "Proxy-Authorization: Basic x",
        "proxy-authenticate: Basic",
        "TE: trailers",
        "Trailer: X-Sum",
        "Upgrade: h2c",
        "X-Own: 1",
        "Connections: 2",
        "Te-x: 3",
        "Transfer-Encoding: chunked",
        "no colon",
    ]).as_str())
    .unwrap();
    assert_eq!(head.headers.len(), 14);
    match plan(&head).unwrap() {
        Plan::Forward { request, .. } => assert_eq!(
            String::from_utf8(request).unwrap(),
            "POST /p HTTP/1.1\r\nHost: h\r\nX-Own: 1\r\nConnections: 2\r\nTe-x: 3\r\n\
             Transfer-Encoding: chunked\r\nno colon\r\n\r\n"
        ),
        other => panic!("{:?}", other),
    }
}

fn concat_lines(lines: &[&str]) -> String {
    let mut text = lines.join("\r\n");
    text.push_str("\r\n\r\n");
    text
}

#[test]
fn proxy_errors_speak() {
    assert_eq!(HttpProxyError::HeadersTooLarge.message(), "HTTP headers too large");
    assert_eq!(HttpProxyError::NotUtf8.message(), "Non-UTF-8 in HTTP headers");
    assert_eq!(HttpProxyError::MissingUri.message(), "Missing HTTP URI");
    assert_eq!(BAD_GATEWAY, "HTTP/1.1 502 Bad Gateway\r\n\r\n");
}
