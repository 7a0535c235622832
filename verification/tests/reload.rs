use std::sync::Arc;
use tunnix::config::{ClientConfig, ConfigError, ServerConfig};
use tunnix::crypto::Crypto;
use tunnix::reload::{
    after_parse, CliOverrides, ConfigWatch, HotClientConfig, HotServerConfig, ParseStep, PollNote,
};
use tunnix::tunnel::{stream_url, Tunnel};
use tunnix::uri::Uri;

fn no_flags() -> CliOverrides {
    CliOverrides {
        server_password: false,
        server_allow_exec: false,
        server_allow_transfer: false,
        client_password: false,
        client_headers: false,
        client_server_url: false,
    }
}

fn key(password: &str) -> Arc<Crypto> {
    Arc::new(Crypto::new(password).unwrap())
}

#[test]
fn a_file_is_read_when_it_changed() {
    let mut w = ConfigWatch::new(10);
    assert_eq!(w.poll(Some(10)), (PollNote::Quiet, false));
    assert_eq!(w.poll(Some(11)), (PollNote::Quiet, true));
    assert_eq!(w.poll(None), (PollNote::Missing, false));
    assert_eq!(w.poll(None), (PollNote::Quiet, false));
    assert_eq!(w.poll(Some(10)), (PollNote::Reappeared, false));
    assert_eq!(w.poll(Some(9)), (PollNote::Quiet, true));
}

#[test]
fn a_file_that_cannot_be_read_is_read_once_more() {
    assert_eq!(after_parse(false, true), ParseStep::Use);
    assert_eq!(after_parse(false, false), ParseStep::Retry);
    assert_eq!(after_parse(true, true), ParseStep::Use);
    assert_eq!(after_parse(true, false), ParseStep::Skip);
}

#[test]
fn a_new_password_needs_a_new_key() {
    let w = ConfigWatch::new(0);
    assert!(w.needs_key(false, "p"));
    assert!(!w.needs_key(false, ""));
    assert!(!w.needs_key(true, "p"));
}

fn server_file() -> ServerConfig {
    ServerConfig { password: "one".to_string(), ..ServerConfig::default() }
}

#[test]
fn the_server_takes_what_the_file_changes() {
    let start = HotServerConfig::from_config(&server_file(), Crypto::new("one").unwrap()).unwrap();
    assert!(start.path_prefix.is_none());
    assert_eq!(start.health_body, "ok");
    let mut w = ConfigWatch::new(1);
    let file = ServerConfig {
        password: "two".to_string(),
        path_prefix: Uri::parse("/p/").ok(),
        root_redirect: Uri::parse("/docs").ok(),
        root_html: Some("x.html".to_string()),
        health_response: "fine".to_string(),
        allow_exec: true,
        allow_transfer: true,
        ..ServerConfig::default()
    };
    let derived = key("two");
    let (next, changed) =
        w.reload_server(2, &start, &file, &no_flags(), Some(derived.clone())).unwrap();
    assert_eq!(
        changed,
        ["password", "path_prefix", "root_redirect", "root_html", "health_body", "allow_exec", "allow_transfer"]
    );
    assert!(Arc::ptr_eq(&next.crypto, &derived));
    assert_eq!(next.path_prefix.as_ref().unwrap().to_text(), "/p");
    assert_eq!(next.root_redirect.as_ref().unwrap().to_text(), "/docs");
    assert_eq!(next.root_html.as_deref(), Some("x.html"));
    assert_eq!(next.health_body, "fine");
    assert!(next.allow_exec && next.allow_transfer);

    // The same file again changes nothing, and its password is known.
    assert!(!w.needs_key(false, "two"));
    assert!(w.reload_server(3, &next, &file, &no_flags(), None).is_none());
    assert_eq!(w.poll(Some(3)), (PollNote::Quiet, false));
}

#[test]
fn the_command_line_wins() {
    let start = HotServerConfig::from_config(&server_file(), Crypto::new("one").unwrap()).unwrap();
    let fixed = CliOverrides {
        server_password: true,
        server_allow_exec: true,
        server_allow_transfer: true,
        ..no_flags()
    };
    let file = ServerConfig {
        password: "two".to_string(),
        allow_exec: true,
        allow_transfer: true,
        health_response: "new".to_string(),
        ..ServerConfig::default()
    };
    let mut w = ConfigWatch::new(1);
    let (next, changed) = w.reload_server(2, &start, &file, &fixed, Some(key("two"))).unwrap();
    assert_eq!(changed, ["health_body"]);
    assert!(Arc::ptr_eq(&next.crypto, &start.crypto));
    assert!(!next.allow_exec && !next.allow_transfer);
}

#[test]
fn what_cannot_be_used_is_ignored() {
    let file = ServerConfig { path_prefix: Uri::parse("/p").ok(), ..server_file() };
    let start = HotServerConfig::from_config(&file, Crypto::new("one").unwrap()).unwrap();
    let mut w = ConfigWatch::new(1);
    let bad = ServerConfig {
        path_prefix: Uri::parse("http://h/p").ok(),
        password: "two".to_string(),
        ..ServerConfig::default()
    };
    // The prefix is refused, and no key could be derived.
    assert!(w.reload_server(2, &start, &bad, &no_flags(), None).is_none());
    assert!(w.needs_key(false, "two"));

    let err = HotServerConfig::from_config(&bad, Crypto::new("one").unwrap()).err().unwrap();
    assert!(matches!(err, ConfigError::PrefixNotAPath));
}

fn client_file(url: &str) -> ClientConfig {
    ClientConfig {
        server_url: Uri::parse(url).ok(),
        password: String::new(),
        ..ClientConfig::default()
    }
}

fn client_start(url: &str) -> HotClientConfig {
    let file = client_file(url);
    let at = Uri::parse(url).unwrap();
    HotClientConfig::from_config(&file, &at, Crypto::new("test").unwrap()).unwrap()
}

#[test]
fn test_client_reconnects_on_server_url_change() {
    let port_a: u16 = 41001;
    let port_b: u16 = 41002;
    let fixed = CliOverrides { client_password: true, ..no_flags() };

    let now = client_start(&format!("http://127.0.0.1:{}", port_a));
    let mut tunnel: Tunnel<u8> = Tunnel::new("first".to_string());
    tunnel.register_connection(1, 0);
    let url = stream_url(&now.server_base_url, tunnel.session_id());
    assert!(
        url.contains(&format!("127.0.0.1:{}", port_a)),
        "expected client to connect to server A, got:\n{}",
        url
    );

    // Rewrite config pointing to server B
    let mut w = ConfigWatch::new(1);
    assert_eq!(w.poll(Some(2)), (PollNote::Quiet, true));
    let file = client_file(&format!("http://127.0.0.1:{}", port_b));
    let (next, changed) = w.reload_client(2, &now, &file, &fixed, None).unwrap();
    assert_eq!(changed, ["server_url"]);
    tunnel.rotate("second".to_string());
    let url = stream_url(&next.server_base_url, tunnel.session_id());
    assert!(
        url.contains(&format!("127.0.0.1:{}", port_b)),
        "expected client to eventually connect to server B:\n{}",
        url
    );
    assert_eq!(tunnel.connections(), 0);
    assert!(Arc::ptr_eq(&next.crypto, &now.crypto));
}

#[test]
fn the_client_takes_headers_and_keys() {
    let now = client_start("http://h/a/");
    assert_eq!(now.server_base_url.to_text(), "http://h/a");
    let file = ClientConfig {
        headers: vec![("A".to_string(), "1".to_string())],
        password: "new".to_string(),
        ..client_file("http://h/a")
    };
    let mut w = ConfigWatch::new(1);
    assert!(w.needs_key(false, "new"));
    let (next, changed) = w.reload_client(2, &now, &file, &no_flags(), Some(key("new"))).unwrap();
    assert_eq!(changed, ["password", "headers"]);
    assert_eq!(next.http_headers, file.headers);
    assert!(w.reload_client(3, &next, &file, &no_flags(), None).is_none());

    let fixed = CliOverrides { client_headers: true, client_password: true, ..no_flags() };
    let mut w = ConfigWatch::new(1);
    assert!(w.reload_client(2, &now, &file, &fixed, Some(key("new"))).is_none());
}

#[test]
fn a_server_from_the_command_line_stays() {
    let now = client_start("http://flag");
    let fixed = CliOverrides { client_server_url: true, ..no_flags() };
    let mut w = ConfigWatch::new(1);
    let file = client_file("http://file");
    assert!(w.reload_client(2, &now, &file, &fixed, None).is_none());
    let file = ClientConfig { headers: vec![("A".to_string(), "1".to_string())], ..file };
    let (next, changed) = w.reload_client(3, &now, &file, &fixed, None).unwrap();
    assert_eq!(changed, ["headers"]);
    assert_eq!(next.server_base_url.to_text(), "http://flag");
}

#[test]
fn a_client_keeps_its_server_without_a_better_one() {
    let now = client_start("http://h");
    let mut w = ConfigWatch::new(1);
    for url in ["/nowhere", "ftp://h", "http://h2?q"] {
        assert!(w.reload_client(2, &now, &client_file(url), &no_flags(), None).is_none());
    }
    let file = ClientConfig { server_url: None, ..client_file("http://h") };
    assert!(w.reload_client(2, &now, &file, &no_flags(), None).is_none());

    let at = Uri::parse("ftp://h").unwrap();
    let err = HotClientConfig::from_config(&file, &at, Crypto::new("x").unwrap()).err().unwrap();
    assert!(matches!(err, ConfigError::SchemeNotHttp(s) if s == "ftp"));
}
