use tunnix::config::{
    default_health_expected, default_health_response, default_listen_addr, default_local_addr,
    default_log_level, default_max_connections, default_reconnect_interval, default_timeout,
    normalize_path_prefix, normalize_server_url, ClientConfig, Config, ConfigError, LoggingConfig,
    ServerConfig,
};
use tunnix::uri::Uri;

fn section(file: &str, name: &str) -> toml::Value {
    let value: toml::Value = toml::from_str(file).unwrap();
    value.get(name).unwrap().clone()
}

fn uri_at(section: &toml::Value, key: &str) -> Option<Uri> {
    section.get(key).map(|v| Uri::parse(v.as_str().unwrap()).unwrap())
}

#[test]
fn client_server_url_deserializes_as_a_typed_uri() {
    let client = section(
        r#"
        [client]
        server_url = "https://example.com/tunnix/"
        "#,
        "client",
    );
    let config = ClientConfig { server_url: uri_at(&client, "server_url"), ..ClientConfig::default() };
    let url = normalize_server_url(config.server_url.as_ref().unwrap()).unwrap();
    assert_eq!(url.to_text(), "https://example.com/tunnix");
}

#[test]
fn server_url_rejects_non_http_and_ambiguous_suffixes() {
    for raw in [
        "socks5://example.com",
        "https://example.com/path?query=1",
        "https://example.com/path#fragment",
    ] {
        assert!(normalize_server_url(&Uri::parse(raw).unwrap()).is_err());
    }
}

#[test]
fn server_paths_deserialize_and_normalize_as_typed_uris() {
    let server = section(
        r#"
        [server]
        path_prefix = "/tunnix/"
        root_redirect = "/docs"
        "#,
        "server",
    );
    let config = ServerConfig {
        path_prefix: uri_at(&server, "path_prefix"),
        root_redirect: uri_at(&server, "root_redirect"),
        ..ServerConfig::default()
    };

    let prefix = normalize_path_prefix(config.path_prefix.as_ref())
        .unwrap()
        .unwrap();
    assert_eq!(prefix.to_text(), "/tunnix");
    assert_eq!(config.root_redirect.unwrap().to_text(), "/docs");
    assert!(
        normalize_path_prefix(Some(&Uri::parse("https://example.com/tunnix").unwrap()))
            .is_err()
    );
}

#[test]
fn client_headers_preserve_order_and_repeated_field_lines() {
    let client = section(
        r#"
        [client]
        headers = [
            ["X-Trace", "first"],
            ["Cookie", "session=abc"],
            ["X-Trace", "second"],
        ]
        "#,
        "client",
    );
    let headers = client
        .get("headers")
        .and_then(|h| h.as_array())
        .unwrap()
        .iter()
        .map(|pair| {
            let pair = pair.as_array().unwrap();
            (pair[0].as_str().unwrap().to_owned(), pair[1].as_str().unwrap().to_owned())
        })
        .collect::<Vec<_>>();
    let config = ClientConfig { headers, ..ClientConfig::default() };

    assert_eq!(
        config.headers,
        [
            ("X-Trace".to_owned(), "first".to_owned()),
            ("Cookie".to_owned(), "session=abc".to_owned()),
            ("X-Trace".to_owned(), "second".to_owned()),
        ]
    );
}

#[test]
fn defaults() {
    assert_eq!(default_listen_addr(), "0.0.0.0:8080");
    assert_eq!(default_local_addr(), "127.0.0.1:7890");
    assert_eq!(default_max_connections(), 1000);
    assert_eq!(default_timeout(), 300);
    assert_eq!(default_reconnect_interval(), 5);
    assert_eq!(default_health_response(), "ok");
    assert_eq!(default_health_expected(), "ok");
    assert_eq!(default_log_level(), "info");

    let config = Config::default();
    assert_eq!(
        config,
        Config {
            server: ServerConfig {
                listen: "0.0.0.0:8080".to_string(),
                password: String::new(),
                max_connections: 1000,
                timeout: 300,
                path_prefix: None,
                root_redirect: None,
                root_html: None,
                health_response: "ok".to_string(),
                allow_exec: false,
                allow_transfer: false,
            },
            client: ClientConfig {
                server_url: None,
                password: String::new(),
                local_addr: "127.0.0.1:7890".to_string(),
                headers: vec![],
                reconnect_interval: 5,
                max_reconnect_attempts: None,
                health_expected: "ok".to_string(),
            },
            logging: LoggingConfig { level: "info".to_string() },
        }
    );
}

#[test]
fn server_urls_are_refused_for_a_reason() {
    let refused = |raw: &str| normalize_server_url(&Uri::parse(raw).unwrap()).unwrap_err();
    let scheme = refused("socks5://example.com");
    assert!(matches!(&scheme, ConfigError::SchemeNotHttp(s) if s == "socks5"));
    assert_eq!(scheme.message(), "Server URL must use http or https, not socks5");
    let relative = refused("/tunnix");
    assert!(matches!(relative, ConfigError::NotAbsolute));
    assert_eq!(
        relative.message(),
        "Server URL must be absolute and include http:// or https://"
    );
    for raw in ["http:/tunnix", "http:///tunnix", "http://", "http://:80/", "http://me@:80", "http://me@"] {
        let hostless = refused(raw);
        assert!(matches!(hostless, ConfigError::NoHost));
        assert_eq!(hostless.message(), "Server URL must include a host");
    }
    for raw in ["http://h/?", "http://h#"] {
        let suffix = refused(raw);
        assert!(matches!(suffix, ConfigError::QueryOrFragment));
        assert_eq!(suffix.message(), "Server URL cannot include a query or fragment");
    }
}

#[test]
fn server_urls_are_normalized_once_and_for_all() {
    for (raw, normal) in [
        ("HTTPS://Example.com/a//", "HTTPS://Example.com/a"),
        ("http://h", "http://h"),
        ("http://h/", "http://h/"),
        ("http://h//", "http://h/"),
        ("http://h//a/", "http://h//a"),
        ("http://me@[::1]:80/", "http://me@[::1]:80/"),
    ] {
        let once = normalize_server_url(&Uri::parse(raw).unwrap()).unwrap();
        assert_eq!(once.to_text(), normal);
        assert_eq!(normalize_server_url(&once).unwrap().to_text(), normal);
    }
}

#[test]
fn prefixes_are_normalized_or_refused() {
    let prefix = |raw: &str| normalize_path_prefix(Some(&Uri::parse(raw).unwrap()));
    assert!(normalize_path_prefix(None).unwrap().is_none());
    assert!(prefix("/").unwrap().is_none());
    assert!(prefix("//").unwrap().is_none());
    assert_eq!(prefix("/a/b//").unwrap().unwrap().to_text(), "/a/b");
    for raw in ["http://h/a", "/a?q", "/a#f", "x:a"] {
        let err = prefix(raw).unwrap_err();
        assert!(matches!(err, ConfigError::PrefixNotAPath));
        assert_eq!(err.message(), "Path prefix must contain only an absolute path");
    }
    for path in ["tunnix", "tunnix/"] {
        let path = path.to_string();
        let bare = Uri { scheme: None, authority: None, path, query: None, fragment: None };
        let err = normalize_path_prefix(Some(&bare)).unwrap_err();
        assert!(matches!(err, ConfigError::PrefixNotAbsolute));
        assert_eq!(err.message(), "Path prefix must start with /");
    }
}
