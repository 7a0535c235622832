use tunnix::cli::{
    apply_client_flags, apply_server_flags, choose_command, global_config_path, log_level,
    parse_level, remote_command, resolve_config_path, set_cookie, split_paths, ClientFlags,
    CliError, LogLevel, ServerFlags,
};
use tunnix::config::{ClientConfig, ServerConfig};
use tunnix::uri::Uri;

fn some(s: &str) -> Option<String> {
    Some(s.to_string())
}

fn words(w: &[&str]) -> Vec<String> {
    w.iter().map(|s| s.to_string()).collect()
}

#[test]
fn the_users_file_is_below_the_config_home() {
    assert_eq!(
        global_config_path(some("/x"), some("/home/u")),
        some("/x/tunnix/config.toml")
    );
    assert_eq!(
        global_config_path(some("/x/"), None),
        some("/x/tunnix/config.toml")
    );
    assert_eq!(
        global_config_path(some(""), some("/home/u")),
        some("/home/u/.config/tunnix/config.toml")
    );
    assert_eq!(
        global_config_path(None, some("/home/u")),
        some("/home/u/.config/tunnix/config.toml")
    );
    assert_eq!(global_config_path(None, None), None);
    assert_eq!(global_config_path(some(""), None), None);
}

#[test]
fn the_file_that_was_named_comes_first() {
    assert_eq!(resolve_config_path(&some("a.toml"), true, some("/g")), some("a.toml"));
    assert_eq!(resolve_config_path(&None, true, some("/g")), some("config.toml"));
    assert_eq!(resolve_config_path(&None, false, some("/g")), some("/g"));
    assert_eq!(resolve_config_path(&None, false, None), None);
}

#[test]
fn log_levels() {
    assert_eq!(parse_level("TRACE"), LogLevel::Trace);
    assert_eq!(parse_level("debug"), LogLevel::Debug);
    assert_eq!(parse_level("info"), LogLevel::Info);
    assert_eq!(parse_level("Warn"), LogLevel::Warn);
    assert_eq!(parse_level("error"), LogLevel::Error);
    assert_eq!(parse_level("loud"), LogLevel::Info);
    assert_eq!(log_level(&some("debug"), true, "warn"), LogLevel::Debug);
    assert_eq!(log_level(&None, true, "warn"), LogLevel::Error);
    assert_eq!(log_level(&None, false, "warn"), LogLevel::Warn);
}

fn server_flags() -> ServerFlags {
    ServerFlags { listen: None, password: None, allow_exec: false, allow_transfer: false }
}

fn client_flags() -> ClientFlags {
    ClientFlags { server: None, password: None, local_addr: None, cookie: None }
}

#[test]
fn server_flags_override_the_file() {
    let file = ServerConfig { password: "file".to_string(), timeout: 7, ..ServerConfig::default() };
    let flags = ServerFlags {
        listen: some("1.2.3.4:5"),
        password: some("flag"),
        allow_exec: true,
        allow_transfer: false,
    };
    let (config, fixed) = apply_server_flags(file, flags).unwrap();
    assert_eq!(config.listen, "1.2.3.4:5");
    assert_eq!(config.password, "flag");
    assert!(config.allow_exec && !config.allow_transfer);
    assert_eq!(config.timeout, 7);
    assert!(fixed.server_password && fixed.server_allow_exec && !fixed.server_allow_transfer);
    assert!(!fixed.client_password && !fixed.client_headers && !fixed.client_server_url);

    let file = ServerConfig {
        password: "file".to_string(),
        allow_transfer: true,
        ..ServerConfig::default()
    };
    let (config, fixed) = apply_server_flags(file, server_flags()).unwrap();
    assert_eq!(config.password, "file");
    assert!(config.allow_transfer);
    assert!(!fixed.server_password && !fixed.server_allow_transfer);
}

#[test]
fn a_password_is_required() {
    let err = apply_server_flags(ServerConfig::default(), server_flags()).unwrap_err();
    assert_eq!(err, CliError::PasswordRequired);
    assert_eq!(
        err.message(),
        "Password is required. Set via --password, TUNNIX_PASSWORD env var, or config file."
    );
    let empty = ServerFlags { password: some(""), ..server_flags() };
    let file = ServerConfig { password: "file".to_string(), ..ServerConfig::default() };
    assert_eq!(apply_server_flags(file, empty).unwrap_err(), CliError::PasswordRequired);

    let flags = ClientFlags { server: Uri::parse("http://h").ok(), ..client_flags() };
    let err = apply_client_flags(ClientConfig::default(), flags).unwrap_err();
    assert_eq!(err, CliError::PasswordRequired);
}

#[test]
fn a_server_url_is_required() {
    let flags = ClientFlags { password: some("p"), ..client_flags() };
    let err = apply_client_flags(ClientConfig::default(), flags).unwrap_err();
    assert_eq!(err, CliError::ServerUrlRequired);
    assert_eq!(err.message(), "Server URL is required. Set via --server or config file.");
}

#[test]
fn client_flags_override_the_file() {
    let file = ClientConfig {
        server_url: Uri::parse("http://file").ok(),
        password: "file".to_string(),
        headers: vec![
            ("cookie".to_string(), "old".to_string()),
            ("X-A".to_string(), "1".to_string()),
        ],
        reconnect_interval: 9,
        ..ClientConfig::default()
    };
    let flags = ClientFlags {
        server: Uri::parse("http://flag").ok(),
        password: some("flag"),
        local_addr: some("127.0.0.1:1"),
        cookie: some("new"),
    };
    let (config, fixed) = apply_client_flags(file, flags).unwrap();
    assert_eq!(config.server_url.unwrap().to_text(), "http://flag");
    assert_eq!(config.password, "flag");
    assert_eq!(config.local_addr, "127.0.0.1:1");
    assert_eq!(
        config.headers,
        vec![("X-A".to_string(), "1".to_string()), ("Cookie".to_string(), "new".to_string())]
    );
    assert_eq!(config.reconnect_interval, 9);
    assert!(fixed.client_password && fixed.client_headers && fixed.client_server_url);
    assert!(!fixed.server_password);
}

#[test]
fn a_cookie_replaces_all_cookies() {
    let headers = vec![
        ("A".to_string(), "1".to_string()),
        ("Cookie".to_string(), "x".to_string()),
        ("B".to_string(), "2".to_string()),
        ("COOKIE".to_string(), "y".to_string()),
        ("A".to_string(), "3".to_string()),
    ];
    let names: Vec<(String, String)> = set_cookie(headers, "z".to_string());
    let flat: Vec<String> = names.iter().map(|(n, v)| format!("{}={}", n, v)).collect();
    assert_eq!(flat, ["A=1", "B=2", "A=3", "Cookie=z"]);
}

#[test]
fn commands_are_quoted_where_it_matters() {
    assert_eq!(remote_command(&words(&[])), None);
    assert_eq!(remote_command(&words(&["echo $HOME && id"])), some("echo $HOME && id"));
    assert_eq!(remote_command(&words(&["echo", "a b", "c"])), some("echo 'a b' c"));
    // A word with the character 0 cannot be quoted.
    assert_eq!(remote_command(&words(&["echo", "a\0b"])), some("echo a\0b"));
    assert_eq!(choose_command(&words(&["a", "b"]), some("quoted")), some("quoted"));
    assert_eq!(choose_command(&words(&["a", "b", "c"]), None), some("a b c"));
    assert_eq!(choose_command(&words(&["a"]), some("quoted")), some("a"));
}

#[test]
fn the_last_path_is_the_destination() {
    let (sources, dest) = split_paths(words(&["a", "b", "c"])).unwrap();
    assert_eq!(sources, words(&["a", "b"]));
    assert_eq!(dest, "c");
    assert!(split_paths(vec![]).is_none());
}
