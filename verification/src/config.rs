//! The configuration of server and client, its defaults, and the rules for the
//! addresses in it.

use crate::text;
use crate::uri;
use crate::uri::{Uri, UriView};
use vstd::prelude::*;

verus! {

broadcast use vstd::seq::group_seq_axioms;

/// Everything a configuration file can say.
#[derive(Debug, PartialEq)]
pub struct Config {
    pub server: ServerConfig,
    pub client: ClientConfig,
    pub logging: LoggingConfig,
}

/// The part of the configuration that the server reads.
#[derive(Debug, PartialEq)]
pub struct ServerConfig {
    /// HTTP server socket address.
    pub listen: String,
    /// Password for encryption and authentication.
    pub password: String,
    /// Maximum concurrent connections.
    pub max_connections: usize,
    /// Connection timeout in seconds.
    pub timeout: u64,
    /// URI path prefix for all routes, such as `/tunnix`.
    pub path_prefix: Option<Uri>,
    /// 301 redirect for `GET /` and `GET /{prefix}`. Overrides `root_html`.
    pub root_redirect: Option<Uri>,
    /// Local HTML file to serve at `GET /` and `GET /{prefix}`.
    pub root_html: Option<String>,
    /// Response body for `GET /health`.
    pub health_response: String,
    /// Allow remote command execution. Disabled by default.
    pub allow_exec: bool,
    /// Allow file transfer. Disabled by default.
    pub allow_transfer: bool,
}

/// The part of the configuration that the client reads.
#[derive(Debug, PartialEq)]
pub struct ClientConfig {
    /// HTTP server URL, such as `https://example.com`.
    pub server_url: Option<Uri>,
    /// Password for encryption and authentication.
    pub password: String,
    /// Local SOCKS5/HTTP proxy socket address.
    pub local_addr: String,
    /// Custom headers for HTTP requests, in order and with repeats.
    pub headers: Vec<(String, String)>,
    /// Reconnect interval in seconds.
    pub reconnect_interval: u64,
    /// Give up after this many consecutive attempts to reconnect that get no data.
    /// Never, where there is no number.
    pub max_reconnect_attempts: Option<u32>,
    /// Expected response body from the server's `/health`.
    pub health_expected: String,
}

/// The part of the configuration that is about logging.
#[derive(Debug, PartialEq)]
pub struct LoggingConfig {
    /// Log level: trace, debug, info, warn, error.
    pub level: String,
}

// Default values.

pub fn default_listen_addr() -> (r: String)
    ensures
        r@ == "0.0.0.0:8080"@,
{
    String::from_str("0.0.0.0:8080")
}

pub fn default_local_addr() -> (r: String)
    ensures
        r@ == "127.0.0.1:7890"@,
{
    String::from_str("127.0.0.1:7890")
}

pub fn default_max_connections() -> (r: usize)
    ensures
        r == 1000,
{
    1000
}

/// Five minutes.
pub fn default_timeout() -> (r: u64)
    ensures
        r == 300,
{
    300
}

pub fn default_reconnect_interval() -> (r: u64)
    ensures
        r == 5,
{
    5
}

pub fn default_health_response() -> (r: String)
    ensures
        r@ == "ok"@,
{
    String::from_str("ok")
}

pub fn default_health_expected() -> (r: String)
    ensures
        r@ == "ok"@,
{
    String::from_str("ok")
}

pub fn default_log_level() -> (r: String)
    ensures
        r@ == "info"@,
{
    String::from_str("info")
}

/// A server configuration that a file says nothing about.
pub open spec fn is_default_server(c: ServerConfig) -> bool {
    &&& c.listen@ == "0.0.0.0:8080"@
    &&& c.password@.len() == 0
    &&& c.max_connections == 1000
    &&& c.timeout == 300
    &&& c.path_prefix is None
    &&& c.root_redirect is None
    &&& c.root_html is None
    &&& c.health_response@ == "ok"@
    &&& !c.allow_exec
    &&& !c.allow_transfer
}

/// A client configuration that a file says nothing about.
pub open spec fn is_default_client(c: ClientConfig) -> bool {
    &&& c.server_url is None
    &&& c.password@.len() == 0
    &&& c.local_addr@ == "127.0.0.1:7890"@
    &&& c.headers@.len() == 0
    &&& c.reconnect_interval == 5
    &&& c.max_reconnect_attempts is None
    &&& c.health_expected@ == "ok"@
}

impl Default for ServerConfig {
    fn default() -> (r: Self)
        ensures
            is_default_server(r),
    {
        ServerConfig {
            listen: default_listen_addr(),
            password: String::new(),
            max_connections: default_max_connections(),
            timeout: default_timeout(),
            path_prefix: None,
            root_redirect: None,
            root_html: None,
            health_response: default_health_response(),
            allow_exec: false,
            allow_transfer: false,
        }
    }
}

impl Default for ClientConfig {
    fn default() -> (r: Self)
        ensures
            is_default_client(r),
    {
        ClientConfig {
            server_url: None,
            password: String::new(),
            local_addr: default_local_addr(),
            headers: Vec::new(),
            reconnect_interval: default_reconnect_interval(),
            max_reconnect_attempts: None,
            health_expected: default_health_expected(),
        }
    }
}

impl Default for LoggingConfig {
    fn default() -> (r: Self)
        ensures
            r.level@ == "info"@,
    {
        LoggingConfig { level: default_log_level() }
    }
}

impl Default for Config {
    fn default() -> (r: Self)
        ensures
            is_default_server(r.server),
            is_default_client(r.client),
            r.logging.level@ == "info"@,
    {
        Config {
            server: ServerConfig::default(),
            client: ClientConfig::default(),
            logging: LoggingConfig::default(),
        }
    }
}

// Addresses.

/// Why an address in the configuration was refused.
#[derive(Debug)]
pub enum ConfigError {
    SchemeNotHttp(String),
    NotAbsolute,
    NoHost,
    QueryOrFragment,
    PrefixNotAPath,
    PrefixNotAbsolute,
}

impl ConfigError {
    /// What the error says to a user.
    pub open spec fn text(&self) -> Seq<char> {
        match *self {
            ConfigError::SchemeNotHttp(s) => "Server URL must use http or https, not "@ + s@,
            ConfigError::NotAbsolute =>
                "Server URL must be absolute and include http:// or https://"@,
            ConfigError::NoHost => "Server URL must include a host"@,
            ConfigError::QueryOrFragment => "Server URL cannot include a query or fragment"@,
            ConfigError::PrefixNotAPath => "Path prefix must contain only an absolute path"@,
            ConfigError::PrefixNotAbsolute => "Path prefix must start with /"@,
        }
    }

    /// What the error says to a user.
    pub fn message(&self) -> (r: String)
        ensures
            r@ == self.text(),
    {
        match self {
            ConfigError::SchemeNotHttp(s) => String::from_str(
                "Server URL must use http or https, not ",
            ).concat(s.as_str()),
            ConfigError::NotAbsolute => String::from_str(
                "Server URL must be absolute and include http:// or https://",
            ),
            ConfigError::NoHost => String::from_str("Server URL must include a host"),
            ConfigError::QueryOrFragment => String::from_str(
                "Server URL cannot include a query or fragment",
            ),
            ConfigError::PrefixNotAPath => String::from_str(
                "Path prefix must contain only an absolute path",
            ),
            ConfigError::PrefixNotAbsolute => String::from_str("Path prefix must start with /"),
        }
    }
}

/// The scheme is `http` or `https`, in capital or small letters.
pub open spec fn is_http(scheme: Seq<char>) -> bool {
    text::lower(scheme) == "http"@ || text::lower(scheme) == "https"@
}

/// The authority names a host: there is something behind the user, where there is one, and
/// before the port.
pub open spec fn has_host(authority: Option<Seq<char>>) -> bool {
    match authority {
        Some(a) => {
            let host = a.skip(text::last_index(a, '@') + 1);
            host.len() > 0 && host[0] != ':'
        },
        None => false,
    }
}

/// An address that the client can reach its server at.
pub open spec fn is_server_url(u: UriView) -> bool {
    &&& u.scheme is Some
    &&& is_http(u.scheme->0)
    &&& has_host(u.authority)
    &&& u.query is None
    &&& u.fragment is None
}

/// The address without slashes at the end of its path.
pub open spec fn trimmed_uri(u: UriView) -> UriView {
    UriView { path: uri::trimmed_path(u.path), ..u }
}

/// The address as it is used, where it is accepted.
pub open spec fn normal_server_url(u: UriView) -> Option<UriView> {
    if is_server_url(u) {
        Some(trimmed_uri(u))
    } else {
        None
    }
}

/// The error is the one that the address is refused with.
pub open spec fn url_error(u: UriView, e: ConfigError) -> bool {
    match e {
        ConfigError::SchemeNotHttp(s) => {
            &&& u.scheme is Some
            &&& !is_http(u.scheme->0)
            &&& s@ == u.scheme->0
        },
        ConfigError::NotAbsolute => u.scheme is None,
        ConfigError::NoHost => {
            &&& u.scheme is Some
            &&& is_http(u.scheme->0)
            &&& !has_host(u.authority)
        },
        ConfigError::QueryOrFragment => {
            &&& u.scheme is Some
            &&& is_http(u.scheme->0)
            &&& has_host(u.authority)
            &&& u.query is Some || u.fragment is Some
        },
        _ => false,
    }
}

fn names_host(authority: &Option<String>) -> (r: bool)
    ensures
        r == has_host(uri::said(*authority)),
{
    match authority {
        Some(a) => {
            let chars = text::chars_of(a.as_str());
            let size: usize = chars.len();
            let from: usize = match text::find_last(chars.as_slice(), '@') {
                Some(i) => i + 1,
                None => 0,
            };
            from < size && chars[from] != ':'
        },
        None => false,
    }
}

/// The server's address without slashes at the end of its path. Refuses, in this order, an
/// address with a scheme other than `http` and `https` or with none, one without a host,
/// and one with a query or a fragment.
pub fn normalize_server_url(uri: &Uri) -> (r: Result<Uri, ConfigError>)
    ensures
        match r {
            Ok(u) => normal_server_url(uri@) == Some(u@),
            Err(e) => url_error(uri@, e),
        },
{
    match &uri.scheme {
        Some(scheme) => {
            let lower = text::lower_of(text::chars_of(scheme.as_str()).as_slice());
            let http = text::chars_of("http");
            let https = text::chars_of("https");
            if !text::same(lower.as_slice(), http.as_slice()) && !text::same(
                lower.as_slice(),
                https.as_slice(),
            ) {
                return Err(ConfigError::SchemeNotHttp(String::from_str(scheme.as_str())));
            }
        },
        None => {
            return Err(ConfigError::NotAbsolute);
        },
    }
    if !names_host(&uri.authority) {
        return Err(ConfigError::NoHost);
    }
    if uri.query.is_some() || uri.fragment.is_some() {
        return Err(ConfigError::QueryOrFragment);
    }
    Ok(uri.trim_trailing_slash())
}

/// A URI that is nothing but a path.
pub open spec fn only_path(u: UriView) -> bool {
    u.scheme is None && u.authority is None && u.query is None && u.fragment is None
}

/// A path that stands for no prefix at all.
pub open spec fn is_root(path: Seq<char>) -> bool {
    path.len() == 0 || path == "/"@
}

/// The prefix as it is used, where it is accepted: none where it is absent or the root.
pub open spec fn normal_prefix(prefix: Option<UriView>) -> Option<Option<UriView>> {
    match prefix {
        None => Some(None),
        Some(p) => {
            let path = uri::trimmed_path(p.path);
            if !only_path(p) {
                None
            } else if is_root(path) {
                Some(None)
            } else if path[0] == '/' {
                Some(Some(trimmed_uri(p)))
            } else {
                None
            }
        },
    }
}

/// What a borrowed URI says, where there is one.
pub open spec fn said_ref(u: Option<&Uri>) -> Option<UriView> {
    match u {
        Some(u) => Some(u@),
        None => None,
    }
}

/// The path prefix without slashes at its end; none where it is absent or the root.
/// Refuses what is more than a path, and a path that does not start with a slash.
pub fn normalize_path_prefix(prefix: Option<&Uri>) -> (r: Result<Option<Uri>, ConfigError>)
    ensures
        match r {
            Ok(u) => normal_prefix(said_ref(prefix)) == Some(uri::said_uri(u)),
            Err(ConfigError::PrefixNotAPath) => prefix is Some && !only_path(prefix->0@),
            Err(ConfigError::PrefixNotAbsolute) => {
                &&& normal_prefix(said_ref(prefix)) is None
                &&& only_path(prefix->0@)
            },
            Err(_) => false,
        },
{
    let prefix = match prefix {
        None => {
            return Ok(None);
        },
        Some(p) => p,
    };
    if prefix.scheme.is_some() || prefix.authority.is_some() || prefix.query.is_some()
        || prefix.fragment.is_some() {
        return Err(ConfigError::PrefixNotAPath);
    }
    let trimmed = prefix.trim_trailing_slash();
    let path = text::chars_of(trimmed.path.as_str());
    proof {
        reveal_strlit("/");
        if path@.len() == 1 && path@[0] == '/' {
            assert(path@ =~= "/"@);
        }
    }
    if path.len() == 0 || (path.len() == 1 && path[0] == '/') {
        return Ok(None);
    }
    if path[0] != '/' {
        return Err(ConfigError::PrefixNotAbsolute);
    }
    Ok(Some(trimmed))
}

/// An address that was normalized is accepted, and stays as it is.
pub proof fn normalized_server_url_is_stable(u: UriView)
    requires
        is_server_url(u),
    ensures
        is_server_url(trimmed_uri(u)),
        trimmed_uri(trimmed_uri(u)) == trimmed_uri(u),
{
    uri::trimming_is_idempotent(u.path);
}

/// A prefix that was normalized starts with a slash, does not end with one, and
/// stays as it is when it is normalized again.
pub proof fn normalized_prefix_is_stable(u: UriView)
    requires
        only_path(u),
        !is_root(uri::trimmed_path(u.path)),
        uri::trimmed_path(u.path)[0] == '/',
    ensures
        !uri::ends_with_slash(trimmed_uri(u).path),
        trimmed_uri(trimmed_uri(u)) == trimmed_uri(u),
{
    uri::trimming_is_idempotent(u.path);
    uri::trimmed_path_end(u.path);
}

/// A server address is accepted exactly where it has the scheme `http` or `https` in any
/// letter case, a host, and neither query nor fragment; and nothing but slashes at the end
/// of its path is changed.
pub proof fn accepted_addresses_keep_their_parts(u: UriView)
    ensures
        normal_server_url(u) is Some <==> {
            &&& u.scheme is Some
            &&& text::lower(u.scheme->0) == "http"@ || text::lower(u.scheme->0) == "https"@
            &&& has_host(u.authority)
            &&& u.query is None
            &&& u.fragment is None
        },
        normal_server_url(u) is Some ==> {
            let n = normal_server_url(u)->0;
            &&& n.scheme == u.scheme
            &&& n.authority == u.authority
            &&& n.query is None
            &&& n.fragment is None
            &&& n.path.is_prefix_of(u.path)
            &&& forall|i: int| n.path.len() <= i < u.path.len() ==> #[trigger] u.path[i] == '/'
            &&& n.path.len() > 1 ==> n.path.last() != '/'
        },
{
    reveal_strlit("/");
    uri::only_trailing_slashes_go(u.path);
    uri::trimmed_path_end(u.path);
}

/// An authority names a host where something other than the port stands behind the user;
/// neither the user nor the port makes one.
pub proof fn hosts_stand_between_user_and_port(
    user: Seq<char>,
    host: Seq<char>,
    port: Seq<char>,
)
    requires
        !host.contains('@') && !host.contains(':'),
        !port.contains('@'),
    ensures
        !has_host(None),
        !has_host(Some(Seq::empty())),
        has_host(Some(host)) <==> host.len() > 0,
        has_host(Some(host + seq![':'] + port)) <==> host.len() > 0,
        has_host(Some(user + seq!['@'] + host + seq![':'] + port)) <==> host.len() > 0,
        has_host(Some(user + seq!['@'] + host)) <==> host.len() > 0,
{
    let with_port = host + seq![':'] + port;
    text::last_index_is_last(host, '@');
    if text::last_index(host, '@') >= 0 {
        assert(host.contains(host[text::last_index(host, '@')]));
    }
    assert(host.skip(0) =~= host);
    if host.len() > 0 {
        assert(host.contains(host[0]));
    }
    text::last_index_is_last(with_port, '@');
    let i = text::last_index(with_port, '@');
    if i >= 0 {
        if i < host.len() {
            assert(host.contains(host[i]));
        } else if i > host.len() {
            assert(port.contains(port[i - host.len() - 1]));
        }
    }
    assert(with_port.skip(0) =~= with_port);
    behind_the_user(user, with_port);
    behind_the_user(user, host);
    assert(user + seq!['@'] + with_port =~= user + seq!['@'] + host + seq![':'] + port);
}

proof fn behind_the_user(user: Seq<char>, rest: Seq<char>)
    requires
        text::last_index(rest, '@') == -1,
    ensures
        ({
            let a = user + seq!['@'] + rest;
            a.skip(text::last_index(a, '@') + 1) == rest
        }),
{
    let a = user + seq!['@'] + rest;
    text::last_index_is_last(a, '@');
    text::last_index_is_last(rest, '@');
    let i = text::last_index(a, '@');
    assert(a[user.len() as int] == '@');
    if i > user.len() {
        assert(a[i] == rest[i - user.len() - 1]);
    }
    assert(a.skip(i + 1) =~= rest);
}

/// Why an address is refused: the scheme is looked at first, then the host, then what
/// follows the path.
pub proof fn refusals_come_in_order(u: UriView, e: ConfigError)
    requires
        url_error(u, e),
    ensures
        normal_server_url(u) is None,
        u.scheme is None ==> e is NotAbsolute,
        u.scheme is Some && text::lower(u.scheme->0) != "http"@ && text::lower(u.scheme->0)
            != "https"@ ==> e is SchemeNotHttp && e->SchemeNotHttp_0@ == u.scheme->0,
        u.scheme is Some && (text::lower(u.scheme->0) == "http"@ || text::lower(u.scheme->0)
            == "https"@) ==> {
            &&& !has_host(u.authority) ==> e is NoHost
            &&& has_host(u.authority) ==> e is QueryOrFragment && (u.query is Some
                || u.fragment is Some)
        },
{
}

/// A prefix is used as it is given but for slashes at its end; the root and nothing stand
/// for none; what is more than a path, or does not start with a slash, is refused.
pub proof fn prefixes_are_paths(u: UriView)
    ensures
        normal_prefix(None) == Some(None::<UriView>),
        u.scheme is Some || u.authority is Some || u.query is Some || u.fragment is Some
            ==> normal_prefix(Some(u)) is None,
        u.scheme is None && u.authority is None && u.query is None && u.fragment is None ==> {
            let r = normal_prefix(Some(u));
            let only_slashes = forall|i: int| 0 <= i < u.path.len() ==> #[trigger] u.path[i] == '/';
            &&& only_slashes ==> r == Some(None::<UriView>)
            &&& !only_slashes && u.path[0] != '/' ==> r is None
            &&& !only_slashes && u.path[0] == '/' ==> {
                &&& r is Some
                &&& r->0 is Some
                &&& r->0->0.path.is_prefix_of(u.path)
                &&& r->0->0.path.last() != '/'
                &&& r->0->0.scheme is None && r->0->0.authority is None
                &&& r->0->0.query is None && r->0->0.fragment is None
                &&& forall|i: int|
                    r->0->0.path.len() <= i < u.path.len() ==> #[trigger] u.path[i] == '/'
            }
        },
{
    reveal_strlit("/");
    let t = uri::trimmed_path(u.path);
    uri::only_trailing_slashes_go(u.path);
    uri::trimmed_path_end(u.path);
    assert(t =~= u.path.subrange(0, t.len() as int));
    let only_slashes = forall|i: int| 0 <= i < u.path.len() ==> #[trigger] u.path[i] == '/';
    if t.len() > 0 {
        assert(t[0] == u.path[0]);
        assert(t.last() == u.path[t.len() - 1]);
    }
    if only_slashes {
        if t.len() > 0 {
            assert(u.path[t.len() - 1] == '/');
        }
    } else {
        let i = choose|i: int| 0 <= i < u.path.len() && u.path[i] != '/';
        assert(i < t.len());
        if t == "/"@ {
            assert(t[0] == '/' && i == 0);
        }
    }
}

/// What errors say.
pub proof fn config_errors_speak(s: String)
    ensures
        ConfigError::SchemeNotHttp(s).text() == "Server URL must use http or https, not "@ + s@,
        ConfigError::NotAbsolute.text()
            == "Server URL must be absolute and include http:// or https://"@,
        ConfigError::NoHost.text() == "Server URL must include a host"@,
        ConfigError::QueryOrFragment.text() == "Server URL cannot include a query or fragment"@,
        ConfigError::PrefixNotAPath.text() == "Path prefix must contain only an absolute path"@,
        ConfigError::PrefixNotAbsolute.text() == "Path prefix must start with /"@,
{
}

/// What a configuration says that a file says nothing about.
pub proof fn defaults_are_careful(s: ServerConfig, c: ClientConfig)
    requires
        is_default_server(s),
        is_default_client(c),
    ensures
        !s.allow_exec && !s.allow_transfer,
        s.listen@ == "0.0.0.0:8080"@,
        s.password@.len() == 0 && c.password@.len() == 0,
        s.max_connections == 1000 && s.timeout == 300,
        s.path_prefix is None && s.root_redirect is None && s.root_html is None,
        s.health_response@ == "ok"@ && c.health_expected@ == "ok"@,
        c.server_url is None && c.headers@.len() == 0,
        c.local_addr@ == "127.0.0.1:7890"@,
        c.reconnect_interval == 5 && c.max_reconnect_attempts is None,
{
}

} // verus!
