//! Reading the configuration file again while the program runs: when to do so, and what
//! changes by it.

use crate::config;
use crate::config::{ClientConfig, ConfigError, ServerConfig};
use crate::crypto::Crypto;
use crate::server;
use crate::text;
use crate::uri;
use crate::uri::{Uri, UriView};
use crate::wire;
use std::sync::Arc;
use vstd::prelude::*;

verus! {

broadcast use vstd::seq::group_seq_axioms;

/// Seconds between two looks at the file.
pub const POLL_SECS: u64 = 3;

/// Milliseconds before a file that has changed is read, so that whoever writes it can
/// finish.
pub const DEBOUNCE_MS: u64 = 200;

/// Milliseconds before a file that could not be read is read once more.
pub const PARSE_RETRY_MS: u64 = 500;

/// Which settings the command line has fixed: the configuration file does not change
/// them, however often it is read again.
#[derive(Debug, Clone, Copy, PartialEq, Eq, Structural)]
pub struct CliOverrides {
    pub server_password: bool,
    pub server_allow_exec: bool,
    pub server_allow_transfer: bool,
    pub client_password: bool,
    pub client_headers: bool,
    pub client_server_url: bool,
}

/// `Arc::clone`: another handle on the same value.
#[verifier::external_body]
fn share(c: &Arc<Crypto>) -> (r: Arc<Crypto>)
    ensures
        r == *c,
{
    Arc::clone(c)
}

// When to read.

/// What a look at the file is worth telling the user.
#[derive(Debug, Clone, Copy, PartialEq, Eq, Structural)]
pub enum PollNote {
    Quiet,
    /// The file cannot be accessed any more.
    Missing,
    /// The file is back.
    Reappeared,
}

/// What the program remembers of the configuration file.
#[derive(Debug)]
pub struct ConfigWatch {
    last_mtime: u128,
    last_password: String,
    file_missing: bool,
}

/// What is remembered.
#[verifier::ext_equal]
pub struct WatchView {
    /// When the file was changed that was read last.
    pub mtime: u128,
    /// The password in the file when it last changed anything.
    pub password: Seq<char>,
    /// The file could not be accessed at the last look.
    pub missing: bool,
}

impl View for ConfigWatch {
    type V = WatchView;

    closed spec fn view(&self) -> WatchView {
        WatchView {
            mtime: self.last_mtime,
            password: self.last_password@,
            missing: self.file_missing,
        }
    }
}

/// What to do after an attempt to read the file.
#[derive(Debug, Clone, Copy, PartialEq, Eq, Structural)]
pub enum ParseStep {
    /// Use what was read.
    Use,
    /// Wait for `PARSE_RETRY_MS` and read it once more.
    Retry,
    /// Keep the configuration, and look again.
    Skip,
}

/// What follows an attempt to read the file.
pub open spec fn parse_step(retried: bool, readable: bool) -> ParseStep {
    match (readable, retried) {
        (true, _) => ParseStep::Use,
        (false, false) => ParseStep::Retry,
        (false, true) => ParseStep::Skip,
    }
}

/// A file that could not be read is read once more.
pub fn after_parse(retried: bool, readable: bool) -> (r: ParseStep)
    ensures
        r == parse_step(retried, readable),
        readable ==> r == ParseStep::Use,
        !readable && !retried ==> r == ParseStep::Retry,
        !readable && retried ==> r == ParseStep::Skip,
{
    if readable {
        ParseStep::Use
    } else if retried {
        ParseStep::Skip
    } else {
        ParseStep::Retry
    }
}

/// The file holds a password that stands for another key: the command line did not fix
/// it, and it is neither empty nor the one of the last change.
pub open spec fn wants_key(w: WatchView, fixed: bool, password: Seq<char>) -> bool {
    !fixed && password.len() > 0 && password != w.password
}

/// What a look at the file says, and whether the file is to be read.
pub open spec fn polled(w: WatchView, mtime: Option<u128>) -> (WatchView, PollNote, bool) {
    (
        WatchView { missing: mtime is None, ..w },
        if w.missing == (mtime is None) {
            PollNote::Quiet
        } else if mtime is None {
            PollNote::Missing
        } else {
            PollNote::Reappeared
        },
        mtime is Some && mtime != Some(w.mtime),
    )
}

impl ConfigWatch {
    /// Starts watching a file that was changed at this time.
    pub fn new(mtime: u128) -> (r: Self)
        ensures
            r@ == (WatchView { mtime, password: Seq::<char>::empty(), missing: false }),
    {
        let r = ConfigWatch { last_mtime: mtime, last_password: String::new(), file_missing: false };
        assert(r@.password =~= Seq::<char>::empty());
        r
    }

    /// Takes a look at the file: when it was changed, or nothing where it cannot be
    /// accessed. Says what the user is to be told, once per change, and whether the file
    /// is to be read.
    pub fn poll(&mut self, mtime: Option<u128>) -> (r: (PollNote, bool))
        ensures
            (final(self)@, r.0, r.1) == polled(old(self)@, mtime),
            final(self)@ == (WatchView { missing: mtime is None, ..old(self)@ }),
            r.0 == (match (old(self)@.missing, mtime is None) {
                (false, true) => PollNote::Missing,
                (true, false) => PollNote::Reappeared,
                _ => PollNote::Quiet,
            }),
            r.1 == (mtime is Some && mtime->0 != old(self)@.mtime),
    {
        match mtime {
            None => {
                let note = if self.file_missing {
                    PollNote::Quiet
                } else {
                    PollNote::Missing
                };
                self.file_missing = true;
                (note, false)
            },
            Some(t) => {
                let note = if self.file_missing {
                    PollNote::Reappeared
                } else {
                    PollNote::Quiet
                };
                self.file_missing = false;
                (note, t != self.last_mtime)
            },
        }
    }

    /// Whether a new key is to be derived from the password in the file.
    pub fn needs_key(&self, fixed: bool, password: &str) -> (r: bool)
        ensures
            r == wants_key(self@, fixed, password@),
    {
        !fixed && !password.is_empty() && !text::same_str(password, self.last_password.as_str())
    }
}

// The server.

/// What requests to the server are handled with. A request keeps the one that it
/// started with.
pub struct HotServerConfig {
    pub crypto: Arc<Crypto>,
    pub path_prefix: Option<Uri>,
    pub root_redirect: Option<Uri>,
    pub root_html: Option<String>,
    pub health_body: String,
    pub allow_exec: bool,
    pub allow_transfer: bool,
}

/// What it says.
#[verifier::ext_equal]
pub struct HotServerView {
    pub crypto: Arc<Crypto>,
    pub path_prefix: Option<UriView>,
    pub root_redirect: Option<UriView>,
    pub root_html: Option<Seq<char>>,
    pub health_body: Seq<char>,
    pub allow_exec: bool,
    pub allow_transfer: bool,
}

impl View for HotServerConfig {
    type V = HotServerView;

    open spec fn view(&self) -> HotServerView {
        HotServerView {
            crypto: self.crypto,
            path_prefix: uri::said_uri(self.path_prefix),
            root_redirect: uri::said_uri(self.root_redirect),
            root_html: uri::said(self.root_html),
            health_body: self.health_body@,
            allow_exec: self.allow_exec,
            allow_transfer: self.allow_transfer,
        }
    }
}

/// The part of the server's configuration file that can change while it runs.
#[verifier::ext_equal]
pub struct ServerFileView {
    pub password: Seq<char>,
    pub path_prefix: Option<UriView>,
    pub root_redirect: Option<UriView>,
    pub root_html: Option<Seq<char>>,
    pub health_response: Seq<char>,
    pub allow_exec: bool,
    pub allow_transfer: bool,
}

/// What a configuration says about that part.
pub open spec fn server_file(c: ServerConfig) -> ServerFileView {
    ServerFileView {
        password: c.password@,
        path_prefix: uri::said_uri(c.path_prefix),
        root_redirect: uri::said_uri(c.root_redirect),
        root_html: uri::said(c.root_html),
        health_response: c.health_response@,
        allow_exec: c.allow_exec,
        allow_transfer: c.allow_transfer,
    }
}

impl HotServerConfig {
    /// What a server starts with. Refuses a path prefix that is none.
    pub fn from_config(c: &ServerConfig, crypto: Crypto) -> (r: Result<Self, ConfigError>)
        ensures
            match r {
                Ok(h) => {
                    &&& config::normal_prefix(uri::said_uri(c.path_prefix)) == Some(h@.path_prefix)
                    &&& *h.crypto == crypto
                    &&& h@.root_redirect == uri::said_uri(c.root_redirect)
                    &&& h@.root_html == uri::said(c.root_html)
                    &&& h@.health_body == c.health_response@
                    &&& h@.allow_exec == c.allow_exec
                    &&& h@.allow_transfer == c.allow_transfer
                },
                Err(ConfigError::PrefixNotAPath) => {
                    &&& c.path_prefix is Some
                    &&& !config::only_path(c.path_prefix->0@)
                },
                Err(ConfigError::PrefixNotAbsolute) => {
                    &&& config::normal_prefix(uri::said_uri(c.path_prefix)) is None
                    &&& config::only_path(c.path_prefix->0@)
                },
                Err(_) => false,
            },
    {
        let path_prefix = match config::normalize_path_prefix(c.path_prefix.as_ref()) {
            Ok(p) => p,
            Err(e) => {
                return Err(e);
            },
        };
        Ok(
            HotServerConfig {
                crypto: Arc::new(crypto),
                path_prefix,
                root_redirect: uri::copy_uri(&c.root_redirect),
                root_html: uri::copy_text(&c.root_html),
                health_body: String::from_str(c.health_response.as_str()),
                allow_exec: c.allow_exec,
                allow_transfer: c.allow_transfer,
            },
        )
    }
}

/// What the file makes of the configuration: the new key where there is one and the
/// command line did not fix it; the prefix of the file unless it is refused; everything
/// else as in the file, but for what the command line has fixed.
pub open spec fn server_reloaded(
    w: WatchView,
    now: HotServerView,
    file: ServerFileView,
    fixed: CliOverrides,
    derived: Option<Arc<Crypto>>,
) -> HotServerView {
    HotServerView {
        crypto: if wants_key(w, fixed.server_password, file.password) && derived is Some {
            derived->0
        } else {
            now.crypto
        },
        path_prefix: match config::normal_prefix(file.path_prefix) {
            Some(p) => p,
            None => now.path_prefix,
        },
        root_redirect: file.root_redirect,
        root_html: file.root_html,
        health_body: file.health_response,
        allow_exec: if fixed.server_allow_exec {
            now.allow_exec
        } else {
            file.allow_exec
        },
        allow_transfer: if fixed.server_allow_transfer {
            now.allow_transfer
        } else {
            file.allow_transfer
        },
    }
}

/// The name, if the condition holds.
pub open spec fn named_if(condition: bool, name: Seq<char>) -> Seq<Seq<char>> {
    if condition {
        seq![name]
    } else {
        Seq::empty()
    }
}

/// The names of the settings that the file changes, in order.
pub open spec fn server_changes(
    w: WatchView,
    now: HotServerView,
    file: ServerFileView,
    fixed: CliOverrides,
    derived: Option<Arc<Crypto>>,
) -> Seq<Seq<char>> {
    let next = server_reloaded(w, now, file, fixed, derived);
    named_if(
        wants_key(w, fixed.server_password, file.password) && derived is Some,
        "password"@,
    ) + named_if(next.path_prefix != now.path_prefix, "path_prefix"@) + named_if(
        next.root_redirect != now.root_redirect,
        "root_redirect"@,
    ) + named_if(next.root_html != now.root_html, "root_html"@) + named_if(
        next.health_body != now.health_body,
        "health_body"@,
    ) + named_if(next.allow_exec != now.allow_exec, "allow_exec"@) + named_if(
        next.allow_transfer != now.allow_transfer,
        "allow_transfer"@,
    )
}

/// What is remembered after the file was read and used.
pub open spec fn watched(w: WatchView, mtime: u128, password: Seq<char>, changed: bool) -> WatchView {
    WatchView {
        mtime,
        password: if changed {
            password
        } else {
            w.password
        },
        missing: w.missing,
    }
}

fn note_change(changed: &mut Vec<String>, condition: bool, name: &str)
    ensures
        wire::texts(final(changed)@) == wire::texts(old(changed)@) + named_if(condition, name@),
{
    if condition {
        changed.push(String::from_str(name));
    }
    assert(wire::texts(changed@) =~= wire::texts(old(changed)@) + named_if(condition, name@));
}

impl ConfigWatch {
    fn remember(&mut self, mtime: u128, password: &str, changed: bool)
        ensures
            final(self)@ == watched(old(self)@, mtime, password@, changed),
    {
        self.last_mtime = mtime;
        if changed {
            self.last_password = String::from_str(password);
        }
    }

    /// Uses a file that was read: hands out the configuration that it makes, and the
    /// names of the settings that it changes, where it changes any. `derived` is the key
    /// for its password, where one was to be derived and could be.
    pub fn reload_server(
        &mut self,
        mtime: u128,
        now: &HotServerConfig,
        file: &ServerConfig,
        fixed: &CliOverrides,
        derived: Option<Arc<Crypto>>,
    ) -> (r: Option<(HotServerConfig, Vec<String>)>)
        ensures
            ({
                let changes = server_changes(
                    old(self)@,
                    now@,
                    server_file(*file),
                    *fixed,
                    derived,
                );
                &&& final(self)@ == watched(old(self)@, mtime, file.password@, changes.len() > 0)
                &&& match r {
                    Some((next, changed)) => {
                        &&& next@ == server_reloaded(
                            old(self)@,
                            now@,
                            server_file(*file),
                            *fixed,
                            derived,
                        )
                        &&& wire::texts(changed@) == changes
                        &&& changes.len() > 0
                    },
                    None => changes.len() == 0,
                }
            }),
    {
        let ghost w = self@;
        let wanted = self.needs_key(fixed.server_password, file.password.as_str());
        let mut changed: Vec<String> = Vec::new();
        let mut crypto = share(&now.crypto);
        let mut new_key = false;
        if wanted {
            if let Some(c) = derived {
                crypto = c;
                new_key = true;
            }
        }
        assert(wire::texts(changed@) =~= Seq::<Seq<char>>::empty());
        note_change(&mut changed, new_key, "password");
        let path_prefix = match config::normalize_path_prefix(file.path_prefix.as_ref()) {
            Ok(p) => p,
            Err(_) => uri::copy_uri(&now.path_prefix),
        };
        note_change(
            &mut changed,
            !uri::same_uri(&path_prefix, &now.path_prefix),
            "path_prefix",
        );
        note_change(
            &mut changed,
            !uri::same_uri(&file.root_redirect, &now.root_redirect),
            "root_redirect",
        );
        note_change(
            &mut changed,
            !uri::same_text(&file.root_html, &now.root_html),
            "root_html",
        );
        note_change(
            &mut changed,
            !text::same_str(file.health_response.as_str(), now.health_body.as_str()),
            "health_body",
        );
        let allow_exec = if fixed.server_allow_exec {
            now.allow_exec
        } else {
            file.allow_exec
        };
        note_change(&mut changed, allow_exec != now.allow_exec, "allow_exec");
        let allow_transfer = if fixed.server_allow_transfer {
            now.allow_transfer
        } else {
            file.allow_transfer
        };
        note_change(&mut changed, allow_transfer != now.allow_transfer, "allow_transfer");
        assert(wire::texts(changed@) =~= server_changes(
            w,
            now@,
            server_file(*file),
            *fixed,
            derived,
        ));
        assert(wire::texts(changed@).len() == changed@.len());
        self.remember(mtime, file.password.as_str(), changed.len() > 0);
        if changed.len() == 0 {
            return None;
        }
        Some(
            (
                HotServerConfig {
                    crypto,
                    path_prefix,
                    root_redirect: uri::copy_uri(&file.root_redirect),
                    root_html: uri::copy_text(&file.root_html),
                    health_body: String::from_str(file.health_response.as_str()),
                    allow_exec,
                    allow_transfer,
                },
                changed,
            ),
        )
    }
}

// The client.

/// What the client sends its requests with.
pub struct HotClientConfig {
    pub crypto: Arc<Crypto>,
    pub http_headers: Vec<(String, String)>,
    pub server_base_url: Uri,
}

/// What it says.
#[verifier::ext_equal]
pub struct HotClientView {
    pub crypto: Arc<Crypto>,
    pub headers: Seq<(Seq<char>, Seq<char>)>,
    pub server_base_url: UriView,
}

impl View for HotClientConfig {
    type V = HotClientView;

    open spec fn view(&self) -> HotClientView {
        HotClientView {
            crypto: self.crypto,
            headers: server::header_view(self.http_headers@),
            server_base_url: self.server_base_url@,
        }
    }
}

/// The part of the client's configuration file that can change while it runs.
#[verifier::ext_equal]
pub struct ClientFileView {
    pub password: Seq<char>,
    pub headers: Seq<(Seq<char>, Seq<char>)>,
    pub server_url: Option<UriView>,
}

/// What a configuration says about that part.
pub open spec fn client_file(c: ClientConfig) -> ClientFileView {
    ClientFileView {
        password: c.password@,
        headers: server::header_view(c.headers@),
        server_url: uri::said_uri(c.server_url),
    }
}

/// The server's address in the file, as it is used; none where it is absent or refused.
pub open spec fn usable_url(file: ClientFileView) -> Option<UriView> {
    match file.server_url {
        Some(u) => config::normal_server_url(u),
        None => None,
    }
}

/// What the file makes of the configuration: the new key where there is one and the
/// command line did not fix it; the headers of the file unless the command line fixed
/// them; its server address where it is usable, unless the command line fixed that.
pub open spec fn client_reloaded(
    w: WatchView,
    now: HotClientView,
    file: ClientFileView,
    fixed: CliOverrides,
    derived: Option<Arc<Crypto>>,
) -> HotClientView {
    HotClientView {
        crypto: if wants_key(w, fixed.client_password, file.password) && derived is Some {
            derived->0
        } else {
            now.crypto
        },
        headers: if fixed.client_headers {
            now.headers
        } else {
            file.headers
        },
        server_base_url: match usable_url(file) {
            Some(u) => if fixed.client_server_url {
                now.server_base_url
            } else {
                u
            },
            None => now.server_base_url,
        },
    }
}

/// The names of the settings that the file changes, in order.
pub open spec fn client_changes(
    w: WatchView,
    now: HotClientView,
    file: ClientFileView,
    fixed: CliOverrides,
    derived: Option<Arc<Crypto>>,
) -> Seq<Seq<char>> {
    let next = client_reloaded(w, now, file, fixed, derived);
    named_if(
        wants_key(w, fixed.client_password, file.password) && derived is Some,
        "password"@,
    ) + named_if(next.headers != now.headers, "headers"@) + named_if(
        next.server_base_url != now.server_base_url,
        "server_url"@,
    )
}

fn same_headers(a: &Vec<(String, String)>, b: &Vec<(String, String)>) -> (r: bool)
    ensures
        r == (server::header_view(a@) == server::header_view(b@)),
{
    if a.len() != b.len() {
        assert(server::header_view(a@).len() != server::header_view(b@).len());
        return false;
    }
    let mut i: usize = 0;
    while i < a.len()
        invariant
            i <= a@.len() == b@.len(),
            forall|j: int|
                0 <= j < i ==> server::header_view(a@)[j] == #[trigger] server::header_view(b@)[j],
        decreases a@.len() - i,
    {
        let same = text::same_str(a[i].0.as_str(), b[i].0.as_str()) && text::same_str(
            a[i].1.as_str(),
            b[i].1.as_str(),
        );
        if !same {
            assert(server::header_view(a@)[i as int] != server::header_view(b@)[i as int]);
            return false;
        }
        i += 1;
    }
    assert(server::header_view(a@) =~= server::header_view(b@));
    true
}

fn copy_headers(h: &Vec<(String, String)>) -> (r: Vec<(String, String)>)
    ensures
        server::header_view(r@) == server::header_view(h@),
{
    let mut out: Vec<(String, String)> = Vec::new();
    let mut i: usize = 0;
    while i < h.len()
        invariant
            i <= h@.len(),
            server::header_view(out@) == server::header_view(h@).take(i as int),
        decreases h@.len() - i,
    {
        let name = String::from_str(h[i].0.as_str());
        let value = String::from_str(h[i].1.as_str());
        let ghost before = out@;
        out.push((name, value));
        assert(server::header_view(out@) =~= server::header_view(before).push((name@, value@)));
        assert(server::header_view(h@).take(i + 1) =~= server::header_view(h@).take(
            i as int,
        ).push((h@[i as int].0@, h@[i as int].1@)));
        i += 1;
    }
    assert(server::header_view(h@).take(h@.len() as int) =~= server::header_view(h@));
    out
}

impl HotClientConfig {
    /// What a client starts with. Refuses a server address that it cannot use; there is
    /// one.
    pub fn from_config(c: &ClientConfig, server_url: &Uri, crypto: Crypto) -> (r: Result<
        Self,
        ConfigError,
    >)
        ensures
            match r {
                Ok(h) => {
                    &&& config::normal_server_url(server_url@) == Some(h@.server_base_url)
                    &&& *h.crypto == crypto
                    &&& h@.headers == server::header_view(c.headers@)
                },
                Err(e) => {
                    &&& config::normal_server_url(server_url@) is None
                    &&& config::url_error(server_url@, e)
                },
            },
    {
        match config::normalize_server_url(server_url) {
            Ok(u) => Ok(
                HotClientConfig {
                    crypto: Arc::new(crypto),
                    http_headers: copy_headers(&c.headers),
                    server_base_url: u,
                },
            ),
            Err(e) => Err(e),
        }
    }
}

impl ConfigWatch {
    /// Uses a file that was read: hands out the configuration that it makes, and the
    /// names of the settings that it changes, where it changes any. Whatever it changes,
    /// the client then starts a new session and connects again.
    pub fn reload_client(
        &mut self,
        mtime: u128,
        now: &HotClientConfig,
        file: &ClientConfig,
        fixed: &CliOverrides,
        derived: Option<Arc<Crypto>>,
    ) -> (r: Option<(HotClientConfig, Vec<String>)>)
        ensures
            ({
                let changes = client_changes(
                    old(self)@,
                    now@,
                    client_file(*file),
                    *fixed,
                    derived,
                );
                &&& final(self)@ == watched(old(self)@, mtime, file.password@, changes.len() > 0)
                &&& match r {
                    Some((next, changed)) => {
                        &&& next@ == client_reloaded(
                            old(self)@,
                            now@,
                            client_file(*file),
                            *fixed,
                            derived,
                        )
                        &&& wire::texts(changed@) == changes
                        &&& changes.len() > 0
                    },
                    None => changes.len() == 0,
                }
            }),
    {
        let ghost w = self@;
        let wanted = self.needs_key(fixed.client_password, file.password.as_str());
        let mut changed: Vec<String> = Vec::new();
        let mut crypto = share(&now.crypto);
        let mut new_key = false;
        if wanted {
            if let Some(c) = derived {
                crypto = c;
                new_key = true;
            }
        }
        assert(wire::texts(changed@) =~= Seq::<Seq<char>>::empty());
        note_change(&mut changed, new_key, "password");
        let new_headers = !fixed.client_headers && !same_headers(
            &file.headers,
            &now.http_headers,
        );
        note_change(&mut changed, new_headers, "headers");
        let http_headers = if new_headers {
            copy_headers(&file.headers)
        } else {
            copy_headers(&now.http_headers)
        };
        let usable = match &file.server_url {
            Some(u) if !fixed.client_server_url => match config::normalize_server_url(u) {
                Ok(u) => Some(u),
                Err(_) => None,
            },
            _ => None,
        };
        let server_base_url = match usable {
            Some(u) => u,
            None => now.server_base_url.copy(),
        };
        note_change(&mut changed, !server_base_url.same(&now.server_base_url), "server_url");
        assert(wire::texts(changed@) =~= client_changes(
            w,
            now@,
            client_file(*file),
            *fixed,
            derived,
        ));
        assert(wire::texts(changed@).len() == changed@.len());
        self.remember(mtime, file.password.as_str(), changed.len() > 0);
        if changed.len() == 0 {
            return None;
        }
        Some((HotClientConfig { crypto, http_headers, server_base_url }, changed))
    }
}

// What holds of all files.

/// A file that was read, and the key that was derived for it.
pub struct ServerRead {
    pub mtime: u128,
    pub file: ServerFileView,
    pub derived: Option<Arc<Crypto>>,
}

/// Where a series of files leads.
pub open spec fn server_reloads(
    w: WatchView,
    now: HotServerView,
    fixed: CliOverrides,
    reads: Seq<ServerRead>,
) -> HotServerView
    decreases reads.len(),
{
    if reads.len() == 0 {
        now
    } else {
        let r = reads[0];
        let changes = server_changes(w, now, r.file, fixed, r.derived);
        server_reloads(
            watched(w, r.mtime, r.file.password, changes.len() > 0),
            if changes.len() > 0 {
                server_reloaded(w, now, r.file, fixed, r.derived)
            } else {
                now
            },
            fixed,
            reads.skip(1),
        )
    }
}

/// The command line always wins: what it has fixed stays, whatever files are read and
/// however often.
pub proof fn the_command_line_wins_on_the_server(
    w: WatchView,
    now: HotServerView,
    fixed: CliOverrides,
    reads: Seq<ServerRead>,
)
    ensures
        ({
            let end = server_reloads(w, now, fixed, reads);
            &&& fixed.server_password ==> end.crypto == now.crypto
            &&& fixed.server_allow_exec ==> end.allow_exec == now.allow_exec
            &&& fixed.server_allow_transfer ==> end.allow_transfer == now.allow_transfer
        }),
    decreases reads.len(),
{
    if reads.len() > 0 {
        let r = reads[0];
        let changes = server_changes(w, now, r.file, fixed, r.derived);
        the_command_line_wins_on_the_server(
            watched(w, r.mtime, r.file.password, changes.len() > 0),
            if changes.len() > 0 {
                server_reloaded(w, now, r.file, fixed, r.derived)
            } else {
                now
            },
            fixed,
            reads.skip(1),
        );
    }
}

/// A file that was read, and the key that was derived for it.
pub struct ClientRead {
    pub mtime: u128,
    pub file: ClientFileView,
    pub derived: Option<Arc<Crypto>>,
}

/// Where a series of files leads.
pub open spec fn client_reloads(
    w: WatchView,
    now: HotClientView,
    fixed: CliOverrides,
    reads: Seq<ClientRead>,
) -> HotClientView
    decreases reads.len(),
{
    if reads.len() == 0 {
        now
    } else {
        let r = reads[0];
        let changes = client_changes(w, now, r.file, fixed, r.derived);
        client_reloads(
            watched(w, r.mtime, r.file.password, changes.len() > 0),
            if changes.len() > 0 {
                client_reloaded(w, now, r.file, fixed, r.derived)
            } else {
                now
            },
            fixed,
            reads.skip(1),
        )
    }
}

/// The command line always wins on the client too.
pub proof fn the_command_line_wins_on_the_client(
    w: WatchView,
    now: HotClientView,
    fixed: CliOverrides,
    reads: Seq<ClientRead>,
)
    ensures
        ({
            let end = client_reloads(w, now, fixed, reads);
            &&& fixed.client_password ==> end.crypto == now.crypto
            &&& fixed.client_headers ==> end.headers == now.headers
            &&& fixed.client_server_url ==> end.server_base_url == now.server_base_url
        }),
    decreases reads.len(),
{
    if reads.len() > 0 {
        let r = reads[0];
        let changes = client_changes(w, now, r.file, fixed, r.derived);
        the_command_line_wins_on_the_client(
            watched(w, r.mtime, r.file.password, changes.len() > 0),
            if changes.len() > 0 {
                client_reloaded(w, now, r.file, fixed, r.derived)
            } else {
                now
            },
            fixed,
            reads.skip(1),
        );
    }
}

/// The server's changes are named exactly where something changes, or a key was derived
/// anew.
pub proof fn server_changes_are_named(
    w: WatchView,
    now: HotServerView,
    file: ServerFileView,
    fixed: CliOverrides,
    derived: Option<Arc<Crypto>>,
)
    ensures
        server_changes(w, now, file, fixed, derived).len() == 0 <==> {
            &&& server_reloaded(w, now, file, fixed, derived) == now
            &&& !(wants_key(w, fixed.server_password, file.password) && derived is Some)
        },
{
    let next = server_reloaded(w, now, file, fixed, derived);
    let key = wants_key(w, fixed.server_password, file.password) && derived is Some;
    let n = server_changes(w, now, file, fixed, derived).len();
    assert(key ==> n > 0);
    assert(next.path_prefix != now.path_prefix ==> n > 0);
    assert(next.root_redirect != now.root_redirect ==> n > 0);
    assert(next.root_html != now.root_html ==> n > 0);
    assert(next.health_body != now.health_body ==> n > 0);
    assert(next.allow_exec != now.allow_exec ==> n > 0);
    assert(next.allow_transfer != now.allow_transfer ==> n > 0);
    if n == 0 {
        assert(next.crypto == now.crypto);
        assert(next == now);
    }
}

/// So are the client's.
pub proof fn client_changes_are_named(
    w: WatchView,
    now: HotClientView,
    file: ClientFileView,
    fixed: CliOverrides,
    derived: Option<Arc<Crypto>>,
)
    ensures
        client_changes(w, now, file, fixed, derived).len() == 0 <==> {
            &&& client_reloaded(w, now, file, fixed, derived) == now
            &&& !(wants_key(w, fixed.client_password, file.password) && derived is Some)
        },
{
}

/// An empty password, or one that no key could be derived from, leaves the key alone.
pub proof fn no_key_no_change(
    w: WatchView,
    server: HotServerView,
    server_file: ServerFileView,
    client: HotClientView,
    client_file: ClientFileView,
    fixed: CliOverrides,
    derived: Option<Arc<Crypto>>,
)
    ensures
        server_file.password.len() == 0 || derived is None ==> server_reloaded(
            w,
            server,
            server_file,
            fixed,
            derived,
        ).crypto == server.crypto,
        client_file.password.len() == 0 || derived is None ==> client_reloaded(
            w,
            client,
            client_file,
            fixed,
            derived,
        ).crypto == client.crypto,
{
}

/// A path prefix that is refused leaves the one that is in use.
pub proof fn refused_prefix_is_ignored(
    w: WatchView,
    now: HotServerView,
    file: ServerFileView,
    fixed: CliOverrides,
    derived: Option<Arc<Crypto>>,
)
    requires
        config::normal_prefix(file.path_prefix) is None,
    ensures
        server_reloaded(w, now, file, fixed, derived).path_prefix == now.path_prefix,
{
}

/// A server address that is absent or refused leaves the one that is in use.
pub proof fn refused_url_is_ignored(
    w: WatchView,
    now: HotClientView,
    file: ClientFileView,
    fixed: CliOverrides,
    derived: Option<Arc<Crypto>>,
)
    requires
        usable_url(file) is None,
    ensures
        client_reloaded(w, now, file, fixed, derived).server_base_url == now.server_base_url,
{
}

/// Reading the same file a second time changes nothing more on the server, once it has
/// changed something.
pub proof fn the_server_changes_once(
    w: WatchView,
    now: HotServerView,
    file: ServerFileView,
    fixed: CliOverrides,
    derived: Option<Arc<Crypto>>,
    derived_again: Option<Arc<Crypto>>,
    mtime: u128,
)
    requires
        server_changes(w, now, file, fixed, derived).len() > 0,
    ensures
        server_changes(
            watched(w, mtime, file.password, true),
            server_reloaded(w, now, file, fixed, derived),
            file,
            fixed,
            derived_again,
        ).len() == 0,
{
}

/// Nor on the client.
pub proof fn the_client_changes_once(
    w: WatchView,
    now: HotClientView,
    file: ClientFileView,
    fixed: CliOverrides,
    derived: Option<Arc<Crypto>>,
    derived_again: Option<Arc<Crypto>>,
    mtime: u128,
)
    requires
        client_changes(w, now, file, fixed, derived).len() > 0,
    ensures
        client_changes(
            watched(w, mtime, file.password, true),
            client_reloaded(w, now, file, fixed, derived),
            file,
            fixed,
            derived_again,
        ).len() == 0,
{
}

/// After a series of files the server runs with the settings of the last one, whatever they
/// were before and whichever files came in between: those that the command line did not fix
/// are those of that file, switched on or off, and those that it fixed are those of the
/// start. A prefix that is refused leaves that of the files before.
pub proof fn the_last_file_counts_on_the_server(
    w: WatchView,
    now: HotServerView,
    fixed: CliOverrides,
    reads: Seq<ServerRead>,
)
    requires
        reads.len() > 0,
    ensures
        ({
            let end = server_reloads(w, now, fixed, reads);
            let file = reads.last().file;
            &&& end.root_redirect == file.root_redirect
            &&& end.root_html == file.root_html
            &&& end.health_body == file.health_response
            &&& end.allow_exec == (if fixed.server_allow_exec {
                now.allow_exec
            } else {
                file.allow_exec
            })
            &&& end.allow_transfer == (if fixed.server_allow_transfer {
                now.allow_transfer
            } else {
                file.allow_transfer
            })
            &&& config::normal_prefix(file.path_prefix) is Some ==> end.path_prefix
                == config::normal_prefix(file.path_prefix)->0
            &&& config::normal_prefix(file.path_prefix) is None ==> end.path_prefix
                == server_reloads(w, now, fixed, reads.drop_last()).path_prefix
        }),
    decreases reads.len(),
{
    let r = reads[0];
    let changes = server_changes(w, now, r.file, fixed, r.derived);
    server_changes_are_named(w, now, r.file, fixed, r.derived);
    let next = if changes.len() > 0 {
        server_reloaded(w, now, r.file, fixed, r.derived)
    } else {
        now
    };
    let after = watched(w, r.mtime, r.file.password, changes.len() > 0);
    assert(next.root_redirect == r.file.root_redirect);
    if reads.len() == 1 {
        assert(reads.skip(1) =~= Seq::<ServerRead>::empty());
        assert(reads.drop_last() =~= Seq::<ServerRead>::empty());
        assert(server_reloads(after, next, fixed, reads.skip(1)) == next);
    } else {
        let rest = reads.skip(1);
        the_last_file_counts_on_the_server(after, next, fixed, rest);
        assert(rest.last() == reads.last());
        assert(reads.drop_last().skip(1) =~= rest.drop_last());
        assert(reads.drop_last()[0] == r);
        assert(server_reloads(w, now, fixed, reads.drop_last()) == server_reloads(
            after,
            next,
            fixed,
            rest.drop_last(),
        ));
    }
}

/// So does the client: the headers are those of the last file, and the server is the one
/// that it names where it can be used, unless the command line fixed them.
pub proof fn the_last_file_counts_on_the_client(
    w: WatchView,
    now: HotClientView,
    fixed: CliOverrides,
    reads: Seq<ClientRead>,
)
    requires
        reads.len() > 0,
    ensures
        ({
            let end = client_reloads(w, now, fixed, reads);
            let file = reads.last().file;
            let url = match file.server_url {
                Some(u) => config::normal_server_url(u),
                None => None,
            };
            &&& end.headers == (if fixed.client_headers {
                now.headers
            } else {
                file.headers
            })
            &&& fixed.client_server_url ==> end.server_base_url == now.server_base_url
            &&& !fixed.client_server_url && url is Some ==> end.server_base_url == url->0
            &&& !fixed.client_server_url && url is None ==> end.server_base_url == client_reloads(
                w,
                now,
                fixed,
                reads.drop_last(),
            ).server_base_url
        }),
    decreases reads.len(),
{
    let r = reads[0];
    let changes = client_changes(w, now, r.file, fixed, r.derived);
    client_changes_are_named(w, now, r.file, fixed, r.derived);
    let next = if changes.len() > 0 {
        client_reloaded(w, now, r.file, fixed, r.derived)
    } else {
        now
    };
    let after = watched(w, r.mtime, r.file.password, changes.len() > 0);
    if reads.len() == 1 {
        assert(reads.skip(1) =~= Seq::<ClientRead>::empty());
        assert(reads.drop_last() =~= Seq::<ClientRead>::empty());
        assert(client_reloads(after, next, fixed, reads.skip(1)) == next);
    } else {
        let rest = reads.skip(1);
        the_last_file_counts_on_the_client(after, next, fixed, rest);
        assert(rest.last() == reads.last());
        assert(reads.drop_last().skip(1) =~= rest.drop_last());
        assert(reads.drop_last()[0] == r);
        assert(client_reloads(w, now, fixed, reads.drop_last()) == client_reloads(
            after,
            next,
            fixed,
            rest.drop_last(),
        ));
    }
}

/// A password that is new, not empty and not fixed brings its key with it, where one could
/// be derived; any other leaves the key.
pub proof fn new_passwords_bring_new_keys(
    w: WatchView,
    server: HotServerView,
    server_file: ServerFileView,
    client: HotClientView,
    client_file: ClientFileView,
    fixed: CliOverrides,
    derived: Option<Arc<Crypto>>,
)
    ensures
        ({
            let p = server_file.password;
            let next = server_reloaded(w, server, server_file, fixed, derived);
            if !fixed.server_password && p.len() > 0 && p != w.password && derived is Some {
                next.crypto == derived->0
            } else {
                next.crypto == server.crypto
            }
        }),
        ({
            let p = client_file.password;
            let next = client_reloaded(w, client, client_file, fixed, derived);
            if !fixed.client_password && p.len() > 0 && p != w.password && derived is Some {
                next.crypto == derived->0
            } else {
                next.crypto == client.crypto
            }
        }),
{
}

/// What is remembered of a file that was read: when it was changed, always; its password,
/// where it changed anything; and not whether the file is there.
pub proof fn a_read_is_remembered(w: WatchView, mtime: u128, password: Seq<char>)
    ensures
        watched(w, mtime, password, true).mtime == mtime,
        watched(w, mtime, password, false).mtime == mtime,
        watched(w, mtime, password, true).password == password,
        watched(w, mtime, password, false).password == w.password,
        watched(w, mtime, password, true).missing == w.missing,
        watched(w, mtime, password, false).missing == w.missing,
{
}

proof fn names_differ()
    ensures
        "password"@ != "path_prefix"@,
        "password"@ != "root_redirect"@,
        "password"@ != "root_html"@,
        "password"@ != "health_body"@,
        "password"@ != "allow_exec"@,
        "password"@ != "allow_transfer"@,
        "path_prefix"@ != "root_redirect"@,
        "path_prefix"@ != "root_html"@,
        "path_prefix"@ != "health_body"@,
        "path_prefix"@ != "allow_exec"@,
        "path_prefix"@ != "allow_transfer"@,
        "root_redirect"@ != "root_html"@,
        "root_redirect"@ != "health_body"@,
        "root_redirect"@ != "allow_exec"@,
        "root_redirect"@ != "allow_transfer"@,
        "root_html"@ != "health_body"@,
        "root_html"@ != "allow_exec"@,
        "root_html"@ != "allow_transfer"@,
        "health_body"@ != "allow_exec"@,
        "health_body"@ != "allow_transfer"@,
        "allow_exec"@ != "allow_transfer"@,
        "password"@ != "headers"@,
        "password"@ != "server_url"@,
        "headers"@ != "server_url"@,
{
    reveal_strlit("password");
    reveal_strlit("path_prefix");
    reveal_strlit("root_redirect");
    reveal_strlit("root_html");
    reveal_strlit("health_body");
    reveal_strlit("allow_exec");
    reveal_strlit("allow_transfer");
    reveal_strlit("headers");
    reveal_strlit("server_url");
    assert("path_prefix"@[0] == 'p' && "health_body"@[0] == 'h');
    assert("password"@.len() == 8 && "path_prefix"@.len() == 11 && "root_redirect"@.len() == 13);
    assert("root_html"@.len() == 9 && "health_body"@.len() == 11 && "allow_exec"@.len() == 10);
    assert("allow_transfer"@.len() == 14 && "headers"@.len() == 7 && "server_url"@.len() == 10);
}

proof fn earlier_or_named(a: Seq<Seq<char>>, c: bool, name: Seq<char>, n: Seq<char>)
    ensures
        (a + named_if(c, name)).contains(n) <==> a.contains(n) || (c && n == name),
{
    let all = a + named_if(c, name);
    let k = a.len() as int;
    if all.contains(n) {
        let i = choose|i: int| 0 <= i < all.len() && all[i] == n;
        if i < k {
            assert(a[i] == n);
        }
    }
    if a.contains(n) {
        let i = choose|i: int| 0 <= i < k && a[i] == n;
        assert(all[i] == n);
    }
    if c && n == name {
        assert(all[k] == n);
    }
}

/// Which names stand in the list of the server's changes.
proof fn server_names(
    c0: bool,
    c1: bool,
    c2: bool,
    c3: bool,
    c4: bool,
    c5: bool,
    c6: bool,
    n: Seq<char>,
)
    ensures
        (named_if(c0, "password"@) + named_if(c1, "path_prefix"@) + named_if(c2, "root_redirect"@)
            + named_if(c3, "root_html"@) + named_if(c4, "health_body"@) + named_if(
            c5,
            "allow_exec"@,
        ) + named_if(c6, "allow_transfer"@)).contains(n) <==> {
            ||| c0 && n == "password"@
            ||| c1 && n == "path_prefix"@
            ||| c2 && n == "root_redirect"@
            ||| c3 && n == "root_html"@
            ||| c4 && n == "health_body"@
            ||| c5 && n == "allow_exec"@
            ||| c6 && n == "allow_transfer"@
        },
{
    let n0 = named_if(c0, "password"@);
    let n1 = n0 + named_if(c1, "path_prefix"@);
    let n2 = n1 + named_if(c2, "root_redirect"@);
    let n3 = n2 + named_if(c3, "root_html"@);
    let n4 = n3 + named_if(c4, "health_body"@);
    let n5 = n4 + named_if(c5, "allow_exec"@);
    assert(n0.contains(n) <==> c0 && n == "password"@) by {
        if c0 {
            assert(n0[0] == "password"@);
        }
    }
    earlier_or_named(n0, c1, "path_prefix"@, n);
    earlier_or_named(n1, c2, "root_redirect"@, n);
    earlier_or_named(n2, c3, "root_html"@, n);
    earlier_or_named(n3, c4, "health_body"@, n);
    earlier_or_named(n4, c5, "allow_exec"@, n);
    earlier_or_named(n5, c6, "allow_transfer"@, n);
}

/// Each setting is named among the server's changes exactly where the file changes it, by
/// its own name.
pub proof fn each_server_change_has_its_name(
    w: WatchView,
    now: HotServerView,
    file: ServerFileView,
    fixed: CliOverrides,
    derived: Option<Arc<Crypto>>,
)
    ensures
        ({
            let names = server_changes(w, now, file, fixed, derived);
            &&& names.contains("root_redirect"@) <==> file.root_redirect != now.root_redirect
            &&& names.contains("root_html"@) <==> file.root_html != now.root_html
            &&& names.contains("health_body"@) <==> file.health_response != now.health_body
            &&& names.contains("allow_exec"@) <==> !fixed.server_allow_exec && file.allow_exec
                != now.allow_exec
            &&& names.contains("allow_transfer"@) <==> !fixed.server_allow_transfer
                && file.allow_transfer != now.allow_transfer
            &&& names.contains("path_prefix"@) <==> config::normal_prefix(file.path_prefix) is Some
                && config::normal_prefix(file.path_prefix)->0 != now.path_prefix
            &&& names.contains("password"@) <==> !fixed.server_password && file.password.len() > 0
                && file.password != w.password && derived is Some
        }),
{
    names_differ();
    let next = server_reloaded(w, now, file, fixed, derived);
    let c0 = wants_key(w, fixed.server_password, file.password) && derived is Some;
    let c1 = next.path_prefix != now.path_prefix;
    let c2 = next.root_redirect != now.root_redirect;
    let c3 = next.root_html != now.root_html;
    let c4 = next.health_body != now.health_body;
    let c5 = next.allow_exec != now.allow_exec;
    let c6 = next.allow_transfer != now.allow_transfer;
    server_names(c0, c1, c2, c3, c4, c5, c6, "password"@);
    server_names(c0, c1, c2, c3, c4, c5, c6, "path_prefix"@);
    server_names(c0, c1, c2, c3, c4, c5, c6, "root_redirect"@);
    server_names(c0, c1, c2, c3, c4, c5, c6, "root_html"@);
    server_names(c0, c1, c2, c3, c4, c5, c6, "health_body"@);
    server_names(c0, c1, c2, c3, c4, c5, c6, "allow_exec"@);
    server_names(c0, c1, c2, c3, c4, c5, c6, "allow_transfer"@);
}

/// So is each of the client's.
pub proof fn each_client_change_has_its_name(
    w: WatchView,
    now: HotClientView,
    file: ClientFileView,
    fixed: CliOverrides,
    derived: Option<Arc<Crypto>>,
)
    ensures
        ({
            let names = client_changes(w, now, file, fixed, derived);
            let url = match file.server_url {
                Some(u) => config::normal_server_url(u),
                None => None,
            };
            &&& names.contains("headers"@) <==> !fixed.client_headers && file.headers
                != now.headers
            &&& names.contains("server_url"@) <==> !fixed.client_server_url && url is Some && url->0
                != now.server_base_url
            &&& names.contains("password"@) <==> !fixed.client_password && file.password.len() > 0
                && file.password != w.password && derived is Some
        }),
{
    names_differ();
    let next = client_reloaded(w, now, file, fixed, derived);
    let c0 = wants_key(w, fixed.client_password, file.password) && derived is Some;
    let c1 = next.headers != now.headers;
    let c2 = next.server_base_url != now.server_base_url;
    let n0 = named_if(c0, "password"@);
    let n1 = n0 + named_if(c1, "headers"@);
    assert forall|n: Seq<char>| #[trigger] (n1 + named_if(c2, "server_url"@)).contains(n) <==> {
        ||| c0 && n == "password"@
        ||| c1 && n == "headers"@
        ||| c2 && n == "server_url"@
    } by {
        assert(n0.contains(n) <==> c0 && n == "password"@) by {
            if c0 {
                assert(n0[0] == "password"@);
            }
        }
        earlier_or_named(n0, c1, "headers"@, n);
        earlier_or_named(n1, c2, "server_url"@, n);
    }
}

/// What a file says is what it holds, setting by setting.
pub proof fn files_say_what_they_hold(s: ServerConfig, c: ClientConfig)
    ensures
        server_file(s).password == s.password@,
        server_file(s).path_prefix == uri::said_uri(s.path_prefix),
        server_file(s).root_redirect == uri::said_uri(s.root_redirect),
        server_file(s).root_html == uri::said(s.root_html),
        server_file(s).health_response == s.health_response@,
        server_file(s).allow_exec == s.allow_exec,
        server_file(s).allow_transfer == s.allow_transfer,
        client_file(c).password == c.password@,
        client_file(c).headers == server::header_view(c.headers@),
        client_file(c).server_url == uri::said_uri(c.server_url),
{
}

/// A file is looked at every three seconds, and read a moment after it has changed.
pub proof fn files_are_looked_at_often()
    ensures
        POLL_SECS == 3,
        DEBOUNCE_MS == 200,
        PARSE_RETRY_MS == 500,
{
}

/// A file is read twice at most, the second time only where the first failed, and it is
/// skipped only where both did.
pub proof fn files_are_read_twice_at_most(first: bool, second: bool)
    ensures
        parse_step(false, first) == ParseStep::Use <==> first,
        parse_step(false, first) == ParseStep::Retry <==> !first,
        parse_step(true, second) == ParseStep::Use <==> second,
        parse_step(true, second) == ParseStep::Skip <==> !second,
{
}

/// The user is told once that the file is gone and once that it is back, however often it is
/// looked at; and it is read exactly where it is there and was changed at another time than
/// the one that is remembered.
pub proof fn looks_are_told_once(w: WatchView, mtime: Option<u128>, again: Option<u128>)
    ensures
        ({
            let (after, note, read) = polled(w, mtime);
            let (_, second, _) = polled(after, again);
            &&& after.mtime == w.mtime && after.password == w.password
            &&& note == PollNote::Missing <==> mtime is None && !w.missing
            &&& note == PollNote::Reappeared <==> mtime is Some && w.missing
            &&& second == PollNote::Quiet <==> (mtime is None <==> again is None)
            &&& read <==> mtime is Some && mtime->0 != w.mtime
        }),
{
}

} // verus!
