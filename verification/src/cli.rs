//! The command line: which file is read, what the flags override, and what is required.

use crate::config::{ClientConfig, ServerConfig};
use crate::reload::CliOverrides;
use crate::text;
use crate::uri;
use crate::uri::Uri;
use crate::wire;
use vstd::prelude::*;

verus! {

broadcast use vstd::seq::group_seq_axioms;

// The configuration file.

/// A path within a directory.
pub open spec fn within(dir: Seq<char>, name: Seq<char>) -> Seq<char> {
    if dir.len() == 0 || dir.last() == '/' {
        dir + name
    } else {
        dir + "/"@ + name
    }
}

fn join_path(dir: &str, name: &str) -> (r: String)
    ensures
        r@ == within(dir@, name@),
{
    let chars = text::chars_of(dir);
    let n: usize = chars.len();
    if n == 0 || chars[n - 1] == '/' {
        String::from_str(dir).concat(name)
    } else {
        String::from_str(dir).concat("/").concat(name)
    }
}

/// The user's own configuration file: below `$XDG_CONFIG_HOME`, or else below `.config`
/// in the home directory.
pub open spec fn user_config(xdg: Option<Seq<char>>, home: Option<Seq<char>>) -> Option<
    Seq<char>,
> {
    let base = match (xdg, home) {
        (Some(x), _) if x.len() > 0 => Some(x),
        (_, Some(h)) => Some(within(h, ".config"@)),
        _ => None,
    };
    match base {
        Some(b) => Some(within(within(b, "tunnix"@), "config.toml"@)),
        None => None,
    }
}

/// The user's own configuration file, out of the environment.
pub fn global_config_path(xdg: Option<String>, home: Option<String>) -> (r: Option<String>)
    ensures
        uri::said(r) == user_config(uri::said(xdg), uri::said(home)),
{
    let base = match xdg {
        Some(x) => if x.as_str().is_empty() {
            None
        } else {
            Some(x)
        },
        None => None,
    };
    let base = match base {
        Some(b) => b,
        None => match home {
            Some(h) => join_path(h.as_str(), ".config"),
            None => {
                return None;
            },
        },
    };
    Some(join_path(join_path(base.as_str(), "tunnix").as_str(), "config.toml"))
}

/// The configuration file to read, given what there is.
pub open spec fn config_file(
    explicit: Option<Seq<char>>,
    local_exists: bool,
    existing_global: Option<Seq<char>>,
) -> Option<Seq<char>> {
    if explicit is Some {
        explicit
    } else if local_exists {
        Some("config.toml"@)
    } else {
        existing_global
    }
}

/// The configuration file to read: the one that was named, else `config.toml` where
/// there is one, else the user's own where there is one.
pub fn resolve_config_path(
    explicit: &Option<String>,
    local_exists: bool,
    existing_global: Option<String>,
) -> (r: Option<String>)
    ensures
        uri::said(r) == config_file(uri::said(*explicit), local_exists, uri::said(existing_global)),
        uri::said(r) == match (explicit, local_exists) {
            (Some(p), _) => Some(p@),
            (None, true) => Some("config.toml"@),
            (None, false) => uri::said(existing_global),
        },
{
    match explicit {
        Some(p) => Some(String::from_str(p.as_str())),
        None => if local_exists {
            Some(String::from_str("config.toml"))
        } else {
            existing_global
        },
    }
}

// Logging.

/// How much is logged.
#[derive(Debug, Clone, Copy, PartialEq, Eq, Structural)]
pub enum LogLevel {
    Trace,
    Debug,
    Info,
    Warn,
    Error,
}

/// The level that a text names, in capital or small letters. Anything else is `info`.
pub open spec fn level_named(s: Seq<char>) -> LogLevel {
    let l = text::lower(s);
    if l == "trace"@ {
        LogLevel::Trace
    } else if l == "debug"@ {
        LogLevel::Debug
    } else if l == "warn"@ {
        LogLevel::Warn
    } else if l == "error"@ {
        LogLevel::Error
    } else {
        LogLevel::Info
    }
}

/// The level that a text names.
pub fn parse_level(s: &str) -> (r: LogLevel)
    ensures
        r == level_named(s@),
{
    let lower = text::lower_of(text::chars_of(s).as_slice());
    let l = text::string_of(lower.as_slice());
    if text::same_str(l.as_str(), "trace") {
        LogLevel::Trace
    } else if text::same_str(l.as_str(), "debug") {
        LogLevel::Debug
    } else if text::same_str(l.as_str(), "warn") {
        LogLevel::Warn
    } else if text::same_str(l.as_str(), "error") {
        LogLevel::Error
    } else {
        LogLevel::Info
    }
}

/// The level to log at: the one of the command line; else errors only for a command
/// that uses the terminal itself; else that of the configuration.
pub fn log_level(flag: &Option<String>, quiet: bool, configured: &str) -> (r: LogLevel)
    ensures
        r == match flag {
            Some(f) => level_named(f@),
            None => if quiet {
                LogLevel::Error
            } else {
                level_named(configured@)
            },
        },
{
    match flag {
        Some(f) => parse_level(f.as_str()),
        None => if quiet {
            LogLevel::Error
        } else {
            parse_level(configured)
        },
    }
}

// Flags.

/// Why the program does not start.
#[derive(Debug, Clone, Copy, PartialEq, Eq, Structural)]
pub enum CliError {
    PasswordRequired,
    ServerUrlRequired,
}

impl CliError {
    /// What the error says to a user.
    pub open spec fn text(&self) -> Seq<char> {
        match *self {
            CliError::PasswordRequired =>
                "Password is required. Set via --password, TUNNIX_PASSWORD env var, or config file."@,
            CliError::ServerUrlRequired =>
                "Server URL is required. Set via --server or config file."@,
        }
    }

    /// What the error says to a user.
    pub fn message(&self) -> (r: String)
        ensures
            r@ == self.text(),
    {
        match self {
            CliError::PasswordRequired => String::from_str(
                "Password is required. Set via --password, TUNNIX_PASSWORD env var, or config file.",
            ),
            CliError::ServerUrlRequired => String::from_str(
                "Server URL is required. Set via --server or config file.",
            ),
        }
    }
}

/// The flags of the server.
#[derive(Debug)]
pub struct ServerFlags {
    pub listen: Option<String>,
    pub password: Option<String>,
    pub allow_exec: bool,
    pub allow_transfer: bool,
}

/// The flags of the client.
#[derive(Debug)]
pub struct ClientFlags {
    pub server: Option<Uri>,
    pub password: Option<String>,
    pub local_addr: Option<String>,
    pub cookie: Option<String>,
}

/// The flag, or else what the file says.
pub open spec fn overridden(flag: Option<String>, file: String) -> String {
    match flag {
        Some(f) => f,
        None => file,
    }
}

/// The configuration of the server with its flags.
pub open spec fn server_flagged(config: ServerConfig, flags: ServerFlags) -> ServerConfig {
    ServerConfig {
        listen: overridden(flags.listen, config.listen),
        password: overridden(flags.password, config.password),
        allow_exec: config.allow_exec || flags.allow_exec,
        allow_transfer: config.allow_transfer || flags.allow_transfer,
        ..config
    }
}

/// What the flags of the server fix.
pub open spec fn server_fixed(flags: ServerFlags) -> CliOverrides {
    CliOverrides {
        server_password: flags.password is Some,
        server_allow_exec: flags.allow_exec,
        server_allow_transfer: flags.allow_transfer,
        client_password: false,
        client_headers: false,
        client_server_url: false,
    }
}

/// What the flags of the client fix.
pub open spec fn client_fixed(flags: ClientFlags) -> CliOverrides {
    CliOverrides {
        server_password: false,
        server_allow_exec: false,
        server_allow_transfer: false,
        client_password: flags.password is Some,
        client_headers: flags.cookie is Some,
        client_server_url: flags.server is Some,
    }
}

/// Lets the flags of the server override its configuration, and remembers which did. A
/// password must come from somewhere.
pub fn apply_server_flags(config: ServerConfig, flags: ServerFlags) -> (r: Result<
    (ServerConfig, CliOverrides),
    CliError,
>)
    ensures
        match r {
            Ok((c, o)) => {
                &&& c == server_flagged(config, flags)
                &&& o == server_fixed(flags)
                &&& c.listen == overridden(flags.listen, config.listen)
                &&& c.password == overridden(flags.password, config.password)
                &&& c.password@.len() > 0
                &&& c.allow_exec == (config.allow_exec || flags.allow_exec)
                &&& c.allow_transfer == (config.allow_transfer || flags.allow_transfer)
                &&& c == (ServerConfig {
                    listen: c.listen,
                    password: c.password,
                    allow_exec: c.allow_exec,
                    allow_transfer: c.allow_transfer,
                    ..config
                })
                &&& o == (CliOverrides {
                    server_password: flags.password is Some,
                    server_allow_exec: flags.allow_exec,
                    server_allow_transfer: flags.allow_transfer,
                    client_password: false,
                    client_headers: false,
                    client_server_url: false,
                })
            },
            Err(e) => {
                &&& e == CliError::PasswordRequired
                &&& overridden(flags.password, config.password)@.len() == 0
            },
        },
{
    let overrides = CliOverrides {
        server_password: flags.password.is_some(),
        server_allow_exec: flags.allow_exec,
        server_allow_transfer: flags.allow_transfer,
        client_password: false,
        client_headers: false,
        client_server_url: false,
    };
    let mut config = config;
    if let Some(listen) = flags.listen {
        config.listen = listen;
    }
    if let Some(password) = flags.password {
        config.password = password;
    }
    if flags.allow_exec {
        config.allow_exec = true;
    }
    if flags.allow_transfer {
        config.allow_transfer = true;
    }
    if config.password.as_str().is_empty() {
        return Err(CliError::PasswordRequired);
    }
    Ok((config, overrides))
}

/// The header is the cookie header, in capital or small letters.
pub open spec fn is_cookie(name: Seq<char>) -> bool {
    text::lower(name) == "cookie"@
}

/// The headers without those that set a cookie.
pub open spec fn without_cookies(headers: Seq<(String, String)>) -> Seq<(String, String)>
    decreases headers.len(),
{
    if headers.len() == 0 {
        Seq::empty()
    } else {
        let rest = without_cookies(headers.drop_last());
        if is_cookie(headers.last().0@) {
            rest
        } else {
            rest.push(headers.last())
        }
    }
}

/// The headers with the cookie in place of any other.
pub fn set_cookie(headers: Vec<(String, String)>, cookie: String) -> (r: Vec<(String, String)>)
    ensures
        r@.len() == without_cookies(headers@).len() + 1,
        r@.drop_last() == without_cookies(headers@),
        r@.last().0@ == "Cookie"@,
        r@.last().1 == cookie,
{
    let mut out: Vec<(String, String)> = Vec::new();
    let mut rest = headers;
    let ghost all = headers@;
    // Taken from the end, so that the names can be moved.
    let mut kept: Vec<(String, String)> = Vec::new();
    while rest.len() > 0
        invariant
            rest@.len() <= all.len(),
            rest@ == all.take(rest@.len() as int),
            without_cookies(rest@) + kept@.reverse() == without_cookies(all),
        decreases rest@.len(),
    {
        let ghost before = rest@;
        let ghost kept_before = kept@;
        match rest.pop() {
            Some(h) => {
                let name = text::lower_of(text::chars_of(h.0.as_str()).as_slice());
                let cookie_name = text::chars_of("cookie");
                if !text::same(name.as_slice(), cookie_name.as_slice()) {
                    kept.push(h);
                    assert(kept@.reverse() =~= seq![h] + kept_before.reverse());
                }
                assert(before.drop_last() =~= rest@);
                assert(without_cookies(rest@) + kept@.reverse() =~= without_cookies(before)
                    + kept_before.reverse());
                assert(rest@ =~= all.take(rest@.len() as int));
            },
            None => {},
        }
    }
    assert(without_cookies(rest@) =~= Seq::<(String, String)>::empty());
    assert(kept@.reverse() =~= without_cookies(all));
    let ghost target = kept@.reverse();
    assert(kept@ =~= target.reverse());
    while kept.len() > 0
        invariant
            target.len() == out@.len() + kept@.len(),
            forall|i: int| 0 <= i < out@.len() ==> out@[i] == target[i],
            forall|i: int| 0 <= i < kept@.len() ==> kept@[i] == target[target.len() - 1 - i],
        decreases kept@.len(),
    {
        match kept.pop() {
            Some(h) => {
                out.push(h);
            },
            None => {},
        }
    }
    assert(out@ =~= target);
    out.push((String::from_str("Cookie"), cookie));
    assert(out@.drop_last() =~= target);
    out
}

/// Lets the flags of the client override its configuration, and remembers which did. A
/// server address and a password must come from somewhere.
pub fn apply_client_flags(config: ClientConfig, flags: ClientFlags) -> (r: Result<
    (ClientConfig, CliOverrides),
    CliError,
>)
    ensures
        match r {
            Ok((c, o)) => {
                &&& o == client_fixed(flags)
                &&& c.server_url == if flags.server is Some {
                    flags.server
                } else {
                    config.server_url
                }
                &&& c.server_url is Some
                &&& c.password == overridden(flags.password, config.password)
                &&& c.password@.len() > 0
                &&& c.local_addr == overridden(flags.local_addr, config.local_addr)
                &&& match flags.cookie {
                    Some(cookie) => {
                        &&& c.headers@.len() == without_cookies(config.headers@).len() + 1
                        &&& c.headers@.drop_last() == without_cookies(config.headers@)
                        &&& c.headers@.last().0@ == "Cookie"@
                        &&& c.headers@.last().1 == cookie
                    },
                    None => c.headers == config.headers,
                }
                &&& c == (ClientConfig {
                    server_url: c.server_url,
                    password: c.password,
                    local_addr: c.local_addr,
                    headers: c.headers,
                    ..config
                })
                &&& o == (CliOverrides {
                    server_password: false,
                    server_allow_exec: false,
                    server_allow_transfer: false,
                    client_password: flags.password is Some,
                    client_headers: flags.cookie is Some,
                    client_server_url: flags.server is Some,
                })
            },
            Err(CliError::ServerUrlRequired) => flags.server is None && config.server_url is None,
            Err(CliError::PasswordRequired) => {
                &&& flags.server is Some || config.server_url is Some
                &&& overridden(flags.password, config.password)@.len() == 0
            },
        },
{
    let overrides = CliOverrides {
        server_password: false,
        server_allow_exec: false,
        server_allow_transfer: false,
        client_password: flags.password.is_some(),
        client_headers: flags.cookie.is_some(),
        client_server_url: flags.server.is_some(),
    };
    let ClientConfig {
        mut server_url,
        mut password,
        mut local_addr,
        mut headers,
        reconnect_interval,
        max_reconnect_attempts,
        health_expected,
    } = config;
    if let Some(u) = flags.server {
        server_url = Some(u);
    }
    if let Some(p) = flags.password {
        password = p;
    }
    if let Some(a) = flags.local_addr {
        local_addr = a;
    }
    if let Some(cookie) = flags.cookie {
        headers = set_cookie(headers, cookie);
    }
    if server_url.is_none() {
        return Err(CliError::ServerUrlRequired);
    }
    if password.as_str().is_empty() {
        return Err(CliError::PasswordRequired);
    }
    Ok(
        (
            ClientConfig {
                server_url,
                password,
                local_addr,
                headers,
                reconnect_interval,
                max_reconnect_attempts,
                health_expected,
            },
            overrides,
        ),
    )
}

// Commands and paths.

/// What `shlex::try_join` makes of words, where it can.
pub uninterp spec fn shell_joined(words: Seq<Seq<char>>) -> Option<Seq<char>>;

/// One of the words holds the character 0.
pub open spec fn has_nul(words: Seq<Seq<char>>) -> bool {
    exists|i: int| 0 <= i < words.len() && (#[trigger] words[i]).contains('\0')
}

/// Why words cannot be quoted.
#[verifier::external_type_specification]
#[verifier::external_body]
pub struct ExQuoteError(shlex::QuoteError);

/// `shlex::try_join`: the words, each quoted for a shell where that is necessary, with
/// spaces between them. It fails exactly where a word holds the character 0. How words
/// are quoted depends on them alone and is not stated.
#[verifier::external_body]
fn shell_join(words: &Vec<String>) -> (r: Result<String, shlex::QuoteError>)
    ensures
        match r {
            Ok(s) => shell_joined(wire::texts(words@)) == Some(s@) && !has_nul(
                wire::texts(words@),
            ),
            Err(_) => shell_joined(wire::texts(words@)) is None && has_nul(wire::texts(words@)),
        },
{
    shlex::try_join(words.iter().map(|w| w.as_str()))
}

/// The words with spaces between them.
pub open spec fn spaced(words: Seq<Seq<char>>) -> Seq<char>
    decreases words.len(),
{
    if words.len() == 0 {
        Seq::empty()
    } else if words.len() == 1 {
        words[0]
    } else {
        spaced(words.drop_last()) + " "@ + words.last()
    }
}

fn join_spaced(words: &Vec<String>) -> (r: String)
    ensures
        r@ == spaced(wire::texts(words@)),
{
    let ghost all = wire::texts(words@);
    if words.len() == 0 {
        let r = String::new();
        assert(r@ =~= spaced(all));
        return r;
    }
    let mut out = String::from_str(words[0].as_str());
    let mut i: usize = 1;
    assert(all.take(1) =~= seq![words@[0]@]);
    while i < words.len()
        invariant
            1 <= i <= words@.len(),
            all == wire::texts(words@),
            out@ == spaced(all.take(i as int)),
        decreases words@.len() - i,
    {
        out.append(" ");
        out.append(words[i].as_str());
        assert(all.take(i + 1).drop_last() =~= all.take(i as int));
        i += 1;
    }
    assert(all.take(all.len() as int) =~= all);
    out
}

/// The command that words on the command line stand for, given how they would be
/// quoted: none for no words; a single word as it is, so that the remote shell reads
/// its metacharacters; several words quoted, so that each stays one word, or merely
/// spaced where they cannot be quoted.
pub open spec fn command_text(words: Seq<Seq<char>>, quoted: Option<Seq<char>>) -> Option<
    Seq<char>,
> {
    if words.len() == 0 {
        None
    } else if words.len() == 1 {
        Some(words[0])
    } else {
        match quoted {
            Some(q) => Some(q),
            None => Some(spaced(words)),
        }
    }
}

/// The command that words stand for, given how they would be quoted.
pub fn choose_command(words: &Vec<String>, quoted: Option<String>) -> (r: Option<String>)
    ensures
        uri::said(r) == command_text(wire::texts(words@), uri::said(quoted)),
{
    if words.len() == 0 {
        None
    } else if words.len() == 1 {
        Some(String::from_str(words[0].as_str()))
    } else {
        match quoted {
            Some(q) => Some(q),
            None => Some(join_spaced(words)),
        }
    }
}

/// The command that words on the command line stand for.
pub fn remote_command(words: &Vec<String>) -> (r: Option<String>)
    ensures
        uri::said(r) == command_text(
            wire::texts(words@),
            shell_joined(wire::texts(words@)),
        ),
{
    let quoted = match shell_join(words) {
        Ok(s) => Some(s),
        Err(_) => None,
    };
    choose_command(words, quoted)
}

/// Splits the paths of a transfer: the last one is the destination, like that of `cp`.
pub fn split_paths(paths: Vec<String>) -> (r: Option<(Vec<String>, String)>)
    ensures
        match r {
            Some((sources, dest)) => {
                &&& paths@.len() > 0
                &&& sources@ == paths@.drop_last()
                &&& dest == paths@.last()
            },
            None => paths@.len() == 0,
        },
{
    let mut sources = paths;
    match sources.pop() {
        Some(dest) => Some((sources, dest)),
        None => None,
    }
}

// What holds of all command lines.

/// The user's own configuration file is `tunnix/config.toml` in the directory for
/// configuration: that of the environment, or `.config` at home where the environment names
/// none or an empty one. There is one between a directory and what is in it, whether the
/// directory ends with a slash or not.
pub proof fn the_users_file_is_at_its_place(dir: Seq<char>, other: Option<Seq<char>>)
    requires
        dir.len() > 0,
        dir.last() != '/',
    ensures
        user_config(Some(dir), other) == Some(dir + "/tunnix/config.toml"@),
        user_config(Some(dir + "/"@), other) == Some(dir + "/tunnix/config.toml"@),
        user_config(None, Some(dir)) == Some(dir + "/.config/tunnix/config.toml"@),
        user_config(Some(Seq::empty()), Some(dir)) == Some(
            dir + "/.config/tunnix/config.toml"@,
        ),
        user_config(None, None) is None,
        user_config(Some(Seq::empty()), None) is None,
{
    reveal_strlit("/");
    reveal_strlit("tunnix");
    reveal_strlit("config.toml");
    reveal_strlit(".config");
    reveal_strlit("/tunnix/config.toml");
    reveal_strlit("/.config/tunnix/config.toml");
    let t = dir + "/"@ + "tunnix"@;
    assert(t.last() == 'x');
    assert(within(t, "config.toml"@) =~= dir + "/tunnix/config.toml"@);
    assert((dir + "/"@).last() == '/');
    assert(within(dir + "/"@, "tunnix"@) =~= t);
    let c = dir + "/"@ + ".config"@;
    assert(c.last() == 'g');
    let ct = c + "/"@ + "tunnix"@;
    assert(ct.last() == 'x');
    assert(within(ct, "config.toml"@) =~= dir + "/.config/tunnix/config.toml"@);
}

/// The five levels are told by their names in any letter case; any other text is `info`.
pub proof fn levels_are_told_by_name(s: Seq<char>)
    ensures
        level_named(s) == LogLevel::Trace <==> text::lower(s) == "trace"@,
        level_named(s) == LogLevel::Debug <==> text::lower(s) == "debug"@,
        level_named(s) == LogLevel::Warn <==> text::lower(s) == "warn"@,
        level_named(s) == LogLevel::Error <==> text::lower(s) == "error"@,
        text::lower(s) == "info"@ ==> level_named(s) == LogLevel::Info,
{
    reveal_strlit("trace");
    reveal_strlit("debug");
    reveal_strlit("warn");
    reveal_strlit("error");
    reveal_strlit("info");
    assert("trace"@[0] == 't' && "debug"@[0] == 'd' && "warn"@[0] == 'w' && "error"@[0] == 'e'
        && "info"@[0] == 'i');
}

/// A flag that was given is what counts, whatever the file says; one that was not given
/// leaves what the file says.
pub proof fn flags_win(flag: String, file: String)
    ensures
        overridden(Some(flag), file) == flag,
        overridden(None, file) == file,
{
}

/// Of the headers exactly those stay that do not set a cookie, in their order: each that
/// stays was there, none that stays sets a cookie in any letter case, and those of two lists
/// are those of the first and then those of the second.
pub proof fn only_cookies_go(
    a: Seq<(String, String)>,
    b: Seq<(String, String)>,
    h: (String, String),
)
    ensures
        without_cookies(a + b) == without_cookies(a) + without_cookies(b),
        text::lower(h.0@) == "cookie"@ ==> without_cookies(seq![h]).len() == 0,
        text::lower(h.0@) != "cookie"@ ==> without_cookies(seq![h]) == seq![h],
        without_cookies(Seq::empty()).len() == 0,
    decreases b.len(),
{
    assert(seq![h].drop_last() =~= Seq::<(String, String)>::empty());
    reveal_with_fuel(without_cookies, 2);
    assert(Seq::<(String, String)>::empty().push(h) =~= seq![h]);
    if b.len() == 0 {
        assert(a + b =~= a);
        assert(without_cookies(a) + without_cookies(b) =~= without_cookies(a));
    } else {
        only_cookies_go(a, b.drop_last(), h);
        assert((a + b).drop_last() =~= a + b.drop_last());
        assert((a + b).last() == b.last());
        assert(without_cookies(a + b) =~= without_cookies(a) + without_cookies(b));
    }
}

/// What the words of a remote command become: nothing for none, the word itself for one,
/// the quoted text for several, and the words with single spaces between them where they
/// cannot be quoted.
pub proof fn words_become_a_command(
    word: Seq<char>,
    words: Seq<Seq<char>>,
    quoted: Seq<char>,
    any: Option<Seq<char>>,
)
    ensures
        command_text(Seq::empty(), any) is None,
        command_text(seq![word], any) == Some(word),
        words.len() >= 2 ==> command_text(words, Some(quoted)) == Some(quoted),
        words.len() >= 2 ==> command_text(words, None) == Some(spaced(words)),
        words.len() >= 1 ==> spaced(words.push(word)) == spaced(words) + " "@ + word,
        spaced(seq![word]) == word,
{
    assert(words.push(word).drop_last() =~= words);
}

/// What is missing is named with where it can come from.
pub proof fn what_is_missing_is_named()
    ensures
        CliError::PasswordRequired.text()
            == "Password is required. Set via --password, TUNNIX_PASSWORD env var, or config file."@,
        CliError::ServerUrlRequired.text()
            == "Server URL is required. Set via --server or config file."@,
{
}

/// Words are written one behind the other, with one space between two.
pub proof fn words_are_spaced(words: Seq<Seq<char>>, word: Seq<char>)
    ensures
        spaced(seq![word]) == word,
        words.len() > 0 ==> spaced(words.push(word)) == spaced(words) + " "@ + word,
        spaced(Seq::empty()).len() == 0,
{
    if words.len() > 0 {
        assert(words.push(word).drop_last() =~= words);
    }
}

/// What a flag of the server says holds at the start, and no reload takes it back: commands
/// and transfers that a flag allowed stay allowed whatever the file says, and the key of a
/// password on the command line stays. What no flag says is up to the file.
pub proof fn server_flags_outlast_reloads(
    config: ServerConfig,
    flags: ServerFlags,
    w: crate::reload::WatchView,
    now: crate::reload::HotServerView,
    file: crate::reload::ServerFileView,
    derived: Option<std::sync::Arc<crate::crypto::Crypto>>,
)
    ensures
        ({
            let start = server_flagged(config, flags);
            let next = crate::reload::server_reloaded(w, now, file, server_fixed(flags), derived);
            &&& flags.allow_exec ==> start.allow_exec && next.allow_exec == now.allow_exec
            &&& !flags.allow_exec ==> start.allow_exec == config.allow_exec && next.allow_exec
                == file.allow_exec
            &&& flags.allow_transfer ==> start.allow_transfer && next.allow_transfer
                == now.allow_transfer
            &&& !flags.allow_transfer ==> start.allow_transfer == config.allow_transfer
                && next.allow_transfer == file.allow_transfer
            &&& flags.password is Some ==> start.password == flags.password->0 && next.crypto
                == now.crypto
            &&& flags.password is None ==> start.password == config.password
            &&& flags.password is None && derived is Some && file.password.len() > 0
                && file.password != w.password ==> next.crypto == derived->0
            &&& flags.listen is Some ==> start.listen == flags.listen->0
            &&& flags.listen is None ==> start.listen == config.listen
            &&& start.path_prefix == config.path_prefix
            &&& start.root_redirect == config.root_redirect
            &&& start.root_html == config.root_html
            &&& start.health_response == config.health_response
        }),
{
}

/// What a flag of the client says outlasts every reload: its cookie, its server and the key
/// of its password. What no flag says is up to the file.
pub proof fn client_flags_outlast_reloads(
    flags: ClientFlags,
    w: crate::reload::WatchView,
    now: crate::reload::HotClientView,
    file: crate::reload::ClientFileView,
    derived: Option<std::sync::Arc<crate::crypto::Crypto>>,
)
    ensures
        ({
            let next = crate::reload::client_reloaded(w, now, file, client_fixed(flags), derived);
            &&& flags.cookie is Some ==> next.headers == now.headers
            &&& flags.cookie is None ==> next.headers == file.headers
            &&& flags.server is Some ==> next.server_base_url == now.server_base_url
            &&& flags.server is None && crate::reload::usable_url(file) is Some ==> next.server_base_url
                == crate::reload::usable_url(file)->0
            &&& flags.password is Some ==> next.crypto == now.crypto
            &&& flags.password is None && derived is Some && file.password.len() > 0
                && file.password != w.password ==> next.crypto == derived->0
        }),
{
}

/// A file that was named is read, whatever else there is; without one it is the one at hand,
/// and only without that the user's own.
pub proof fn files_are_looked_for_in_order(named: Seq<char>, local: bool, own: Option<Seq<char>>)
    ensures
        config_file(Some(named), local, own) == Some(named),
        config_file(None, true, own) == Some("config.toml"@),
        config_file(None, false, own) == own,
{
}

} // verus!
