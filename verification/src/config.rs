//! Configuration: command-line options and the configuration file merged,
//! with defaults and validation.
//!
//! For every setting the command line wins over the configuration file,
//! which wins over the default.  Reading the configuration file and the
//! secret files is left to the caller, which hands over what it read.
use vstd::prelude::*;
use crate::git::opt_view;
use crate::text::{ascii_lower, chars_eq_ignore_ascii_case, chars_of, eq_ignore_ascii_case, string_from_chars, trim, trim_ws};

verus! {

#[verifier::external_type_specification]
#[verifier::external_body]
pub struct ExListenerAddress(tokio_listener::ListenerAddress);

/// The reason `tokio_listener` gives for rejecting the listen address `s`,
/// or `None` when it accepts it.
pub uninterp spec fn listener_address_error(s: Seq<char>) -> Option<Seq<char>>;

/// The listen address that `tokio_listener` makes of `s` when it accepts it.
pub uninterp spec fn listener_address_of(s: Seq<char>) -> tokio_listener::ListenerAddress;

/// Parses a listen address (`tokio_listener::ListenerAddress`'s `FromStr`):
/// `host:port` for TCP, a path for a Unix socket, `sd-listen` for a socket
/// inherited from systemd, and so on.  Trusted: it fails exactly when
/// `listener_address_error` names a reason, and fails with that reason; on
/// success the address is the one `listener_address_of` names for `s`.
#[verifier::external_body]
fn parse_listener_address(s: &str) -> (r: Result<tokio_listener::ListenerAddress, String>)
    ensures
        match r {
            Ok(a) => listener_address_error(s@) is None && a == listener_address_of(s@),
            Err(e) => listener_address_error(s@) == Some(e@),
        },
{
    s.parse::<tokio_listener::ListenerAddress>().map_err(|reason| reason.to_string())
}

/// Log level.
#[derive(Clone, Copy, Debug, PartialEq, Eq, Structural)]
pub enum LogLevel {
    Trace,
    Debug,
    Info,
    Warn,
    Error,
}

/// Log output format.
#[derive(Clone, Copy, Debug, PartialEq, Eq, Structural)]
pub enum LogFormat {
    Text,
    Json,
}

/// The log level named `s` (ignoring ASCII case), if any.
pub open spec fn log_level_named(s: Seq<char>) -> Option<LogLevel> {
    if eq_ignore_ascii_case(s, "trace"@) {
        Some(LogLevel::Trace)
    } else if eq_ignore_ascii_case(s, "debug"@) {
        Some(LogLevel::Debug)
    } else if eq_ignore_ascii_case(s, "info"@) {
        Some(LogLevel::Info)
    } else if eq_ignore_ascii_case(s, "warn"@) {
        Some(LogLevel::Warn)
    } else if eq_ignore_ascii_case(s, "error"@) {
        Some(LogLevel::Error)
    } else {
        None
    }
}

/// The log format named `s` (ignoring ASCII case), if any.
pub open spec fn log_format_named(s: Seq<char>) -> Option<LogFormat> {
    if eq_ignore_ascii_case(s, "text"@) {
        Some(LogFormat::Text)
    } else if eq_ignore_ascii_case(s, "json"@) {
        Some(LogFormat::Json)
    } else {
        None
    }
}

/// Whether `s` names `w` ignoring ASCII case.
fn names(s: &[char], w: &str) -> (r: bool)
    ensures
        r == eq_ignore_ascii_case(s@, w@),
{
    chars_eq_ignore_ascii_case(s, &chars_of(w))
}

impl LogLevel {
    /// The log level named `s`: trace, debug, info, warn or error.
    pub fn parse(s: &str) -> (r: Option<LogLevel>)
        ensures
            r == log_level_named(s@),
    {
        let c = chars_of(s);
        if names(&c, "trace") {
            Some(LogLevel::Trace)
        } else if names(&c, "debug") {
            Some(LogLevel::Debug)
        } else if names(&c, "info") {
            Some(LogLevel::Info)
        } else if names(&c, "warn") {
            Some(LogLevel::Warn)
        } else if names(&c, "error") {
            Some(LogLevel::Error)
        } else {
            None
        }
    }
}

impl LogFormat {
    /// The log format named `s`: text or json.
    pub fn parse(s: &str) -> (r: Option<LogFormat>)
        ensures
            r == log_format_named(s@),
    {
        let c = chars_of(s);
        if names(&c, "text") {
            Some(LogFormat::Text)
        } else if names(&c, "json") {
            Some(LogFormat::Json)
        } else {
            None
        }
    }
}

/// Options given on the command line (or in the matching environment
/// variables); paths are given as text.
#[derive(Debug, Clone, Default)]
pub struct CliRaw {
    pub log_level: Option<String>,
    pub log_format: Option<String>,
    pub config: Option<String>,
    pub listen: Option<String>,
    pub frontend_path: Option<String>,
    pub content_repo: Option<String>,
    pub content_remote: Option<String>,
    pub pandoc_bin: Option<String>,
    pub org_fmt_bin: Option<String>,
    pub cache_dir: Option<String>,
    pub site_title: Option<String>,
    pub commit_author_name: Option<String>,
    pub commit_author_email: Option<String>,
    pub oidc_issuer: Option<String>,
    pub oidc_client_id: Option<String>,
    pub oidc_client_secret: Option<String>,
    pub oidc_client_secret_file: Option<String>,
    pub base_url: Option<String>,
    pub webhook_secret: Option<String>,
    pub webhook_secret_file: Option<String>,
}

/// Settings read from the configuration file; paths are given as text.
#[derive(Debug, Clone, Default)]
pub struct ConfigFileRaw {
    pub log_level: Option<String>,
    pub log_format: Option<String>,
    pub listen: Option<String>,
    pub frontend_path: Option<String>,
    pub content_repo: Option<String>,
    pub content_remote: Option<String>,
    pub pandoc_bin: Option<String>,
    pub org_fmt_bin: Option<String>,
    pub cache_dir: Option<String>,
    pub site_title: Option<String>,
    pub commit_author_name: Option<String>,
    pub commit_author_email: Option<String>,
    pub oidc_issuer: Option<String>,
    pub oidc_client_id: Option<String>,
    pub oidc_client_secret: Option<String>,
    pub oidc_client_secret_file: Option<String>,
    pub base_url: Option<String>,
    pub webhook_secret: Option<String>,
    pub webhook_secret_file: Option<String>,
}

/// Validated, fully-resolved configuration.
#[derive(Debug)]
pub struct Config {
    pub log_level: LogLevel,
    pub log_format: LogFormat,
    pub listen_address: tokio_listener::ListenerAddress,
    pub frontend_path: String,
    pub content_repo: String,
    pub content_remote: Option<String>,
    pub pandoc_bin: String,
    pub org_fmt_bin: Option<String>,
    pub cache_dir: Option<String>,
    pub site_title: String,
    pub commit_author_name: String,
    pub commit_author_email: String,
    pub oidc_issuer: String,
    pub oidc_client_id: String,
    pub oidc_client_secret: String,
    pub base_url: String,
    pub webhook_secret: Option<String>,
}

/// Why the configuration could not be loaded.
#[derive(Debug, Clone)]
pub enum ConfigError {
    /// The configuration file could not be read.
    FileRead { path: String, message: String },
    /// The configuration file is not valid TOML for the settings.
    Parse { path: String, message: String },
    /// A setting is missing or invalid.
    Validation(String),
    /// The listen address was rejected.
    InvalidListenAddress { address: String, reason: String },
    /// A secret file could not be read.
    SecretFileRead { path: String, message: String },
}

/// The view of a configuration error.
pub enum ConfigErrorView {
    FileRead { path: Seq<char>, message: Seq<char> },
    Parse { path: Seq<char>, message: Seq<char> },
    Validation(Seq<char>),
    InvalidListenAddress { address: Seq<char>, reason: Seq<char> },
    SecretFileRead { path: Seq<char>, message: Seq<char> },
}

impl View for ConfigError {
    type V = ConfigErrorView;

    open spec fn view(&self) -> ConfigErrorView {
        match self {
            ConfigError::FileRead { path, message } => ConfigErrorView::FileRead {
                path: path@,
                message: message@,
            },
            ConfigError::Parse { path, message } => ConfigErrorView::Parse {
                path: path@,
                message: message@,
            },
            ConfigError::Validation(m) => ConfigErrorView::Validation(m@),
            ConfigError::InvalidListenAddress { address, reason } =>
                ConfigErrorView::InvalidListenAddress { address: address@, reason: reason@ },
            ConfigError::SecretFileRead { path, message } => ConfigErrorView::SecretFileRead {
                path: path@,
                message: message@,
            },
        }
    }
}

/// The first of two optional settings that is given.
pub open spec fn pick(a: Option<String>, b: Option<String>) -> Option<Seq<char>> {
    match a {
        Some(x) => Some(x@),
        None => opt_view(b),
    }
}

/// The first of two optional settings that is given, or the default.
pub open spec fn pick_or(a: Option<String>, b: Option<String>, d: Seq<char>) -> Seq<char> {
    match pick(a, b) {
        Some(x) => x,
        None => d,
    }
}

/// The message for an unknown log level.
pub open spec fn bad_log_level(s: Seq<char>) -> Seq<char> {
    "invalid log level (expected trace, debug, info, warn or error): "@ + s
}

/// The message for an unknown log format.
pub open spec fn bad_log_format(s: Seq<char>) -> Seq<char> {
    "invalid log format (expected text or json): "@ + s
}

/// The configuration file to read: the one given on the command line, or
/// else `config.toml` when it exists; `None` means the defaults alone.
pub open spec fn config_file_choice(cli_config: Option<Seq<char>>, default_exists: bool) -> Option<
    Seq<char>,
> {
    match cli_config {
        Some(p) => Some(p),
        None => if default_exists {
            Some("config.toml"@)
        } else {
            None
        },
    }
}

/// The secret file to read for a secret: none when the secret itself is
/// given, else the secret file setting.
pub open spec fn secret_file_choice(
    secret_cli: Option<String>,
    secret_file: Option<String>,
    path_cli: Option<String>,
    path_file: Option<String>,
) -> Option<Seq<char>> {
    if pick(secret_cli, secret_file) is Some {
        None
    } else {
        pick(path_cli, path_file)
    }
}

/// The OIDC client secret: given directly, or else the trimmed contents of
/// the secret file when it was read.
pub open spec fn oidc_secret_value(
    cli: CliRaw,
    file: ConfigFileRaw,
    read: Option<Result<String, String>>,
) -> Option<Seq<char>> {
    match pick(cli.oidc_client_secret, file.oidc_client_secret) {
        Some(s) => Some(s),
        None => match pick(cli.oidc_client_secret_file, file.oidc_client_secret_file) {
            Some(_) => match read {
                Some(Ok(c)) => Some(trim_ws(c@)),
                _ => None,
            },
            None => None,
        },
    }
}

/// The webhook secret: given directly, or else the trimmed contents of the
/// secret file when it was read; `None` disables signature checks.
pub open spec fn webhook_secret_value(
    cli: CliRaw,
    file: ConfigFileRaw,
    read: Option<Result<String, String>>,
) -> Option<Seq<char>> {
    match pick(cli.webhook_secret, file.webhook_secret) {
        Some(s) => Some(s),
        None => match pick(cli.webhook_secret_file, file.webhook_secret_file) {
            Some(_) => match read {
                Some(Ok(c)) => Some(trim_ws(c@)),
                _ => None,
            },
            None => None,
        },
    }
}

/// A failed read of a secret file, when the secret had to come from it.
pub open spec fn secret_read_error(
    secret_cli: Option<String>,
    secret_file: Option<String>,
    path_cli: Option<String>,
    path_file: Option<String>,
    read: Option<Result<String, String>>,
) -> Option<ConfigErrorView> {
    match secret_file_choice(secret_cli, secret_file, path_cli, path_file) {
        Some(p) => match read {
            Some(Err(m)) => Some(ConfigErrorView::SecretFileRead { path: p, message: m@ }),
            _ => None,
        },
        None => None,
    }
}

/// The first problem with the merged settings, in the order they are
/// checked: log level, log format, listen address, content repository, OIDC
/// issuer, client id, client secret, base URL, webhook secret file.
pub open spec fn first_config_error(
    cli: CliRaw,
    file: ConfigFileRaw,
    oidc_read: Option<Result<String, String>>,
    webhook_read: Option<Result<String, String>>,
) -> Option<ConfigErrorView> {
    let level = pick_or(cli.log_level, file.log_level, "info"@);
    let format = pick_or(cli.log_format, file.log_format, "text"@);
    let listen = pick_or(cli.listen, file.listen, "127.0.0.1:3000"@);
    if log_level_named(level) is None {
        Some(ConfigErrorView::Validation(bad_log_level(level)))
    } else if log_format_named(format) is None {
        Some(ConfigErrorView::Validation(bad_log_format(format)))
    } else if listener_address_error(listen) is Some {
        Some(
            ConfigErrorView::InvalidListenAddress {
                address: listen,
                reason: listener_address_error(listen)->0,
            },
        )
    } else if pick(cli.content_repo, file.content_repo) is None {
        Some(
            ConfigErrorView::Validation(
                "content_repo is required (path to the wiki git repository)"@,
            ),
        )
    } else if pick(cli.oidc_issuer, file.oidc_issuer) is None {
        Some(ConfigErrorView::Validation("oidc_issuer is required"@))
    } else if pick(cli.oidc_client_id, file.oidc_client_id) is None {
        Some(ConfigErrorView::Validation("oidc_client_id is required"@))
    } else if secret_read_error(
        cli.oidc_client_secret,
        file.oidc_client_secret,
        cli.oidc_client_secret_file,
        file.oidc_client_secret_file,
        oidc_read,
    ) is Some {
        secret_read_error(
            cli.oidc_client_secret,
            file.oidc_client_secret,
            cli.oidc_client_secret_file,
            file.oidc_client_secret_file,
            oidc_read,
        )
    } else if oidc_secret_value(cli, file, oidc_read) is None {
        Some(
            ConfigErrorView::Validation(
                "oidc_client_secret or oidc_client_secret_file is required"@,
            ),
        )
    } else if pick(cli.base_url, file.base_url) is None {
        Some(ConfigErrorView::Validation("base_url is required"@))
    } else {
        secret_read_error(
            cli.webhook_secret,
            file.webhook_secret,
            cli.webhook_secret_file,
            file.webhook_secret_file,
            webhook_read,
        )
    }
}

/// Whether `c` holds the settings merged from `cli` and `file`, with the
/// defaults filled in.
pub open spec fn config_matches(
    c: Config,
    cli: CliRaw,
    file: ConfigFileRaw,
    oidc_read: Option<Result<String, String>>,
    webhook_read: Option<Result<String, String>>,
) -> bool {
    &&& Some(c.log_level) == log_level_named(pick_or(cli.log_level, file.log_level, "info"@))
    &&& Some(c.log_format) == log_format_named(pick_or(cli.log_format, file.log_format, "text"@))
    &&& c.frontend_path@ == pick_or(cli.frontend_path, file.frontend_path, "frontend/public"@)
    &&& Some(c.content_repo@) == pick(cli.content_repo, file.content_repo)
    &&& opt_view(c.content_remote) == pick(cli.content_remote, file.content_remote)
    &&& c.pandoc_bin@ == pick_or(cli.pandoc_bin, file.pandoc_bin, "pandoc"@)
    &&& opt_view(c.org_fmt_bin) == pick(cli.org_fmt_bin, file.org_fmt_bin)
    &&& c.listen_address == listener_address_of(pick_or(cli.listen, file.listen, "127.0.0.1:3000"@))
    &&& opt_view(c.cache_dir) == pick(cli.cache_dir, file.cache_dir)
    &&& c.site_title@ == pick_or(cli.site_title, file.site_title, "Org Wiki"@)
    &&& c.commit_author_name@ == pick_or(
        cli.commit_author_name,
        file.commit_author_name,
        "Org Wiki"@,
    )
    &&& c.commit_author_email@ == pick_or(
        cli.commit_author_email,
        file.commit_author_email,
        "wiki@localhost"@,
    )
    &&& Some(c.oidc_issuer@) == pick(cli.oidc_issuer, file.oidc_issuer)
    &&& Some(c.oidc_client_id@) == pick(cli.oidc_client_id, file.oidc_client_id)
    &&& Some(c.oidc_client_secret@) == oidc_secret_value(cli, file, oidc_read)
    &&& Some(c.base_url@) == pick(cli.base_url, file.base_url)
    &&& opt_view(c.webhook_secret) == webhook_secret_value(cli, file, webhook_read)
}

/// The first of two optional settings that is given.
fn first_of(a: Option<String>, b: Option<String>) -> (r: Option<String>)
    ensures
        opt_view(r) == pick(a, b),
{
    match a {
        Some(x) => Some(x),
        None => b,
    }
}

/// The first of two optional settings that is given, or the default.
fn first_or(a: Option<String>, b: Option<String>, d: &str) -> (r: String)
    ensures
        r@ == pick_or(a, b, d@),
{
    match first_of(a, b) {
        Some(x) => x,
        None => d.to_owned(),
    }
}

/// `s` with leading and trailing white space removed.
fn trimmed(s: &str) -> (r: String)
    ensures
        r@ == trim_ws(s@),
{
    string_from_chars(&trim(&chars_of(s)))
}

/// The configuration file to read (see [`config_file_choice`]), given
/// whether `config.toml` exists in the working directory.
pub fn config_file_to_read(cli: &CliRaw, default_exists: bool) -> (r: Option<String>)
    ensures
        opt_view(r) == config_file_choice(opt_view(cli.config), default_exists),
{
    match &cli.config {
        Some(p) => Some(p.clone()),
        None => if default_exists {
            Some("config.toml".to_owned())
        } else {
            None
        },
    }
}

/// The OIDC client secret file to read, if the secret must come from one.
pub fn oidc_secret_file_to_read(cli: &CliRaw, file: &ConfigFileRaw) -> (r: Option<String>)
    ensures
        opt_view(r) == secret_file_choice(
            cli.oidc_client_secret,
            file.oidc_client_secret,
            cli.oidc_client_secret_file,
            file.oidc_client_secret_file,
        ),
{
    if cli.oidc_client_secret.is_some() || file.oidc_client_secret.is_some() {
        None
    } else {
        first_of(cli.oidc_client_secret_file.clone(), file.oidc_client_secret_file.clone())
    }
}

/// The webhook secret file to read, if the secret must come from one.
pub fn webhook_secret_file_to_read(cli: &CliRaw, file: &ConfigFileRaw) -> (r: Option<String>)
    ensures
        opt_view(r) == secret_file_choice(
            cli.webhook_secret,
            file.webhook_secret,
            cli.webhook_secret_file,
            file.webhook_secret_file,
        ),
{
    if cli.webhook_secret.is_some() || file.webhook_secret.is_some() {
        None
    } else {
        first_of(cli.webhook_secret_file.clone(), file.webhook_secret_file.clone())
    }
}

/// A secret given directly, or else read from its secret file.
fn resolve_secret(
    direct: Option<String>,
    path: Option<String>,
    read: Option<Result<String, String>>,
) -> (r: Result<Option<String>, ConfigError>)
    ensures
        match direct {
            Some(s) => r matches Ok(Some(v)) && v@ == s@,
            None => match path {
                None => r matches Ok(None),
                Some(p) => match read {
                    None => r matches Ok(None),
                    Some(Ok(c)) => r matches Ok(Some(v)) && v@ == trim_ws(c@),
                    Some(Err(m)) => r matches Err(e) && e@ == ConfigErrorView::SecretFileRead {
                        path: p@,
                        message: m@,
                    },
                },
            },
        },
{
    match direct {
        Some(s) => Ok(Some(s)),
        None => match path {
            None => Ok(None),
            Some(p) => match read {
                None => Ok(None),
                Some(Ok(c)) => Ok(Some(trimmed(c.as_str()))),
                Some(Err(m)) => Err(ConfigError::SecretFileRead { path: p, message: m }),
            },
        },
    }
}

impl Config {
    /// Merges the command line and the configuration file into a validated
    /// configuration.  `oidc_secret_read` and `webhook_secret_read` are what
    /// reading the secret files gave, for the files that
    /// [`oidc_secret_file_to_read`] and [`webhook_secret_file_to_read`] name
    /// (`None` when none was read).
    pub fn from_cli_and_file(
        cli: CliRaw,
        file: ConfigFileRaw,
        oidc_secret_read: Option<Result<String, String>>,
        webhook_secret_read: Option<Result<String, String>>,
    ) -> (r: Result<Config, ConfigError>)
        ensures
            match r {
                Ok(c) => first_config_error(cli, file, oidc_secret_read, webhook_secret_read)
                    is None && config_matches(
                    c,
                    cli,
                    file,
                    oidc_secret_read,
                    webhook_secret_read,
                ),
                Err(e) => first_config_error(cli, file, oidc_secret_read, webhook_secret_read)
                    == Some(e@),
            },
    {
        // ── logging ──
        let level_name = first_or(cli.log_level, file.log_level, "info");
        let log_level = match LogLevel::parse(level_name.as_str()) {
            Some(l) => l,
            None => {
                let mut m = "invalid log level (expected trace, debug, info, warn or error): ".to_owned();
                m.append(level_name.as_str());
                return Err(ConfigError::Validation(m));
            },
        };
        let format_name = first_or(cli.log_format, file.log_format, "text");
        let log_format = match LogFormat::parse(format_name.as_str()) {
            Some(f) => f,
            None => {
                let mut m = "invalid log format (expected text or json): ".to_owned();
                m.append(format_name.as_str());
                return Err(ConfigError::Validation(m));
            },
        };
        // ── network ──
        let listen = first_or(cli.listen, file.listen, "127.0.0.1:3000");
        let listen_address = match parse_listener_address(listen.as_str()) {
            Ok(a) => a,
            Err(reason) => {
                return Err(ConfigError::InvalidListenAddress { address: listen, reason });
            },
        };
        let frontend_path = first_or(cli.frontend_path, file.frontend_path, "frontend/public");
        // ── wiki ──
        let content_repo = match first_of(cli.content_repo, file.content_repo) {
            Some(p) => p,
            None => {
                return Err(
                    ConfigError::Validation(
                        "content_repo is required (path to the wiki git repository)".to_owned(),
                    ),
                );
            },
        };
        let content_remote = first_of(cli.content_remote, file.content_remote);
        let pandoc_bin = first_or(cli.pandoc_bin, file.pandoc_bin, "pandoc");
        // Post-save formatting is disabled unless an org-fmt binary is given.
        let org_fmt_bin = first_of(cli.org_fmt_bin, file.org_fmt_bin);
        let cache_dir = first_of(cli.cache_dir, file.cache_dir);
        let site_title = first_or(cli.site_title, file.site_title, "Org Wiki");
        // ── git identity ──
        let commit_author_name = first_or(
            cli.commit_author_name,
            file.commit_author_name,
            "Org Wiki",
        );
        let commit_author_email = first_or(
            cli.commit_author_email,
            file.commit_author_email,
            "wiki@localhost",
        );
        // ── OIDC ──
        let oidc_issuer = match first_of(cli.oidc_issuer, file.oidc_issuer) {
            Some(s) => s,
            None => {
                return Err(ConfigError::Validation("oidc_issuer is required".to_owned()));
            },
        };
        let oidc_client_id = match first_of(cli.oidc_client_id, file.oidc_client_id) {
            Some(s) => s,
            None => {
                return Err(ConfigError::Validation("oidc_client_id is required".to_owned()));
            },
        };
        let secret_path = first_of(cli.oidc_client_secret_file, file.oidc_client_secret_file);
        let oidc_client_secret = match resolve_secret(
            first_of(cli.oidc_client_secret, file.oidc_client_secret),
            secret_path,
            oidc_secret_read,
        ) {
            Err(e) => {
                return Err(e);
            },
            Ok(Some(s)) => s,
            Ok(None) => {
                return Err(
                    ConfigError::Validation(
                        "oidc_client_secret or oidc_client_secret_file is required".to_owned(),
                    ),
                );
            },
        };
        let base_url = match first_of(cli.base_url, file.base_url) {
            Some(s) => s,
            None => {
                return Err(ConfigError::Validation("base_url is required".to_owned()));
            },
        };
        // ── webhook ──
        let webhook_path = first_of(cli.webhook_secret_file, file.webhook_secret_file);
        let webhook_secret = match resolve_secret(
            first_of(cli.webhook_secret, file.webhook_secret),
            webhook_path,
            webhook_secret_read,
        ) {
            Err(e) => {
                return Err(e);
            },
            Ok(s) => s,
        };
        Ok(
            Config {
                log_level,
                log_format,
                listen_address,
                frontend_path,
                content_repo,
                content_remote,
                pandoc_bin,
                org_fmt_bin,
                cache_dir,
                site_title,
                commit_author_name,
                commit_author_email,
                oidc_issuer,
                oidc_client_id,
                oidc_client_secret,
                base_url,
                webhook_secret,
            },
        )
    }
}

// ── laws ────────────────────────────────────────────────────────────────────

/// `result` holds the command line's value when one is given, and the
/// configuration file's otherwise.
pub open spec fn command_line_first(
    from_cli: Option<String>,
    from_file: Option<String>,
    result: Option<Seq<char>>,
) -> bool {
    &&& from_cli matches Some(x) ==> result == Some(x@)
    &&& from_cli is None ==> result == opt_view(from_file)
}

/// `result` holds the command line's value when one is given, else the
/// configuration file's, else `default`.
pub open spec fn command_line_first_or(
    from_cli: Option<String>,
    from_file: Option<String>,
    default: Seq<char>,
    result: Seq<char>,
) -> bool {
    &&& from_cli matches Some(x) ==> result == x@
    &&& from_cli is None ==> (from_file matches Some(y) ==> result == y@)
    &&& from_cli is None && from_file is None ==> result == default
}

/// For every setting of a loaded configuration, a value given on the
/// command line is the one used; the configuration file's value is used
/// only when the command line gives none, and the default only when
/// neither does.
pub proof fn command_line_wins_over_file(
    c: Config,
    cli: CliRaw,
    file: ConfigFileRaw,
    oidc_read: Option<Result<String, String>>,
    webhook_read: Option<Result<String, String>>,
)
    requires
        config_matches(c, cli, file, oidc_read, webhook_read),
    ensures
        cli.log_level matches Some(x) ==> Some(c.log_level) == log_level_named(x@),
        cli.log_level is None ==> (file.log_level matches Some(y) ==> Some(c.log_level)
            == log_level_named(y@)),
        cli.log_level is None && file.log_level is None ==> c.log_level == LogLevel::Info,
        cli.log_format matches Some(x) ==> Some(c.log_format) == log_format_named(x@),
        cli.log_format is None ==> (file.log_format matches Some(y) ==> Some(c.log_format)
            == log_format_named(y@)),
        cli.log_format is None && file.log_format is None ==> c.log_format == LogFormat::Text,
        cli.listen matches Some(x) ==> c.listen_address == listener_address_of(x@),
        cli.listen is None ==> (file.listen matches Some(y) ==> c.listen_address
            == listener_address_of(y@)),
        cli.listen is None && file.listen is None ==> c.listen_address == listener_address_of(
            "127.0.0.1:3000"@,
        ),
        command_line_first_or(cli.frontend_path, file.frontend_path, "frontend/public"@, c.frontend_path@),
        command_line_first(cli.content_repo, file.content_repo, Some(c.content_repo@)),
        command_line_first(cli.content_remote, file.content_remote, opt_view(c.content_remote)),
        command_line_first_or(cli.pandoc_bin, file.pandoc_bin, "pandoc"@, c.pandoc_bin@),
        command_line_first(cli.org_fmt_bin, file.org_fmt_bin, opt_view(c.org_fmt_bin)),
        command_line_first(cli.cache_dir, file.cache_dir, opt_view(c.cache_dir)),
        command_line_first_or(cli.site_title, file.site_title, "Org Wiki"@, c.site_title@),
        command_line_first_or(
            cli.commit_author_name,
            file.commit_author_name,
            "Org Wiki"@,
            c.commit_author_name@,
        ),
        command_line_first_or(
            cli.commit_author_email,
            file.commit_author_email,
            "wiki@localhost"@,
            c.commit_author_email@,
        ),
        command_line_first(cli.oidc_issuer, file.oidc_issuer, Some(c.oidc_issuer@)),
        command_line_first(cli.oidc_client_id, file.oidc_client_id, Some(c.oidc_client_id@)),
        cli.oidc_client_secret matches Some(x) ==> c.oidc_client_secret@ == x@,
        cli.oidc_client_secret is None ==> (file.oidc_client_secret matches Some(y)
            ==> c.oidc_client_secret@ == y@),
        command_line_first(cli.base_url, file.base_url, Some(c.base_url@)),
        cli.webhook_secret matches Some(x) ==> opt_view(c.webhook_secret) == Some(x@),
        cli.webhook_secret is None ==> (file.webhook_secret matches Some(y)
            ==> opt_view(c.webhook_secret) == Some(y@)),
        cli.oidc_client_secret is None && file.oidc_client_secret is None && (
        cli.oidc_client_secret_file is Some || file.oidc_client_secret_file is Some) ==> (
        oidc_read matches Some(Ok(t)) ==> c.oidc_client_secret@ == trim_ws(t@)),
        cli.webhook_secret is None && file.webhook_secret is None && (cli.webhook_secret_file is Some
            || file.webhook_secret_file is Some) ==> (webhook_read matches Some(Ok(t)) ==> opt_view(
            c.webhook_secret,
        ) == Some(trim_ws(t@))),
        cli.webhook_secret is None && file.webhook_secret is None && cli.webhook_secret_file is None
            && file.webhook_secret_file is None ==> c.webhook_secret is None,
{
    reveal_strlit("info");
    reveal_strlit("text");
    reveal_strlit("trace");
    reveal_strlit("debug");
    assert(eq_ignore_ascii_case("info"@, "info"@));
    assert(!eq_ignore_ascii_case("info"@, "trace"@));
    assert(!eq_ignore_ascii_case("info"@, "debug"@));
    assert(eq_ignore_ascii_case("text"@, "text"@));
}

/// A configuration loads only when the content repository, the OIDC
/// issuer, the OIDC client id and the base URL are each given, on the
/// command line or in the configuration file.
pub proof fn required_settings_are_given(
    cli: CliRaw,
    file: ConfigFileRaw,
    oidc_read: Option<Result<String, String>>,
    webhook_read: Option<Result<String, String>>,
)
    requires
        first_config_error(cli, file, oidc_read, webhook_read) is None,
    ensures
        cli.content_repo is Some || file.content_repo is Some,
        cli.oidc_issuer is Some || file.oidc_issuer is Some,
        cli.oidc_client_id is Some || file.oidc_client_id is Some,
        cli.base_url is Some || file.base_url is Some,
{
}

/// A name matches at most one of two words that differ at a position where
/// neither holds an ASCII letter that could fold onto the other.
proof fn lemma_names_differ(s: Seq<char>, a: Seq<char>, b: Seq<char>, i: int)
    requires
        0 <= i < a.len(),
        i < b.len(),
        ascii_lower(a[i]) != ascii_lower(b[i]),
    ensures
        !(eq_ignore_ascii_case(s, a) && eq_ignore_ascii_case(s, b)),
{
    if eq_ignore_ascii_case(s, a) && eq_ignore_ascii_case(s, b) {
        assert(ascii_lower(s[i]) == ascii_lower(a[i]));
        assert(ascii_lower(s[i]) == ascii_lower(b[i]));
    }
}

/// Each of the five documented level names (ignoring ASCII case) gives its
/// level, and no other text gives a level.
pub proof fn log_level_names(s: Seq<char>)
    ensures
        eq_ignore_ascii_case(s, "trace"@) ==> log_level_named(s) == Some(LogLevel::Trace),
        eq_ignore_ascii_case(s, "debug"@) ==> log_level_named(s) == Some(LogLevel::Debug),
        eq_ignore_ascii_case(s, "info"@) ==> log_level_named(s) == Some(LogLevel::Info),
        eq_ignore_ascii_case(s, "warn"@) ==> log_level_named(s) == Some(LogLevel::Warn),
        eq_ignore_ascii_case(s, "error"@) ==> log_level_named(s) == Some(LogLevel::Error),
        log_level_named(s) is Some ==> eq_ignore_ascii_case(s, "trace"@) || eq_ignore_ascii_case(
            s,
            "debug"@,
        ) || eq_ignore_ascii_case(s, "info"@) || eq_ignore_ascii_case(s, "warn"@)
            || eq_ignore_ascii_case(s, "error"@),
{
    reveal_strlit("trace");
    reveal_strlit("debug");
    reveal_strlit("info");
    reveal_strlit("warn");
    reveal_strlit("error");
    lemma_names_differ(s, "trace"@, "debug"@, 0);
    lemma_names_differ(s, "trace"@, "error"@, 0);
    lemma_names_differ(s, "debug"@, "error"@, 0);
    lemma_names_differ(s, "info"@, "warn"@, 0);
}

/// The two documented format names (ignoring ASCII case) give their
/// format, and no other text gives a format.
pub proof fn log_format_names(s: Seq<char>)
    ensures
        eq_ignore_ascii_case(s, "text"@) ==> log_format_named(s) == Some(LogFormat::Text),
        eq_ignore_ascii_case(s, "json"@) ==> log_format_named(s) == Some(LogFormat::Json),
        log_format_named(s) is Some ==> eq_ignore_ascii_case(s, "text"@) || eq_ignore_ascii_case(
            s,
            "json"@,
        ),
{
    reveal_strlit("text");
    reveal_strlit("json");
    lemma_names_differ(s, "text"@, "json"@, 0);
}

} // verus!
