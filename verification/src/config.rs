//! Application configuration.

use crate::api::status_util::ADMIN_DID;
use crate::api::webhooks::{parse_url, url_parts};
use crate::text::{
    chars_of, has_prefix, opt_view, parse_i64, parsed_i64, starts_with, str_eq, string_of,
};
use vstd::prelude::*;

verus! {

/// Application configuration.
#[derive(Debug, Clone)]
pub struct Config {
    /// The administrator's identifier, for moderation.
    pub admin_did: String,
    /// Owner handle for the default status page.
    pub owner_handle: String,
    pub database_url: String,
    /// Base URL of the authentication domain.
    pub oauth_redirect_base: String,
    /// URL of the status domain.
    pub app_url: String,
    pub server_host: String,
    pub server_port: u16,
    /// Whether the record stream is consumed.
    pub enable_firehose: bool,
    pub log_level: String,
    pub dev_mode: bool,
    /// Directory that custom emojis are served from.
    pub emoji_dir: String,
}

/// Whether a service whose authentication base URL is `base` runs in
/// production: it does unless the base is a plain-HTTP URL on `localhost`
/// or `127.0.0.1`.
pub open spec fn production(base: Seq<char>) -> bool {
    !has_prefix(base, "http://localhost"@) && !has_prefix(base, "http://127.0.0.1"@)
}

/// The path of the database file: the database URL without the scheme
/// `sqlite://`, where it begins with it.
pub open spec fn path_of_database(url: Seq<char>) -> Seq<char> {
    if has_prefix(url, "sqlite://"@) {
        url.skip("sqlite://"@.len() as int)
    } else {
        url
    }
}

impl Config {
    /// The path of the database file.
    pub fn database_path(&self) -> (path: String)
        ensures
            path@ == path_of_database(self.database_url@),
    {
        let url = chars_of(self.database_url.as_str());
        let scheme = chars_of("sqlite://");
        if starts_with(&url, &scheme) {
            let path = string_of(&url, scheme.len(), url.len());
            path
        } else {
            self.database_url.clone()
        }
    }

    /// Whether authentication runs on a domain of its own.
    pub fn uses_separate_auth_domain(&self) -> (b: bool)
        ensures
            b == (self.oauth_redirect_base@ != self.app_url@),
    {
        !str_eq(self.oauth_redirect_base.as_str(), self.app_url.as_str())
    }

    /// Whether the service runs in production.
    pub fn is_production(&self) -> (b: bool)
        ensures
            b == production(self.oauth_redirect_base@),
    {
        let base = chars_of(self.oauth_redirect_base.as_str());
        let local_name = chars_of("http://localhost");
        let local_address = chars_of("http://127.0.0.1");
        !starts_with(&base, &local_name) && !starts_with(&base, &local_address)
    }
}

/// The mathematical value of a [`Config`].
pub struct ConfigView {
    pub admin_did: Seq<char>,
    pub owner_handle: Seq<char>,
    pub database_url: Seq<char>,
    pub oauth_redirect_base: Seq<char>,
    pub app_url: Seq<char>,
    pub server_host: Seq<char>,
    pub server_port: u16,
    pub enable_firehose: bool,
    pub log_level: Seq<char>,
    pub dev_mode: bool,
    pub emoji_dir: Seq<char>,
}

impl View for Config {
    type V = ConfigView;

    open spec fn view(&self) -> ConfigView {
        ConfigView {
            admin_did: self.admin_did@,
            owner_handle: self.owner_handle@,
            database_url: self.database_url@,
            oauth_redirect_base: self.oauth_redirect_base@,
            app_url: self.app_url@,
            server_host: self.server_host@,
            server_port: self.server_port,
            enable_firehose: self.enable_firehose,
            log_level: self.log_level@,
            dev_mode: self.dev_mode,
            emoji_dir: self.emoji_dir@,
        }
    }
}

/// The settings as they were found in the environment, each absent where
/// its variable is not set.
#[derive(Debug, Clone)]
pub struct Settings {
    pub owner_handle: Option<String>,
    pub database_url: Option<String>,
    pub oauth_redirect_base: Option<String>,
    pub app_url: Option<String>,
    pub server_host: Option<String>,
    pub server_port: Option<String>,
    pub enable_firehose: Option<String>,
    pub log_level: Option<String>,
    pub dev_mode: Option<String>,
    pub emoji_dir: Option<String>,
}

/// The mathematical value of a [`Settings`].
pub struct SettingsView {
    pub owner_handle: Option<Seq<char>>,
    pub database_url: Option<Seq<char>>,
    pub oauth_redirect_base: Option<Seq<char>>,
    pub app_url: Option<Seq<char>>,
    pub server_host: Option<Seq<char>>,
    pub server_port: Option<Seq<char>>,
    pub enable_firehose: Option<Seq<char>>,
    pub log_level: Option<Seq<char>>,
    pub dev_mode: Option<Seq<char>>,
    pub emoji_dir: Option<Seq<char>>,
}

impl View for Settings {
    type V = SettingsView;

    open spec fn view(&self) -> SettingsView {
        SettingsView {
            owner_handle: opt_view(self.owner_handle),
            database_url: opt_view(self.database_url),
            oauth_redirect_base: opt_view(self.oauth_redirect_base),
            app_url: opt_view(self.app_url),
            server_host: opt_view(self.server_host),
            server_port: opt_view(self.server_port),
            enable_firehose: opt_view(self.enable_firehose),
            log_level: opt_view(self.log_level),
            dev_mode: opt_view(self.dev_mode),
            emoji_dir: opt_view(self.emoji_dir),
        }
    }
}

/// Why the settings make no configuration.
#[derive(Debug, Clone, Copy, PartialEq, Eq, Structural)]
pub enum ConfigError {
    /// The authentication base URL does not parse.
    InvalidOauthRedirectBase,
    /// The application URL does not parse.
    InvalidAppUrl,
}

impl ConfigError {
    /// The error in words.
    pub fn message(&self) -> (m: &'static str)
        ensures
            m@ == match self {
                ConfigError::InvalidOauthRedirectBase => "Invalid OAUTH_REDIRECT_BASE URL configuration"@,
                ConfigError::InvalidAppUrl => "Invalid APP_URL configuration"@,
            },
    {
        match self {
            ConfigError::InvalidOauthRedirectBase => "Invalid OAUTH_REDIRECT_BASE URL configuration",
            ConfigError::InvalidAppUrl => "Invalid APP_URL configuration",
        }
    }
}

/// A setting, or its default where it is absent.
pub open spec fn or_default(o: Option<Seq<char>>, default: Seq<char>) -> Seq<char> {
    match o {
        Some(s) => s,
        None => default,
    }
}

/// The port that a text names: a decimal number up to 65535 without minus
/// sign. `None` where the text is no such number.
pub open spec fn parsed_port(s: Seq<char>) -> Option<u16> {
    match parsed_i64(s) {
        Some(n) => if s[0] != '-' && 0 <= n <= 65535 {
            Some(n as u16)
        } else {
            None
        },
        None => None,
    }
}

/// The truth value that a text names: `true` or `false`, and nothing else.
pub open spec fn parsed_bool(s: Seq<char>) -> Option<bool> {
    if s == "true"@ {
        Some(true)
    } else if s == "false"@ {
        Some(false)
    } else {
        None
    }
}

/// A port setting, or `default` where it is absent or names no port.
pub open spec fn port_or(o: Option<Seq<char>>, default: u16) -> u16 {
    match o {
        Some(s) => match parsed_port(s) {
            Some(p) => p,
            None => default,
        },
        None => default,
    }
}

/// A switch, which is off where it is absent or names no truth value.
pub open spec fn switch(o: Option<Seq<char>>) -> bool {
    match o {
        Some(s) => parsed_bool(s) == Some(true),
        None => false,
    }
}

/// The configuration that the settings make, with a default for each that
/// is absent.
pub open spec fn config_of(v: SettingsView) -> ConfigView {
    ConfigView {
        admin_did: ADMIN_DID@,
        owner_handle: or_default(v.owner_handle, "zzstoatzz.io"@),
        database_url: or_default(v.database_url, "sqlite://./statusphere.sqlite3"@),
        oauth_redirect_base: or_default(v.oauth_redirect_base, "http://localhost:8080"@),
        app_url: or_default(v.app_url, "http://localhost:8080"@),
        server_host: or_default(v.server_host, "127.0.0.1"@),
        server_port: port_or(v.server_port, 8080),
        enable_firehose: switch(v.enable_firehose),
        log_level: or_default(v.log_level, "info"@),
        dev_mode: switch(v.dev_mode),
        emoji_dir: or_default(v.emoji_dir, "static/emojis"@),
    }
}

/// What the settings make: their configuration, where the authentication
/// base URL and the application URL both parse.
pub open spec fn configured(v: SettingsView) -> Result<ConfigView, ConfigError> {
    let c = config_of(v);
    if url_parts(c.oauth_redirect_base) is None {
        Err(ConfigError::InvalidOauthRedirectBase)
    } else if url_parts(c.app_url) is None {
        Err(ConfigError::InvalidAppUrl)
    } else {
        Ok(c)
    }
}

/// The view of a result of configuration.
pub open spec fn configured_view(r: Result<Config, ConfigError>) -> Result<
    ConfigView,
    ConfigError,
> {
    match r {
        Ok(c) => Ok(c@),
        Err(e) => Err(e),
    }
}

/// A setting, or its default where it is absent.
fn setting(o: &Option<String>, default: &str) -> (s: String)
    ensures
        s@ == or_default(opt_view(*o), default@),
{
    match o {
        Some(s) => s.clone(),
        None => default.to_owned(),
    }
}

/// Reads a port.
pub fn parse_port(s: &str) -> (r: Option<u16>)
    ensures
        r == parsed_port(s@),
{
    let chars = chars_of(s);
    match parse_i64(&chars) {
        Some(n) => if chars[0] != '-' && 0 <= n && n <= 65535 {
            Some(n as u16)
        } else {
            None
        },
        None => None,
    }
}

/// Reads a truth value.
pub fn parse_bool(s: &str) -> (r: Option<bool>)
    ensures
        r == parsed_bool(s@),
{
    if str_eq(s, "true") {
        Some(true)
    } else if str_eq(s, "false") {
        Some(false)
    } else {
        None
    }
}

/// Reads a switch.
fn read_switch(o: &Option<String>) -> (b: bool)
    ensures
        b == switch(opt_view(*o)),
{
    match o {
        Some(s) => match parse_bool(s.as_str()) {
            Some(b) => b,
            None => false,
        },
        None => false,
    }
}

impl Config {
    /// Makes the configuration from the settings found in the environment.
    pub fn from_settings(vars: &Settings) -> (r: Result<Config, ConfigError>)
        ensures
            configured_view(r) == configured(vars@),
    {
        let config = Config {
            admin_did: ADMIN_DID.to_owned(),
            owner_handle: setting(&vars.owner_handle, "zzstoatzz.io"),
            database_url: setting(&vars.database_url, "sqlite://./statusphere.sqlite3"),
            oauth_redirect_base: setting(&vars.oauth_redirect_base, "http://localhost:8080"),
            app_url: setting(&vars.app_url, "http://localhost:8080"),
            server_host: setting(&vars.server_host, "127.0.0.1"),
            server_port: match &vars.server_port {
                Some(s) => match parse_port(s.as_str()) {
                    Some(p) => p,
                    None => 8080,
                },
                None => 8080,
            },
            enable_firehose: read_switch(&vars.enable_firehose),
            log_level: setting(&vars.log_level, "info"),
            dev_mode: read_switch(&vars.dev_mode),
            emoji_dir: setting(&vars.emoji_dir, "static/emojis"),
        };
        if parse_url(config.oauth_redirect_base.as_str()).is_none() {
            return Err(ConfigError::InvalidOauthRedirectBase);
        }
        if parse_url(config.app_url.as_str()).is_none() {
            return Err(ConfigError::InvalidAppUrl);
        }
        Ok(config)
    }
}

} // verus!
