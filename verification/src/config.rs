//! Configuration: defaults, validation of every variable, and the loaded
//! `Config`.
//!
//! `load_config` takes a snapshot of the environment (`ConfigVars`, one
//! optional value per variable) and either returns the configuration or the
//! first validation error, checking the variables in a fixed order. Its result
//! is exactly `spec_load_config` of the snapshot.
use crate::text::{
    ascii_lower, concat2, concat3, lower_eq, owned, parse_decimal, parses_within, starts_with,
    str_eq,
};
use vstd::prelude::*;

verus! {

/// Default HTTP port to listen on.
pub const DEFAULT_PORT: &'static str = "8080";

/// Default URL of the Anthropic API.
pub const DEFAULT_ANTHROPIC_TARGET_URL: &'static str = "https://api.anthropic.com";

/// Default URL of the OpenAI API.
pub const DEFAULT_OPENAI_TARGET_URL: &'static str = "https://api.openai.com";

/// Default log level for stdout.
pub const DEFAULT_LOG_STDOUT_LEVEL: &'static str = "info";

/// Default log level for the log file.
pub const DEFAULT_LOG_FILE_LEVEL: &'static str = "debug";

/// Default stdout log format.
pub const DEFAULT_LOG_FORMAT: &'static str = "pretty";

/// Whether request and response bodies are logged by default.
pub const DEFAULT_LOG_BODIES: bool = true;

/// Default log file path.
pub const DEFAULT_LOG_FILE_PATH: &'static str = "./switchboard.log";

/// Default maximum size in bytes of a logged body.
pub const DEFAULT_LOG_MAX_BODY_SIZE: usize = 20480;

/// Default permission mode of log directories on Unix (owner rwx, group rx).
pub const DEFAULT_LOG_DIRECTORY_MODE: u32 = 0o750;

/// Whether the OpenAI integration is enabled by default.
pub const DEFAULT_OPENAI_ENABLED: bool = false;

/// Default maximum age of log files in days: `None`, no cleanup.
pub const DEFAULT_LOG_MAX_AGE_DAYS: Option<u32> = None;

/// Errors of configuration loading and of the global configuration.
#[derive(Debug)]
pub enum ConfigError {
    /// ANTHROPIC_API_KEY is not set.
    MissingAnthropicApiKey,
    /// OpenAI is enabled but OPENAI_API_KEY is not set.
    MissingOpenAiKey,
    /// A required variable is not set.
    MissingRequiredKey(&'static str),
    /// A boolean variable holds something other than true/false/1/0.
    InvalidBooleanValue { var: String, value: String },
    /// A variable is set to the empty string.
    EmptyValue(&'static str),
    /// A numeric variable does not parse.
    InvalidNumericValue { var: String, value: String },
    /// A variable has an invalid format or value.
    InvalidFormat { var: String, reason: String },
    /// The global configuration was already set.
    AlreadyInitialized,
    /// The global configuration was not set yet.
    NotInitialized,
}

/// The mathematical value of a `ConfigError`: its strings as character sequences.
pub enum ConfigErrorView {
    MissingAnthropicApiKey,
    MissingOpenAiKey,
    MissingRequiredKey(Seq<char>),
    InvalidBooleanValue { var: Seq<char>, value: Seq<char> },
    EmptyValue(Seq<char>),
    InvalidNumericValue { var: Seq<char>, value: Seq<char> },
    InvalidFormat { var: Seq<char>, reason: Seq<char> },
    AlreadyInitialized,
    NotInitialized,
}

impl View for ConfigError {
    type V = ConfigErrorView;

    open spec fn view(&self) -> ConfigErrorView {
        match self {
            ConfigError::MissingAnthropicApiKey => ConfigErrorView::MissingAnthropicApiKey,
            ConfigError::MissingOpenAiKey => ConfigErrorView::MissingOpenAiKey,
            ConfigError::MissingRequiredKey(k) => ConfigErrorView::MissingRequiredKey(k@),
            ConfigError::InvalidBooleanValue { var, value } => ConfigErrorView::InvalidBooleanValue {
                var: var@,
                value: value@,
            },
            ConfigError::EmptyValue(k) => ConfigErrorView::EmptyValue(k@),
            ConfigError::InvalidNumericValue { var, value } => ConfigErrorView::InvalidNumericValue {
                var: var@,
                value: value@,
            },
            ConfigError::InvalidFormat { var, reason } => ConfigErrorView::InvalidFormat {
                var: var@,
                reason: reason@,
            },
            ConfigError::AlreadyInitialized => ConfigErrorView::AlreadyInitialized,
            ConfigError::NotInitialized => ConfigErrorView::NotInitialized,
        }
    }
}

/// The value of a result whose error is a `ConfigError`.
pub open spec fn result_view<T>(r: Result<T, ConfigError>) -> Result<T, ConfigErrorView> {
    match r {
        Ok(t) => Ok(t),
        Err(e) => Err(e@),
    }
}

/// The value of an optional string.
pub open spec fn opt_view(o: Option<String>) -> Option<Seq<char>> {
    match o {
        Some(s) => Some(s@),
        None => None,
    }
}

/// How the base directory for logs is chosen.
#[derive(Debug, Clone, Copy, PartialEq, Eq, Structural)]
pub enum LogDirectoryMode {
    /// From the detected environment.
    Default,
    /// The XDG data directory of the user.
    Xdg,
    /// The system log directory.
    System,
}

impl Default for LogDirectoryMode {
    fn default() -> (r: Self)
        ensures
            r == LogDirectoryMode::Default,
    {
        LogDirectoryMode::Default
    }
}

/// The application configuration.
#[derive(Clone)]
pub struct Config {
    /// HTTP port to listen on.
    pub port: String,
    /// API key for the Anthropic API.
    pub anthropic_api_key: String,
    /// Base URL of the Anthropic API.
    pub anthropic_target_url: String,
    /// API key for the OpenAI API, if set.
    pub openai_api_key: Option<String>,
    /// Base URL of the OpenAI API.
    pub openai_api_base_url: String,
    /// Whether the OpenAI integration is enabled.
    pub openai_enabled: bool,
    /// Minimum log level for stdout.
    pub log_stdout_level: String,
    /// Stdout log format (pretty or json).
    pub log_format: String,
    /// Whether to log request and response bodies.
    pub log_bodies: bool,
    /// Path of the log file.
    pub log_file_path: String,
    /// Minimum log level for the log file.
    pub log_file_level: String,
    /// Maximum size in bytes of a logged body.
    pub log_max_body_size: usize,
    /// How the log directory is chosen.
    pub log_directory_mode: LogDirectoryMode,
    /// Maximum age in days of log files before cleanup; `None` disables cleanup.
    pub log_max_age_days: Option<u32>,
}

/// The mathematical value of a `Config`.
pub struct ConfigView {
    pub port: Seq<char>,
    pub anthropic_api_key: Seq<char>,
    pub anthropic_target_url: Seq<char>,
    pub openai_api_key: Option<Seq<char>>,
    pub openai_api_base_url: Seq<char>,
    pub openai_enabled: bool,
    pub log_stdout_level: Seq<char>,
    pub log_format: Seq<char>,
    pub log_bodies: bool,
    pub log_file_path: Seq<char>,
    pub log_file_level: Seq<char>,
    pub log_max_body_size: usize,
    pub log_directory_mode: LogDirectoryMode,
    pub log_max_age_days: Option<u32>,
}

impl View for Config {
    type V = ConfigView;

    open spec fn view(&self) -> ConfigView {
        ConfigView {
            port: self.port@,
            anthropic_api_key: self.anthropic_api_key@,
            anthropic_target_url: self.anthropic_target_url@,
            openai_api_key: opt_view(self.openai_api_key),
            openai_api_base_url: self.openai_api_base_url@,
            openai_enabled: self.openai_enabled,
            log_stdout_level: self.log_stdout_level@,
            log_format: self.log_format@,
            log_bodies: self.log_bodies,
            log_file_path: self.log_file_path@,
            log_file_level: self.log_file_level@,
            log_max_body_size: self.log_max_body_size,
            log_directory_mode: self.log_directory_mode,
            log_max_age_days: self.log_max_age_days,
        }
    }
}

/// The configuration with every default and an empty Anthropic API key.
pub open spec fn default_config_view() -> ConfigView {
    ConfigView {
        port: DEFAULT_PORT@,
        anthropic_api_key: Seq::empty(),
        anthropic_target_url: DEFAULT_ANTHROPIC_TARGET_URL@,
        openai_api_key: None,
        openai_api_base_url: DEFAULT_OPENAI_TARGET_URL@,
        openai_enabled: DEFAULT_OPENAI_ENABLED,
        log_stdout_level: DEFAULT_LOG_STDOUT_LEVEL@,
        log_format: DEFAULT_LOG_FORMAT@,
        log_bodies: DEFAULT_LOG_BODIES,
        log_file_path: DEFAULT_LOG_FILE_PATH@,
        log_file_level: DEFAULT_LOG_FILE_LEVEL@,
        log_max_body_size: DEFAULT_LOG_MAX_BODY_SIZE,
        log_directory_mode: LogDirectoryMode::Default,
        log_max_age_days: DEFAULT_LOG_MAX_AGE_DAYS,
    }
}

impl Default for Config {
    /// Every default value; the Anthropic API key is empty and must be set
    /// before requests can be authenticated.
    fn default() -> (r: Self)
        ensures
            r@ == default_config_view(),
    {
        Config {
            port: owned(DEFAULT_PORT),
            anthropic_api_key: String::new(),
            anthropic_target_url: owned(DEFAULT_ANTHROPIC_TARGET_URL),
            openai_api_key: None,
            openai_api_base_url: owned(DEFAULT_OPENAI_TARGET_URL),
            openai_enabled: DEFAULT_OPENAI_ENABLED,
            log_stdout_level: owned(DEFAULT_LOG_STDOUT_LEVEL),
            log_format: owned(DEFAULT_LOG_FORMAT),
            log_bodies: DEFAULT_LOG_BODIES,
            log_file_path: owned(DEFAULT_LOG_FILE_PATH),
            log_file_level: owned(DEFAULT_LOG_FILE_LEVEL),
            log_max_body_size: DEFAULT_LOG_MAX_BODY_SIZE,
            log_directory_mode: LogDirectoryMode::Default,
            log_max_age_days: DEFAULT_LOG_MAX_AGE_DAYS,
        }
    }
}

/// The value of each configuration variable in the environment, `None` when
/// the variable is not set.
pub struct ConfigVars {
    /// PORT
    pub port: Option<String>,
    /// ANTHROPIC_API_KEY
    pub anthropic_api_key: Option<String>,
    /// ANTHROPIC_TARGET_URL
    pub anthropic_target_url: Option<String>,
    /// OPENAI_API_KEY
    pub openai_api_key: Option<String>,
    /// OPENAI_API_BASE_URL
    pub openai_api_base_url: Option<String>,
    /// OPENAI_ENABLED
    pub openai_enabled: Option<String>,
    /// LOG_LEVEL
    pub log_level: Option<String>,
    /// LOG_FORMAT
    pub log_format: Option<String>,
    /// LOG_BODIES
    pub log_bodies: Option<String>,
    /// LOG_FILE_PATH
    pub log_file_path: Option<String>,
    /// LOG_FILE_LEVEL
    pub log_file_level: Option<String>,
    /// LOG_MAX_BODY_SIZE
    pub log_max_body_size: Option<String>,
    /// LOG_DIRECTORY_MODE
    pub log_directory_mode: Option<String>,
    /// LOG_MAX_AGE_DAYS
    pub log_max_age_days: Option<String>,
}

/// The mathematical value of a `ConfigVars`.
pub struct ConfigVarsView {
    pub port: Option<Seq<char>>,
    pub anthropic_api_key: Option<Seq<char>>,
    pub anthropic_target_url: Option<Seq<char>>,
    pub openai_api_key: Option<Seq<char>>,
    pub openai_api_base_url: Option<Seq<char>>,
    pub openai_enabled: Option<Seq<char>>,
    pub log_level: Option<Seq<char>>,
    pub log_format: Option<Seq<char>>,
    pub log_bodies: Option<Seq<char>>,
    pub log_file_path: Option<Seq<char>>,
    pub log_file_level: Option<Seq<char>>,
    pub log_max_body_size: Option<Seq<char>>,
    pub log_directory_mode: Option<Seq<char>>,
    pub log_max_age_days: Option<Seq<char>>,
}

impl View for ConfigVars {
    type V = ConfigVarsView;

    open spec fn view(&self) -> ConfigVarsView {
        ConfigVarsView {
            port: opt_view(self.port),
            anthropic_api_key: opt_view(self.anthropic_api_key),
            anthropic_target_url: opt_view(self.anthropic_target_url),
            openai_api_key: opt_view(self.openai_api_key),
            openai_api_base_url: opt_view(self.openai_api_base_url),
            openai_enabled: opt_view(self.openai_enabled),
            log_level: opt_view(self.log_level),
            log_format: opt_view(self.log_format),
            log_bodies: opt_view(self.log_bodies),
            log_file_path: opt_view(self.log_file_path),
            log_file_level: opt_view(self.log_file_level),
            log_max_body_size: opt_view(self.log_max_body_size),
            log_directory_mode: opt_view(self.log_directory_mode),
            log_max_age_days: opt_view(self.log_max_age_days),
        }
    }
}

impl Default for ConfigVars {
    /// No variable set.
    fn default() -> (r: Self)
        ensures
            r@ == (ConfigVarsView {
                port: None,
                anthropic_api_key: None,
                anthropic_target_url: None,
                openai_api_key: None,
                openai_api_base_url: None,
                openai_enabled: None,
                log_level: None,
                log_format: None,
                log_bodies: None,
                log_file_path: None,
                log_file_level: None,
                log_max_body_size: None,
                log_directory_mode: None,
                log_max_age_days: None,
            }),
    {
        ConfigVars {
            port: None,
            anthropic_api_key: None,
            anthropic_target_url: None,
            openai_api_key: None,
            openai_api_base_url: None,
            openai_enabled: None,
            log_level: None,
            log_format: None,
            log_bodies: None,
            log_file_path: None,
            log_file_level: None,
            log_max_body_size: None,
            log_directory_mode: None,
            log_max_age_days: None,
        }
    }
}

/// The boolean a variable's value denotes: `true`/`1` and `false`/`0`, the
/// words in any ASCII case; `None` for anything else.
pub open spec fn parse_bool_value(v: Seq<char>) -> Option<bool> {
    if ascii_lower(v) == "true"@ || v == "1"@ {
        Some(true)
    } else if ascii_lower(v) == "false"@ || v == "0"@ {
        Some(false)
    } else {
        None
    }
}

/// The outcome of reading the boolean variable `var` whose value is `value`.
pub open spec fn spec_parse_bool_env(var: Seq<char>, value: Option<Seq<char>>, default: bool) -> Result<
    bool,
    ConfigErrorView,
> {
    match value {
        None => Ok(default),
        Some(v) => match parse_bool_value(v) {
            Some(b) => Ok(b),
            None => Err(ConfigErrorView::InvalidBooleanValue { var, value: v }),
        },
    }
}

/// Reads the boolean variable `var_name` whose value in the environment is
/// `value`: unset gives `default`; `true`/`1` and `false`/`0` (words in any
/// case) give the boolean; anything else is `InvalidBooleanValue`.
pub fn parse_bool_env(var_name: &str, value: Option<String>, default: bool) -> (r: Result<
    bool,
    ConfigError,
>)
    ensures
        result_view(r) == spec_parse_bool_env(var_name@, opt_view(value), default),
{
    match value {
        None => Ok(default),
        Some(v) => {
            if lower_eq(v.as_str(), "true") || str_eq(v.as_str(), "1") {
                Ok(true)
            } else if lower_eq(v.as_str(), "false") || str_eq(v.as_str(), "0") {
                Ok(false)
            } else {
                Err(ConfigError::InvalidBooleanValue { var: owned(var_name), value: v })
            }
        },
    }
}

/// `u` starts with `http://` or `https://`.
pub open spec fn is_http_url(u: Seq<char>) -> bool {
    "http://"@.is_prefix_of(u) || "https://"@.is_prefix_of(u)
}

/// The reason given for a URL without an HTTP scheme.
pub open spec fn url_reason() -> Seq<char> {
    "URL must start with 'http://' or 'https://'"@
}

/// A log level name: trace, debug, info, warn or error, in any ASCII case.
pub open spec fn is_log_level(l: Seq<char>) -> bool {
    let w = ascii_lower(l);
    w == "trace"@ || w == "debug"@ || w == "info"@ || w == "warn"@ || w == "error"@
}

/// The reason given for an invalid log level `l`.
pub open spec fn level_reason(l: Seq<char>) -> Seq<char> {
    "Invalid log level '"@ + l + "'. Expected 'trace', 'debug', 'info', 'warn', or 'error'"@
}

/// A log format name: pretty or json, in any ASCII case.
pub open spec fn is_log_format(f: Seq<char>) -> bool {
    ascii_lower(f) == "pretty"@ || ascii_lower(f) == "json"@
}

/// The reason given for an invalid log format `f`.
pub open spec fn format_reason(f: Seq<char>) -> Seq<char> {
    "Invalid log format '"@ + f + "'. Expected 'pretty' or 'json'"@
}

/// The directory mode a LOG_DIRECTORY_MODE value names (any ASCII case).
pub open spec fn parse_dir_mode(m: Seq<char>) -> Option<LogDirectoryMode> {
    if ascii_lower(m) == "xdg"@ {
        Some(LogDirectoryMode::Xdg)
    } else if ascii_lower(m) == "system"@ {
        Some(LogDirectoryMode::System)
    } else if ascii_lower(m) == "default"@ {
        Some(LogDirectoryMode::Default)
    } else {
        None
    }
}

/// The reason given for an invalid directory mode `m`.
pub open spec fn mode_reason(m: Seq<char>) -> Seq<char> {
    "Invalid value '"@ + m + "'. Expected 'xdg', 'system', or 'default'"@
}

/// PORT: unset gives the default; otherwise it must parse as a `u16` and is
/// kept as written.
pub open spec fn spec_port(v: Option<Seq<char>>) -> Result<Seq<char>, ConfigErrorView> {
    match v {
        None => Ok(DEFAULT_PORT@),
        Some(p) => if parses_within(p, 65535) {
            Ok(p)
        } else {
            Err(ConfigErrorView::InvalidNumericValue { var: "PORT"@, value: p })
        },
    }
}

/// ANTHROPIC_API_KEY: required and non-empty.
pub open spec fn spec_api_key(v: Option<Seq<char>>) -> Result<Seq<char>, ConfigErrorView> {
    match v {
        None => Err(ConfigErrorView::MissingRequiredKey("ANTHROPIC_API_KEY"@)),
        Some(k) => if k.len() == 0 {
            Err(ConfigErrorView::EmptyValue("ANTHROPIC_API_KEY"@))
        } else {
            Ok(k)
        },
    }
}

/// A URL variable `var`: unset gives `default`; otherwise it must start with
/// an HTTP scheme.
pub open spec fn spec_url(var: Seq<char>, v: Option<Seq<char>>, default: Seq<char>) -> Result<
    Seq<char>,
    ConfigErrorView,
> {
    match v {
        None => Ok(default),
        Some(u) => if is_http_url(u) {
            Ok(u)
        } else {
            Err(ConfigErrorView::InvalidFormat { var, reason: url_reason() })
        },
    }
}

/// A log level variable `var`: unset gives `default`; otherwise it must name a
/// level and is kept as written.
pub open spec fn spec_level(var: Seq<char>, v: Option<Seq<char>>, default: Seq<char>) -> Result<
    Seq<char>,
    ConfigErrorView,
> {
    match v {
        None => Ok(default),
        Some(l) => if is_log_level(l) {
            Ok(l)
        } else {
            Err(ConfigErrorView::InvalidFormat { var, reason: level_reason(l) })
        },
    }
}

/// LOG_FORMAT: unset gives the default; otherwise pretty or json, kept as written.
pub open spec fn spec_format(v: Option<Seq<char>>) -> Result<Seq<char>, ConfigErrorView> {
    match v {
        None => Ok(DEFAULT_LOG_FORMAT@),
        Some(f) => if is_log_format(f) {
            Ok(f)
        } else {
            Err(ConfigErrorView::InvalidFormat { var: "LOG_FORMAT"@, reason: format_reason(f) })
        },
    }
}

/// LOG_MAX_BODY_SIZE: unset gives the default; otherwise a `usize`.
pub open spec fn spec_body_size(v: Option<Seq<char>>) -> Result<usize, ConfigErrorView> {
    match v {
        None => Ok(DEFAULT_LOG_MAX_BODY_SIZE),
        Some(s) => if parses_within(s, usize::MAX as nat) {
            Ok(crate::text::parse_unsigned(s).unwrap() as usize)
        } else {
            Err(ConfigErrorView::InvalidNumericValue { var: "LOG_MAX_BODY_SIZE"@, value: s })
        },
    }
}

/// LOG_DIRECTORY_MODE: unset gives `Default`; otherwise xdg, system or default.
pub open spec fn spec_dir_mode(v: Option<Seq<char>>) -> Result<LogDirectoryMode, ConfigErrorView> {
    match v {
        None => Ok(LogDirectoryMode::Default),
        Some(m) => match parse_dir_mode(m) {
            Some(mode) => Ok(mode),
            None => Err(
                ConfigErrorView::InvalidFormat { var: "LOG_DIRECTORY_MODE"@, reason: mode_reason(m) },
            ),
        },
    }
}

/// LOG_MAX_AGE_DAYS: unset gives the default (`None`); otherwise a `u32`.
pub open spec fn spec_max_age(v: Option<Seq<char>>) -> Result<Option<u32>, ConfigErrorView> {
    match v {
        None => Ok(DEFAULT_LOG_MAX_AGE_DAYS),
        Some(s) => if parses_within(s, u32::MAX as nat) {
            Ok(Some(crate::text::parse_unsigned(s).unwrap() as u32))
        } else {
            Err(ConfigErrorView::InvalidNumericValue { var: "LOG_MAX_AGE_DAYS"@, value: s })
        },
    }
}

/// The configuration a snapshot of the environment yields, or the first error:
/// the variables are checked in the order PORT, ANTHROPIC_API_KEY,
/// ANTHROPIC_TARGET_URL, OPENAI_API_BASE_URL, OPENAI_ENABLED, LOG_LEVEL,
/// LOG_FORMAT, LOG_BODIES, LOG_FILE_LEVEL, LOG_MAX_BODY_SIZE,
/// LOG_DIRECTORY_MODE, LOG_MAX_AGE_DAYS; last, OpenAI enabled without
/// OPENAI_API_KEY is `MissingOpenAiKey`.
pub open spec fn spec_load_config(v: ConfigVarsView) -> Result<ConfigView, ConfigErrorView> {
    match spec_port(v.port) {
        Err(e) => Err(e),
        Ok(port) => match spec_api_key(v.anthropic_api_key) {
            Err(e) => Err(e),
            Ok(key) => match spec_url(
                "ANTHROPIC_TARGET_URL"@,
                v.anthropic_target_url,
                DEFAULT_ANTHROPIC_TARGET_URL@,
            ) {
                Err(e) => Err(e),
                Ok(target) => match spec_url(
                    "OPENAI_API_BASE_URL"@,
                    v.openai_api_base_url,
                    DEFAULT_OPENAI_TARGET_URL@,
                ) {
                    Err(e) => Err(e),
                    Ok(openai_url) => match spec_parse_bool_env(
                        "OPENAI_ENABLED"@,
                        v.openai_enabled,
                        DEFAULT_OPENAI_ENABLED,
                    ) {
                        Err(e) => Err(e),
                        Ok(openai_enabled) => match spec_level(
                            "LOG_LEVEL"@,
                            v.log_level,
                            DEFAULT_LOG_STDOUT_LEVEL@,
                        ) {
                            Err(e) => Err(e),
                            Ok(stdout_level) => match spec_format(v.log_format) {
                                Err(e) => Err(e),
                                Ok(format) => match spec_parse_bool_env(
                                    "LOG_BODIES"@,
                                    v.log_bodies,
                                    DEFAULT_LOG_BODIES,
                                ) {
                                    Err(e) => Err(e),
                                    Ok(bodies) => match spec_level(
                                        "LOG_FILE_LEVEL"@,
                                        v.log_file_level,
                                        DEFAULT_LOG_FILE_LEVEL@,
                                    ) {
                                        Err(e) => Err(e),
                                        Ok(file_level) => match spec_body_size(
                                            v.log_max_body_size,
                                        ) {
                                            Err(e) => Err(e),
                                            Ok(body_size) => match spec_dir_mode(
                                                v.log_directory_mode,
                                            ) {
                                                Err(e) => Err(e),
                                                Ok(mode) => match spec_max_age(
                                                    v.log_max_age_days,
                                                ) {
                                                    Err(e) => Err(e),
                                                    Ok(max_age) => if openai_enabled
                                                        && v.openai_api_key is None {
                                                        Err(ConfigErrorView::MissingOpenAiKey)
                                                    } else {
                                                        Ok(
                                                            ConfigView {
                                                                port,
                                                                anthropic_api_key: key,
                                                                anthropic_target_url: target,
                                                                openai_api_key: v.openai_api_key,
                                                                openai_api_base_url: openai_url,
                                                                openai_enabled,
                                                                log_stdout_level: stdout_level,
                                                                log_format: format,
                                                                log_bodies: bodies,
                                                                log_file_path: match v.log_file_path {
                                                                    Some(p) => p,
                                                                    None => DEFAULT_LOG_FILE_PATH@,
                                                                },
                                                                log_file_level: file_level,
                                                                log_max_body_size: body_size,
                                                                log_directory_mode: mode,
                                                                log_max_age_days: max_age,
                                                            },
                                                        )
                                                    },
                                                },
                                            },
                                        },
                                    },
                                },
                            },
                        },
                    },
                },
            },
        },
    }
}

/// The view of a result carrying a string.
pub open spec fn string_result_view(r: Result<String, ConfigError>) -> Result<
    Seq<char>,
    ConfigErrorView,
> {
    match r {
        Ok(s) => Ok(s@),
        Err(e) => Err(e@),
    }
}

fn load_port(v: Option<String>) -> (r: Result<String, ConfigError>)
    ensures
        string_result_view(r) == spec_port(opt_view(v)),
{
    match v {
        None => Ok(owned(DEFAULT_PORT)),
        Some(p) => match parse_decimal(p.as_str(), 65535) {
            Some(_) => Ok(p),
            None => Err(ConfigError::InvalidNumericValue { var: owned("PORT"), value: p }),
        },
    }
}

fn load_api_key(v: Option<String>) -> (r: Result<String, ConfigError>)
    ensures
        string_result_view(r) == spec_api_key(opt_view(v)),
{
    match v {
        None => Err(ConfigError::MissingRequiredKey("ANTHROPIC_API_KEY")),
        Some(k) => if k.as_str().is_empty() {
            Err(ConfigError::EmptyValue("ANTHROPIC_API_KEY"))
        } else {
            Ok(k)
        },
    }
}

fn load_url(var: &str, v: Option<String>, default: &str) -> (r: Result<String, ConfigError>)
    ensures
        string_result_view(r) == spec_url(var@, opt_view(v), default@),
{
    match v {
        None => Ok(owned(default)),
        Some(u) => if starts_with(u.as_str(), "http://") || starts_with(u.as_str(), "https://") {
            Ok(u)
        } else {
            Err(
                ConfigError::InvalidFormat {
                    var: owned(var),
                    reason: owned("URL must start with 'http://' or 'https://'"),
                },
            )
        },
    }
}

fn is_level_name(l: &str) -> (r: bool)
    ensures
        r == is_log_level(l@),
{
    lower_eq(l, "trace") || lower_eq(l, "debug") || lower_eq(l, "info") || lower_eq(l, "warn")
        || lower_eq(l, "error")
}

fn load_level(var: &str, v: Option<String>, default: &str) -> (r: Result<String, ConfigError>)
    ensures
        string_result_view(r) == spec_level(var@, opt_view(v), default@),
{
    match v {
        None => Ok(owned(default)),
        Some(l) => if is_level_name(l.as_str()) {
            Ok(l)
        } else {
            let reason = concat3(
                "Invalid log level '",
                l.as_str(),
                "'. Expected 'trace', 'debug', 'info', 'warn', or 'error'",
            );
            Err(ConfigError::InvalidFormat { var: owned(var), reason })
        },
    }
}

fn load_format(v: Option<String>) -> (r: Result<String, ConfigError>)
    ensures
        string_result_view(r) == spec_format(opt_view(v)),
{
    match v {
        None => Ok(owned(DEFAULT_LOG_FORMAT)),
        Some(f) => if lower_eq(f.as_str(), "pretty") || lower_eq(f.as_str(), "json") {
            Ok(f)
        } else {
            let reason = concat3("Invalid log format '", f.as_str(), "'. Expected 'pretty' or 'json'");
            Err(ConfigError::InvalidFormat { var: owned("LOG_FORMAT"), reason })
        },
    }
}

fn load_body_size(v: Option<String>) -> (r: Result<usize, ConfigError>)
    ensures
        result_view(r) == spec_body_size(opt_view(v)),
{
    match v {
        None => Ok(DEFAULT_LOG_MAX_BODY_SIZE),
        Some(s) => match parse_decimal(s.as_str(), usize::MAX as u64) {
            Some(n) => Ok(n as usize),
            None => Err(
                ConfigError::InvalidNumericValue { var: owned("LOG_MAX_BODY_SIZE"), value: s },
            ),
        },
    }
}

fn load_dir_mode(v: Option<String>) -> (r: Result<LogDirectoryMode, ConfigError>)
    ensures
        result_view(r) == spec_dir_mode(opt_view(v)),
{
    match v {
        None => Ok(LogDirectoryMode::Default),
        Some(m) => if lower_eq(m.as_str(), "xdg") {
            Ok(LogDirectoryMode::Xdg)
        } else if lower_eq(m.as_str(), "system") {
            Ok(LogDirectoryMode::System)
        } else if lower_eq(m.as_str(), "default") {
            Ok(LogDirectoryMode::Default)
        } else {
            let reason = concat3(
                "Invalid value '",
                m.as_str(),
                "'. Expected 'xdg', 'system', or 'default'",
            );
            Err(ConfigError::InvalidFormat { var: owned("LOG_DIRECTORY_MODE"), reason })
        },
    }
}

fn load_max_age(v: Option<String>) -> (r: Result<Option<u32>, ConfigError>)
    ensures
        result_view(r) == spec_max_age(opt_view(v)),
{
    match v {
        None => Ok(DEFAULT_LOG_MAX_AGE_DAYS),
        Some(s) => match parse_decimal(s.as_str(), 4294967295) {
            Some(n) => Ok(Some(n as u32)),
            None => Err(
                ConfigError::InvalidNumericValue { var: owned("LOG_MAX_AGE_DAYS"), value: s },
            ),
        },
    }
}

/// The view of a configuration result.
pub open spec fn config_result_view(r: Result<Config, ConfigError>) -> Result<
    ConfigView,
    ConfigErrorView,
> {
    match r {
        Ok(c) => Ok(c@),
        Err(e) => Err(e@),
    }
}

/// Loads the configuration from a snapshot of the environment: defaults for
/// unset optional variables, and the first validation error if any (see
/// `spec_load_config` for the order of the checks).
pub fn load_config(vars: ConfigVars) -> (r: Result<Config, ConfigError>)
    ensures
        config_result_view(r) == spec_load_config(vars@),
{
    let ghost v = vars@;
    let ConfigVars {
        port,
        anthropic_api_key,
        anthropic_target_url,
        openai_api_key,
        openai_api_base_url,
        openai_enabled,
        log_level,
        log_format,
        log_bodies,
        log_file_path,
        log_file_level,
        log_max_body_size,
        log_directory_mode,
        log_max_age_days,
    } = vars;
    let port = match load_port(port) {
        Ok(p) => p,
        Err(e) => return Err(e),
    };
    let key = match load_api_key(anthropic_api_key) {
        Ok(k) => k,
        Err(e) => return Err(e),
    };
    let target = match load_url(
        "ANTHROPIC_TARGET_URL",
        anthropic_target_url,
        DEFAULT_ANTHROPIC_TARGET_URL,
    ) {
        Ok(u) => u,
        Err(e) => return Err(e),
    };
    let openai_url = match load_url(
        "OPENAI_API_BASE_URL",
        openai_api_base_url,
        DEFAULT_OPENAI_TARGET_URL,
    ) {
        Ok(u) => u,
        Err(e) => return Err(e),
    };
    let openai_on = match parse_bool_env("OPENAI_ENABLED", openai_enabled, DEFAULT_OPENAI_ENABLED) {
        Ok(b) => b,
        Err(e) => return Err(e),
    };
    let stdout_level = match load_level("LOG_LEVEL", log_level, DEFAULT_LOG_STDOUT_LEVEL) {
        Ok(l) => l,
        Err(e) => return Err(e),
    };
    let format = match load_format(log_format) {
        Ok(f) => f,
        Err(e) => return Err(e),
    };
    let bodies = match parse_bool_env("LOG_BODIES", log_bodies, DEFAULT_LOG_BODIES) {
        Ok(b) => b,
        Err(e) => return Err(e),
    };
    let file_path = match log_file_path {
        Some(p) => p,
        None => owned(DEFAULT_LOG_FILE_PATH),
    };
    let file_level = match load_level("LOG_FILE_LEVEL", log_file_level, DEFAULT_LOG_FILE_LEVEL) {
        Ok(l) => l,
        Err(e) => return Err(e),
    };
    let body_size = match load_body_size(log_max_body_size) {
        Ok(n) => n,
        Err(e) => return Err(e),
    };
    let mode = match load_dir_mode(log_directory_mode) {
        Ok(m) => m,
        Err(e) => return Err(e),
    };
    let max_age = match load_max_age(log_max_age_days) {
        Ok(a) => a,
        Err(e) => return Err(e),
    };
    if openai_on && openai_api_key.is_none() {
        return Err(ConfigError::MissingOpenAiKey);
    }
    Ok(
        Config {
            port,
            anthropic_api_key: key,
            anthropic_target_url: target,
            openai_api_key,
            openai_api_base_url: openai_url,
            openai_enabled: openai_on,
            log_stdout_level: stdout_level,
            log_format: format,
            log_bodies: bodies,
            log_file_path: file_path,
            log_file_level: file_level,
            log_max_body_size: body_size,
            log_directory_mode: mode,
            log_max_age_days: max_age,
        },
    )
}

/// Every variable left unset takes its default: a snapshot that sets only a
/// non-empty ANTHROPIC_API_KEY loads to the default configuration with that key.
pub proof fn lemma_unset_variables_take_defaults(v: ConfigVarsView, key: Seq<char>)
    requires
        key.len() > 0,
        v == (ConfigVarsView {
            port: None,
            anthropic_api_key: Some(key),
            anthropic_target_url: None,
            openai_api_key: None,
            openai_api_base_url: None,
            openai_enabled: None,
            log_level: None,
            log_format: None,
            log_bodies: None,
            log_file_path: None,
            log_file_level: None,
            log_max_body_size: None,
            log_directory_mode: None,
            log_max_age_days: None,
        }),
    ensures
        spec_load_config(v) == Ok::<ConfigView, ConfigErrorView>(
            ConfigView { anthropic_api_key: key, ..default_config_view() },
        ),
{
}

/// A loaded configuration with OpenAI enabled always carries an OpenAI API key.
pub proof fn lemma_openai_enabled_has_key(v: ConfigVarsView)
    requires
        spec_load_config(v) is Ok,
    ensures
        spec_load_config(v)->Ok_0.openai_enabled ==> spec_load_config(v)->Ok_0.openai_api_key is Some,
{
}

/// Every loaded configuration is well-formed: the port parses as a `u16`, the
/// API key is non-empty, both API URLs start with `http://` or `https://`, and
/// both log levels and the log format are names the logger accepts.
pub proof fn lemma_loaded_config_is_valid(v: ConfigVarsView)
    requires
        spec_load_config(v) is Ok,
    ensures
        ({
            let c = spec_load_config(v)->Ok_0;
            &&& parses_within(c.port, 65535)
            &&& c.anthropic_api_key.len() > 0
            &&& is_http_url(c.anthropic_target_url)
            &&& is_http_url(c.openai_api_base_url)
            &&& is_log_level(c.log_stdout_level)
            &&& is_log_level(c.log_file_level)
            &&& is_log_format(c.log_format)
        }),
{
    reveal_strlit("8080");
    reveal_strlit("https://api.anthropic.com");
    reveal_strlit("https://api.openai.com");
    reveal_strlit("https://");
    reveal_strlit("info");
    reveal_strlit("debug");
    reveal_strlit("pretty");
    let c = spec_load_config(v)->Ok_0;
    if v.port is None {
        assert(crate::text::unsigned_digits(DEFAULT_PORT@) =~= DEFAULT_PORT@);
        let p = DEFAULT_PORT@;
        assert(p.drop_last().drop_last().drop_last().drop_last() =~= Seq::<char>::empty());
        assert(crate::text::digits_value(p.drop_last().drop_last().drop_last().drop_last()) == 0);
        assert(crate::text::digits_value(p.drop_last().drop_last().drop_last()) == 8);
        assert(crate::text::digits_value(p.drop_last().drop_last()) == 80);
        assert(crate::text::digits_value(p.drop_last()) == 808);
        assert(crate::text::digits_value(p) == 8080);
    }
    if v.anthropic_target_url is None {
        assert("https://"@.is_prefix_of(DEFAULT_ANTHROPIC_TARGET_URL@));
    }
    if v.openai_api_base_url is None {
        assert("https://"@.is_prefix_of(DEFAULT_OPENAI_TARGET_URL@));
    }
    if v.log_level is None {
        assert(ascii_lower(DEFAULT_LOG_STDOUT_LEVEL@) =~= "info"@);
    }
    if v.log_file_level is None {
        assert(ascii_lower(DEFAULT_LOG_FILE_LEVEL@) =~= "debug"@);
    }
    if v.log_format is None {
        assert(ascii_lower(DEFAULT_LOG_FORMAT@) =~= "pretty"@);
    }
}

/// A snapshot that sets only ANTHROPIC_API_KEY to `key`.
pub open spec fn only_key(key: Seq<char>) -> ConfigVarsView {
    ConfigVarsView {
        port: None,
        anthropic_api_key: Some(key),
        anthropic_target_url: None,
        openai_api_key: None,
        openai_api_base_url: None,
        openai_enabled: None,
        log_level: None,
        log_format: None,
        log_bodies: None,
        log_file_path: None,
        log_file_level: None,
        log_max_body_size: None,
        log_directory_mode: None,
        log_max_age_days: None,
    }
}

/// The default port, 8080, is a valid port.
proof fn lemma_default_port_parses()
    ensures
        parses_within(DEFAULT_PORT@, 65535),
{
    reveal_strlit("8080");
    assert(crate::text::unsigned_digits(DEFAULT_PORT@) =~= DEFAULT_PORT@);
    let p = DEFAULT_PORT@;
    assert(p.drop_last().drop_last().drop_last().drop_last() =~= Seq::<char>::empty());
    assert(crate::text::digits_value(p.drop_last().drop_last().drop_last().drop_last()) == 0);
    assert(crate::text::digits_value(p.drop_last().drop_last().drop_last()) == 8);
    assert(crate::text::digits_value(p.drop_last().drop_last()) == 80);
    assert(crate::text::digits_value(p.drop_last()) == 808);
    assert(crate::text::digits_value(p) == 8080);
}

/// The default URLs start with `https://`.
proof fn lemma_default_urls_are_http()
    ensures
        is_http_url(DEFAULT_ANTHROPIC_TARGET_URL@),
        is_http_url(DEFAULT_OPENAI_TARGET_URL@),
{
    reveal_strlit("https://api.anthropic.com");
    reveal_strlit("https://api.openai.com");
    reveal_strlit("https://");
    assert("https://"@.is_prefix_of(DEFAULT_ANTHROPIC_TARGET_URL@));
    assert("https://"@.is_prefix_of(DEFAULT_OPENAI_TARGET_URL@));
}

/// Each of the five log levels, trace, debug, info, warn and error, in any
/// ASCII case, is accepted for LOG_LEVEL and LOG_FILE_LEVEL and kept as
/// written, and nothing else is: with only ANTHROPIC_API_KEY and LOG_LEVEL
/// (or LOG_FILE_LEVEL) set, the configuration loads exactly when the level
/// is one of the five, and then carries it.
pub proof fn lemma_log_levels_accepted(var: Seq<char>, l: Seq<char>, d: Seq<char>, key: Seq<char>)
    requires
        key.len() > 0,
    ensures
        ({
            let w = ascii_lower(l);
            let level = w == "trace"@ || w == "debug"@ || w == "info"@ || w == "warn"@ || w
                == "error"@;
            let stdout = spec_load_config(ConfigVarsView { log_level: Some(l), ..only_key(key) });
            let file = spec_load_config(ConfigVarsView { log_file_level: Some(l), ..only_key(key) });
            &&& level ==> spec_level(var, Some(l), d) == Ok::<Seq<char>, ConfigErrorView>(l)
            &&& !level ==> spec_level(var, Some(l), d) is Err
            &&& level <==> stdout is Ok
            &&& level ==> stdout->Ok_0.log_stdout_level == l
            &&& level <==> file is Ok
            &&& level ==> file->Ok_0.log_file_level == l
        }),
{
    lemma_default_port_parses();
    lemma_default_urls_are_http();
    reveal_strlit("info");
    reveal_strlit("debug");
    reveal_strlit("pretty");
    assert(ascii_lower(DEFAULT_LOG_STDOUT_LEVEL@) =~= "info"@);
    assert(ascii_lower(DEFAULT_LOG_FILE_LEVEL@) =~= "debug"@);
    assert(ascii_lower(DEFAULT_LOG_FORMAT@) =~= "pretty"@);
}

/// The two log formats, pretty and json, in any ASCII case, are accepted for
/// LOG_FORMAT and kept as written, and nothing else is.
pub proof fn lemma_log_formats_accepted(f: Seq<char>)
    ensures
        (ascii_lower(f) == "pretty"@ || ascii_lower(f) == "json"@) ==> spec_format(Some(f))
            == Ok::<Seq<char>, ConfigErrorView>(f),
        !(ascii_lower(f) == "pretty"@ || ascii_lower(f) == "json"@) ==> spec_format(Some(f)) is Err,
{
}

/// LOG_DIRECTORY_MODE names the mode in any ASCII case: `xdg`, `system` and
/// `default` give the XDG, system and default modes, and anything else is
/// refused.
pub proof fn lemma_directory_modes(m: Seq<char>)
    ensures
        ascii_lower(m) == "xdg"@ ==> spec_dir_mode(Some(m)) == Ok::<
            LogDirectoryMode,
            ConfigErrorView,
        >(LogDirectoryMode::Xdg),
        ascii_lower(m) == "system"@ ==> spec_dir_mode(Some(m)) == Ok::<
            LogDirectoryMode,
            ConfigErrorView,
        >(LogDirectoryMode::System),
        ascii_lower(m) == "default"@ ==> spec_dir_mode(Some(m)) == Ok::<
            LogDirectoryMode,
            ConfigErrorView,
        >(LogDirectoryMode::Default),
        !(ascii_lower(m) == "xdg"@ || ascii_lower(m) == "system"@ || ascii_lower(m) == "default"@)
            ==> spec_dir_mode(Some(m)) is Err,
{
    reveal_strlit("xdg");
    reveal_strlit("system");
    reveal_strlit("default");
    assert("xdg"@.len() == 3 && "system"@.len() == 6 && "default"@.len() == 7);
}

} // verus!
