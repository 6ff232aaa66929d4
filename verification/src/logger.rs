//! Logging setup decisions: where logs go, which environment the
//! application runs in, and whether a log file path is acceptable.
//!
//! Validating a log file path takes two steps around the file system:
//! `plan_log_path` checks the path's text and finds its directory and file
//! name; the caller then looks at that directory (canonical form, existence,
//! permissions) and `finish_log_path` decides from what it found.
use crate::config::opt_view;
use crate::paths::{file_name, file_name_of, join, parent, path_join, path_parent, paths_equal, same_path};
use crate::log_filter::{
    filter_parse_error, filter_text_is_safe, filter_text_safe, parse_env_filter, unsafe_filter_reason,
    LevelFilter,
};
use crate::text::{concat2, concat3, contains, contains_str, owned, starts_with, str_eq};
use vstd::prelude::*;

verus! {

/// Base directory for logs in development.
pub const DEFAULT_LOG_DIR: &'static str = "./logs";

/// Subdirectory for application logs.
pub const APP_LOG_SUBDIR: &'static str = "app";

/// Subdirectory for test logs.
pub const TEST_LOG_SUBDIR: &'static str = "test";

/// System log directory on Unix-like platforms.
pub const SYSTEM_LOG_DIR: &'static str = "/var/log/switchboard";

/// The environment the application runs in.
#[derive(Debug, Clone, Copy, PartialEq, Eq, Structural)]
pub enum LogEnvironment {
    /// Local development.
    Development,
    /// Installed for one user.
    UserInstallation,
    /// Running as a system service.
    SystemService,
}

/// What is known of the process that decides its environment.
pub struct EnvironmentSignals {
    /// The program was built with debug assertions.
    pub debug_build: bool,
    /// SWITCHBOARD_DEV is set.
    pub dev_override: bool,
    /// The parent process id.
    pub parent_pid: i32,
    /// The contents of `/proc/self/cgroup`, when readable.
    pub cgroup: Option<String>,
    /// INVOCATION_ID is set (systemd).
    pub invocation_id_set: bool,
    /// JOURNAL_STREAM is set (systemd).
    pub journal_stream_set: bool,
    /// HOME, when set.
    pub home: Option<String>,
    /// The path of the running executable, when known and valid UTF-8.
    pub executable: Option<String>,
}

/// The environment the signals indicate: development for debug builds or when
/// SWITCHBOARD_DEV is set; a system service when the parent is init (pid 1),
/// when the cgroup mentions `systemd` or `/system.slice/`, or when INVOCATION_ID
/// or JOURNAL_STREAM is set; a user installation when the executable's path
/// contains the home directory; development otherwise.
pub open spec fn spec_classify_environment(
    debug_build: bool,
    dev_override: bool,
    parent_pid: i32,
    cgroup: Option<Seq<char>>,
    invocation_id_set: bool,
    journal_stream_set: bool,
    home: Option<Seq<char>>,
    executable: Option<Seq<char>>,
) -> LogEnvironment {
    if debug_build || dev_override {
        LogEnvironment::Development
    } else if parent_pid == 1 {
        LogEnvironment::SystemService
    } else if cgroup matches Some(c) && (contains(c, "systemd"@) || contains(c, "/system.slice/"@)) {
        LogEnvironment::SystemService
    } else if invocation_id_set || journal_stream_set {
        LogEnvironment::SystemService
    } else if home matches Some(h) && executable matches Some(e) && contains(e, h) {
        LogEnvironment::UserInstallation
    } else {
        LogEnvironment::Development
    }
}

/// How the environment is decided, whatever the other signals are: a debug
/// build or SWITCHBOARD_DEV always means development; otherwise any sign of a
/// system service (parent pid 1, a cgroup naming `systemd` or
/// `/system.slice/`, INVOCATION_ID or JOURNAL_STREAM set) means a system
/// service, even for an executable under the home directory; a user
/// installation is only ever decided when the executable's path holds the
/// home directory and there is no such sign; and without any of these signs
/// it is development.
pub proof fn lemma_environment_precedence(
    debug_build: bool,
    dev_override: bool,
    parent_pid: i32,
    cgroup: Option<Seq<char>>,
    invocation_id_set: bool,
    journal_stream_set: bool,
    home: Option<Seq<char>>,
    executable: Option<Seq<char>>,
)
    ensures
        ({
            let r = spec_classify_environment(
                debug_build,
                dev_override,
                parent_pid,
                cgroup,
                invocation_id_set,
                journal_stream_set,
                home,
                executable,
            );
            let dev = debug_build || dev_override;
            let service = parent_pid == 1 || (cgroup is Some && (contains(
                cgroup.unwrap(),
                "systemd"@,
            ) || contains(cgroup.unwrap(), "/system.slice/"@))) || invocation_id_set
                || journal_stream_set;
            let user = home is Some && executable is Some && contains(
                executable.unwrap(),
                home.unwrap(),
            );
            &&& dev ==> r == LogEnvironment::Development
            &&& !dev && service ==> r == LogEnvironment::SystemService
            &&& r == LogEnvironment::UserInstallation <==> !dev && !service && user
            &&& !dev && !service && !user ==> r == LogEnvironment::Development
        }),
{
}

/// Classifies the environment from what is known of the process (see
/// `spec_classify_environment`).
pub fn classify_environment(signals: &EnvironmentSignals) -> (r: LogEnvironment)
    ensures
        r == spec_classify_environment(
            signals.debug_build,
            signals.dev_override,
            signals.parent_pid,
            opt_view(signals.cgroup),
            signals.invocation_id_set,
            signals.journal_stream_set,
            opt_view(signals.home),
            opt_view(signals.executable),
        ),
{
    if signals.debug_build || signals.dev_override {
        return LogEnvironment::Development;
    }
    if signals.parent_pid == 1 {
        return LogEnvironment::SystemService;
    }
    match &signals.cgroup {
        Some(c) => {
            if contains_str(c.as_str(), "systemd") || contains_str(c.as_str(), "/system.slice/") {
                return LogEnvironment::SystemService;
            }
        },
        None => {},
    }
    if signals.invocation_id_set || signals.journal_stream_set {
        return LogEnvironment::SystemService;
    }
    match (&signals.home, &signals.executable) {
        (Some(h), Some(e)) => {
            if contains_str(e.as_str(), h.as_str()) {
                return LogEnvironment::UserInstallation;
            }
        },
        _ => {},
    }
    LogEnvironment::Development
}

/// The name of the application, which names its data directory.
pub const APPLICATION_NAME: &'static str = "switchboard";

/// The data directory of the application `application`
/// (`directories::ProjectDirs::from("", "", application)`, then `data_dir`),
/// or `None` when no home directory is known. Which directory it is depends
/// on the environment (HOME, XDG_DATA_HOME); on Linux, for a name of
/// lowercase ASCII letters, it is a base directory joined with the name, so
/// its last component is the name (directories' `lin.rs`). Nothing else is
/// stated.
#[verifier::external_body]
fn project_data_dir(application: &str) -> (r: Option<String>)
    requires
        application@.len() > 0,
        forall|i: int| 0 <= i < application@.len() ==> 'a' <= #[trigger] application@[i] <= 'z',
    ensures
        r matches Some(d) ==> file_name_of(d@) == Some(application@),
{
    match directories::ProjectDirs::from("", "", application) {
        Some(dirs) => Some(dirs.data_dir().to_string_lossy().into_owned()),
        None => None,
    }
}

/// The data directories the application can have: a directory whose last
/// component is the application's name, or none.
pub open spec fn is_app_data_dir(d: Option<Seq<char>>) -> bool {
    d matches Some(p) ==> file_name_of(p) == Some(APPLICATION_NAME@)
}

/// The XDG log directory given the project's data directory: its `logs`
/// subdirectory, or `./logs` when there is no data directory.
pub open spec fn xdg_dir_from(data_dir: Option<Seq<char>>) -> Seq<char> {
    match data_dir {
        Some(d) => path_join(d, "logs"@),
        None => DEFAULT_LOG_DIR@,
    }
}

/// The XDG log directory for the data directory `data_dir` (see `xdg_dir_from`).
pub fn xdg_log_directory_from(data_dir: Option<String>) -> (r: String)
    ensures
        r@ == xdg_dir_from(opt_view(data_dir)),
{
    match data_dir {
        Some(d) => join(d.as_str(), "logs"),
        None => owned(DEFAULT_LOG_DIR),
    }
}

/// The XDG-compliant log directory of the application: the `logs`
/// subdirectory of its data directory, or `./logs` when the platform gives
/// none.
pub fn get_xdg_log_directory() -> (r: String)
    ensures
        exists|d: Option<Seq<char>>| is_app_data_dir(d) && r@ == xdg_dir_from(d),
{
    proof {
        reveal_strlit("switchboard");
    }
    let data_dir = project_data_dir(APPLICATION_NAME);
    let ghost d = opt_view(data_dir);
    let r = xdg_log_directory_from(data_dir);
    assert(r@ == xdg_dir_from(d));
    r
}

/// The log directory for an environment: `./logs` in development, the XDG
/// log directory for a user installation, `/var/log/switchboard` for a system
/// service.
pub fn get_environment_log_directory(environment: LogEnvironment) -> (r: String)
    ensures
        environment == LogEnvironment::Development ==> r@ == DEFAULT_LOG_DIR@,
        environment == LogEnvironment::SystemService ==> r@ == SYSTEM_LOG_DIR@,
        environment == LogEnvironment::UserInstallation ==> exists|d: Option<Seq<char>>|
            is_app_data_dir(d) && r@ == xdg_dir_from(d),
{
    match environment {
        LogEnvironment::Development => owned(DEFAULT_LOG_DIR),
        LogEnvironment::UserInstallation => get_xdg_log_directory(),
        LogEnvironment::SystemService => owned(SYSTEM_LOG_DIR),
    }
}

/// How the stdout log layer formats events.
#[derive(Debug, Clone, Copy, PartialEq, Eq, Structural)]
pub enum StdoutFormat {
    Json,
    Pretty,
}

/// The stdout format for the configured log format: JSON for exactly
/// `json`, pretty for anything else.
pub fn stdout_format(log_format: &str) -> (r: StdoutFormat)
    ensures
        r == (if log_format@ == "json"@ {
            StdoutFormat::Json
        } else {
            StdoutFormat::Pretty
        }),
{
    if str_eq(log_format, "json") {
        StdoutFormat::Json
    } else {
        StdoutFormat::Pretty
    }
}

#[verifier::external_type_specification]
#[verifier::external_body]
pub struct ExIoError(std::io::Error);

/// Errors of logging initialization.
#[derive(Debug)]
pub enum LogInitError {
    /// The log directory could not be created.
    DirectoryCreationFailed { path: String, source: std::io::Error },
    /// A log level filter could not be parsed.
    FilterParseError(String),
    /// The log file path is empty or names no file.
    InvalidPath(String),
    /// The log file path tries to climb out with `../`.
    PathTraversalAttempt(String),
    /// The log file path is inside a reserved system directory.
    ReservedSystemPath(String),
    /// The log directory cannot be written.
    PermissionIssue { path: String, reason: String },
    /// Access to a path was denied.
    PermissionDenied { path: String, source: std::io::Error },
    /// The log directory could not be canonicalized.
    PathCanonicalizationError { path: String, source: std::io::Error },
    /// Another I/O error.
    IoError(std::io::Error),
}

/// The mathematical value of a `LogInitError`, without its I/O sources.
pub enum LogInitErrorView {
    DirectoryCreationFailed { path: Seq<char> },
    FilterParseError(Seq<char>),
    InvalidPath(Seq<char>),
    PathTraversalAttempt(Seq<char>),
    ReservedSystemPath(Seq<char>),
    PermissionIssue { path: Seq<char>, reason: Seq<char> },
    PermissionDenied { path: Seq<char> },
    PathCanonicalizationError { path: Seq<char> },
    IoError,
}

impl View for LogInitError {
    type V = LogInitErrorView;

    open spec fn view(&self) -> LogInitErrorView {
        match self {
            LogInitError::DirectoryCreationFailed { path, .. } => LogInitErrorView::DirectoryCreationFailed {
                path: path@,
            },
            LogInitError::FilterParseError(m) => LogInitErrorView::FilterParseError(m@),
            LogInitError::InvalidPath(m) => LogInitErrorView::InvalidPath(m@),
            LogInitError::PathTraversalAttempt(m) => LogInitErrorView::PathTraversalAttempt(m@),
            LogInitError::ReservedSystemPath(m) => LogInitErrorView::ReservedSystemPath(m@),
            LogInitError::PermissionIssue { path, reason } => LogInitErrorView::PermissionIssue {
                path: path@,
                reason: reason@,
            },
            LogInitError::PermissionDenied { path, .. } => LogInitErrorView::PermissionDenied {
                path: path@,
            },
            LogInitError::PathCanonicalizationError { path, .. } => LogInitErrorView::PathCanonicalizationError {
                path: path@,
            },
            LogInitError::IoError(_) => LogInitErrorView::IoError,
        }
    }
}

/// The text of an I/O error (its `Display`). It depends on the platform's
/// error messages, so nothing is stated of it.
#[verifier::external_body]
fn io_error_text(e: &std::io::Error) -> (r: String) {
    format!("{}", e)
}

impl LogInitError {
    /// The error's message. For the variants without an I/O source it is
    /// stated exactly; for the others, the text before the source's own
    /// message.
    pub fn message(&self) -> (r: String)
        ensures
            match self@ {
                LogInitErrorView::FilterParseError(m) => r@ == "Failed to parse log level filter: "@
                    + m,
                LogInitErrorView::InvalidPath(m) => r@ == "Invalid log file path: "@ + m,
                LogInitErrorView::PathTraversalAttempt(m) => r@
                    == "Path traversal attempt detected in log path: "@ + m,
                LogInitErrorView::ReservedSystemPath(m) => r@
                    == "Reserved system path not allowed for logging: "@ + m,
                LogInitErrorView::PermissionIssue { path, reason } => r@
                    == "Permission issue with log directory at "@ + path + ": "@ + reason,
                LogInitErrorView::DirectoryCreationFailed { path } => (
                "Failed to create log directory at "@ + path + ": "@).is_prefix_of(r@),
                LogInitErrorView::PermissionDenied { path } => (
                "Permission denied when accessing "@ + path + ": "@).is_prefix_of(r@),
                LogInitErrorView::PathCanonicalizationError { path } => (
                "Failed to canonicalize path "@ + path + ": "@).is_prefix_of(r@),
                LogInitErrorView::IoError => "I/O error during log initialization: "@.is_prefix_of(
                    r@,
                ),
            },
    {
        match self {
            LogInitError::DirectoryCreationFailed { path, source } => {
                let head = concat3("Failed to create log directory at ", path.as_str(), ": ");
                let r = concat2(head.as_str(), io_error_text(source).as_str());
                assert(head@.is_prefix_of(r@));
                r
            },
            LogInitError::FilterParseError(m) => concat2(
                "Failed to parse log level filter: ",
                m.as_str(),
            ),
            LogInitError::InvalidPath(m) => concat2("Invalid log file path: ", m.as_str()),
            LogInitError::PathTraversalAttempt(m) => concat2(
                "Path traversal attempt detected in log path: ",
                m.as_str(),
            ),
            LogInitError::ReservedSystemPath(m) => concat2(
                "Reserved system path not allowed for logging: ",
                m.as_str(),
            ),
            LogInitError::PermissionIssue { path, reason } => {
                let head = concat3("Permission issue with log directory at ", path.as_str(), ": ");
                concat2(head.as_str(), reason.as_str())
            },
            LogInitError::PermissionDenied { path, source } => {
                let head = concat3("Permission denied when accessing ", path.as_str(), ": ");
                let r = concat2(head.as_str(), io_error_text(source).as_str());
                assert(head@.is_prefix_of(r@));
                r
            },
            LogInitError::PathCanonicalizationError { path, source } => {
                let head = concat3("Failed to canonicalize path ", path.as_str(), ": ");
                let r = concat2(head.as_str(), io_error_text(source).as_str());
                assert(head@.is_prefix_of(r@));
                r
            },
            LogInitError::IoError(source) => {
                let head = owned("I/O error during log initialization: ");
                let r = concat2(head.as_str(), io_error_text(source).as_str());
                assert(head@.is_prefix_of(r@));
                r
            },
        }
    }
}

/// The directory and file name of an accepted log file path.
pub struct LogPathPlan {
    /// The directory part of the path (`.` when its parent is empty or missing).
    pub dir_path: String,
    /// The file name.
    pub file_name: String,
}

/// The first checks on a log file path, on its text alone: it must be
/// non-empty, hold no `../` or `..\\`, not end with `/` or `\\`, and name a
/// file; the result is the directory (the path's parent, or `.` when the
/// parent is empty, as for a bare file name, or missing) and the file name.
pub open spec fn spec_plan_log_path(p: Seq<char>) -> Result<(Seq<char>, Seq<char>), LogInitErrorView> {
    if p.len() == 0 {
        Err(LogInitErrorView::InvalidPath("Log file path cannot be empty"@))
    } else if contains(p, "../"@) || contains(p, "..\\"@) {
        Err(
            LogInitErrorView::PathTraversalAttempt(
                "Path contains parent directory traversal sequences: "@ + p,
            ),
        )
    } else if p.last() == '/' || p.last() == '\\' {
        Err(
            LogInitErrorView::InvalidPath(
                "Invalid log file path (ends with directory separator): "@ + p,
            ),
        )
    } else {
        match file_name_of(p) {
            None => Err(LogInitErrorView::InvalidPath("Invalid log file path (no filename): "@ + p)),
            Some(n) => Ok(
                (
                    match path_parent(p) {
                        Some(d) => if d.len() == 0 {
                            "."@
                        } else {
                            d
                        },
                        None => "."@,
                    },
                    n,
                ),
            ),
        }
    }
}

/// Checks the text of a log file path (see `spec_plan_log_path`).
pub fn plan_log_path(path_str: &str) -> (r: Result<LogPathPlan, LogInitError>)
    ensures
        match r {
            Ok(plan) => spec_plan_log_path(path_str@) == Ok::<
                (Seq<char>, Seq<char>),
                LogInitErrorView,
            >((plan.dir_path@, plan.file_name@)),
            Err(e) => spec_plan_log_path(path_str@) == Err::<
                (Seq<char>, Seq<char>),
                LogInitErrorView,
            >(e@),
        },
{
    let n = path_str.unicode_len();
    if n == 0 {
        return Err(LogInitError::InvalidPath(owned("Log file path cannot be empty")));
    }
    if contains_str(path_str, "../") || contains_str(path_str, "..\\") {
        return Err(
            LogInitError::PathTraversalAttempt(
                concat2("Path contains parent directory traversal sequences: ", path_str),
            ),
        );
    }
    let last = path_str.get_char(n - 1);
    if last == '/' || last == '\\' {
        return Err(
            LogInitError::InvalidPath(
                concat2("Invalid log file path (ends with directory separator): ", path_str),
            ),
        );
    }
    match file_name(path_str) {
        None => Err(
            LogInitError::InvalidPath(concat2("Invalid log file path (no filename): ", path_str)),
        ),
        Some(name) => {
            let dir = match parent(path_str) {
                Some(d) => if d.as_str().is_empty() {
                    owned(".")
                } else {
                    d
                },
                None => owned("."),
            };
            Ok(LogPathPlan { dir_path: dir, file_name: name })
        },
    }
}

/// What canonicalizing the log directory gave.
pub enum CanonicalDir {
    /// The canonical path.
    Resolved(String),
    /// The directory does not exist yet.
    NotFound,
    /// Another error.
    Failed(std::io::Error),
}

/// The metadata of the log directory that decides whether it is writable.
pub struct DirMetadata {
    /// Permission bits.
    pub mode: u32,
    /// Owner user id.
    pub uid: u32,
    /// Owner group id.
    pub gid: u32,
}

/// What the file system says of the log directory.
pub struct DirFacts {
    /// The result of canonicalizing the directory.
    pub canonical: CanonicalDir,
    /// `None` when the directory does not exist; otherwise its metadata, or
    /// the text of the error met reading it.
    pub metadata: Option<Result<DirMetadata, String>>,
    /// The user id of the process.
    pub uid: u32,
    /// The group id of the process.
    pub gid: u32,
}

/// A directory is writable by the process when the process owns it and the
/// owner may write, or is in its group and the group may write, or anyone may
/// write.
pub open spec fn dir_writable(mode: u32, dir_uid: u32, dir_gid: u32, uid: u32, gid: u32) -> bool {
    ||| (dir_uid == uid && mode & 0o200u32 != 0)
    ||| (dir_gid == gid && mode & 0o020u32 != 0)
    ||| mode & 0o002u32 != 0
}

/// Whether the directory with `meta` is writable by a process with `uid` and
/// `gid` (see `dir_writable`).
pub fn is_dir_writable(meta: &DirMetadata, uid: u32, gid: u32) -> (r: bool)
    ensures
        r == dir_writable(meta.mode, meta.uid, meta.gid, uid, gid),
{
    (meta.uid == uid && meta.mode & 0o200u32 != 0) || (meta.gid == gid && meta.mode & 0o020u32
        != 0) || meta.mode & 0o002u32 != 0
}

/// Directories that logs are never written into.
pub open spec fn reserved_dirs() -> Seq<Seq<char>> {
    seq!["/bin"@, "/sbin"@, "/usr/bin"@, "/usr/sbin"@, "/etc"@, "/dev"@, "/proc"@, "/sys"@]
}

/// The path `p` is the directory `d` or lies within it: `p` is `d`, or `d`
/// followed by `/` and more.
pub open spec fn within_dir(d: Seq<char>, p: Seq<char>) -> bool {
    d.is_prefix_of(p) && (p.len() == d.len() || p[d.len() as int] == '/')
}

/// Whether the path `p` is the directory `d` or lies within it (see
/// `within_dir`).
pub fn is_within_dir(d: &str, p: &str) -> (r: bool)
    ensures
        r == within_dir(d@, p@),
{
    if !starts_with(p, d) {
        return false;
    }
    let n = p.unicode_len();
    let m = d.unicode_len();
    n == m || p.get_char(m) == '/'
}

/// The first reserved directory, from position `i` of `reserved_dirs`, that
/// `p` is or lies within.
pub open spec fn first_reserved_from(p: Seq<char>, i: nat) -> Option<Seq<char>>
    decreases reserved_dirs().len() - i,
{
    if i >= reserved_dirs().len() {
        None
    } else if within_dir(reserved_dirs()[i as int], p) {
        Some(reserved_dirs()[i as int])
    } else {
        first_reserved_from(p, i + 1)
    }
}

/// The first reserved directory that `p` is or lies within, as text.
pub open spec fn first_reserved(p: Seq<char>) -> Option<Seq<char>> {
    first_reserved_from(p, 0)
}

fn reserved_dir(i: usize) -> (r: &'static str)
    requires
        i < 8,
    ensures
        r@ == reserved_dirs()[i as int],
{
    if i == 0 {
        "/bin"
    } else if i == 1 {
        "/sbin"
    } else if i == 2 {
        "/usr/bin"
    } else if i == 3 {
        "/usr/sbin"
    } else if i == 4 {
        "/etc"
    } else if i == 5 {
        "/dev"
    } else if i == 6 {
        "/proc"
    } else {
        "/sys"
    }
}

/// The first reserved directory that `p` is or lies within (see
/// `first_reserved`).
pub fn find_reserved(p: &str) -> (r: Option<&'static str>)
    ensures
        match r {
            Some(d) => first_reserved(p@) == Some(d@),
            None => first_reserved(p@) is None,
        },
{
    let mut i: usize = 0;
    while i < 8
        invariant
            i <= 8,
            reserved_dirs().len() == 8,
            first_reserved(p@) == first_reserved_from(p@, i as nat),
        decreases 8 - i,
    {
        let d = reserved_dir(i);
        if is_within_dir(d, p) {
            return Some(d);
        }
        i = i + 1;
    }
    None
}

/// The final decision on a log file path `path` whose text was accepted with
/// directory `dir` and file name `file`, given what the file system says of
/// `dir`: a canonicalization failure other than "not found" is an error; the
/// path to check is the given path when the directory did not resolve or
/// resolved to itself, the canonical directory otherwise; a path to check
/// inside a reserved directory is refused; an existing directory must be
/// writable; the result is the canonical directory (or `dir` when it does not
/// exist) joined with the file name.
pub open spec fn spec_finish_log_path(
    path: Seq<char>,
    dir: Seq<char>,
    file: Seq<char>,
    canonical: Option<Option<Seq<char>>>,
    metadata: Option<Result<(u32, u32, u32), Seq<char>>>,
    uid: u32,
    gid: u32,
) -> Result<Seq<char>, LogInitErrorView> {
    match canonical {
        None => Err(LogInitErrorView::PathCanonicalizationError { path: dir }),
        Some(resolved) => {
            let base = match resolved {
                Some(c) => c,
                None => dir,
            };
            let to_check = match resolved {
                Some(c) => if paths_equal(c, dir) {
                    path
                } else {
                    c
                },
                None => path,
            };
            match first_reserved(to_check) {
                Some(r) => Err(
                    LogInitErrorView::ReservedSystemPath(
                        "Path '"@ + path + "' is within a reserved system directory: "@ + r,
                    ),
                ),
                None => match metadata {
                    None => Ok(path_join(base, file)),
                    Some(Err(e)) => Err(
                        LogInitErrorView::PermissionIssue {
                            path: dir,
                            reason: "Failed to read directory metadata: "@ + e,
                        },
                    ),
                    Some(Ok((mode, dir_uid, dir_gid))) => if dir_writable(
                        mode,
                        dir_uid,
                        dir_gid,
                        uid,
                        gid,
                    ) {
                        Ok(path_join(base, file))
                    } else {
                        Err(
                            LogInitErrorView::PermissionIssue {
                                path: dir,
                                reason: "Directory is not writable by the current user"@,
                            },
                        )
                    },
                },
            }
        },
    }
}

/// The canonicalization outcome as a value: `None` for a failure, `Some(None)`
/// when the directory was not found, `Some(Some(c))` for the canonical path.
pub open spec fn canonical_view(c: CanonicalDir) -> Option<Option<Seq<char>>> {
    match c {
        CanonicalDir::Resolved(p) => Some(Some(p@)),
        CanonicalDir::NotFound => Some(None),
        CanonicalDir::Failed(_) => None,
    }
}

/// The metadata outcome as a value.
pub open spec fn metadata_view(m: Option<Result<DirMetadata, String>>) -> Option<
    Result<(u32, u32, u32), Seq<char>>,
> {
    match m {
        None => None,
        Some(Ok(d)) => Some(Ok((d.mode, d.uid, d.gid))),
        Some(Err(e)) => Some(Err(e@)),
    }
}

/// Decides on a log file path from what the file system says of its
/// directory (see `spec_finish_log_path`); a canonicalization failure is
/// returned with the I/O error that caused it.
pub fn finish_log_path(path_str: &str, plan: LogPathPlan, facts: DirFacts) -> (r: Result<
    String,
    LogInitError,
>)
    ensures
        match r {
            Ok(p) => spec_finish_log_path(
                path_str@,
                plan.dir_path@,
                plan.file_name@,
                canonical_view(facts.canonical),
                metadata_view(facts.metadata),
                facts.uid,
                facts.gid,
            ) == Ok::<Seq<char>, LogInitErrorView>(p@),
            Err(e) => spec_finish_log_path(
                path_str@,
                plan.dir_path@,
                plan.file_name@,
                canonical_view(facts.canonical),
                metadata_view(facts.metadata),
                facts.uid,
                facts.gid,
            ) == Err::<Seq<char>, LogInitErrorView>(e@),
        },
        facts.canonical is Failed ==> (r matches Err(
            LogInitError::PathCanonicalizationError { source, .. },
        ) && facts.canonical == CanonicalDir::Failed(source)),
{
    let LogPathPlan { dir_path, file_name } = plan;
    let DirFacts { canonical, metadata, uid, gid } = facts;
    let (base, to_check) = match canonical {
        CanonicalDir::Failed(source) => {
            return Err(LogInitError::PathCanonicalizationError { path: dir_path, source });
        },
        CanonicalDir::NotFound => (dir_path.clone(), owned(path_str)),
        CanonicalDir::Resolved(c) => {
            let check = if same_path(c.as_str(), dir_path.as_str()) {
                owned(path_str)
            } else {
                c.clone()
            };
            (c, check)
        },
    };
    match find_reserved(to_check.as_str()) {
        Some(reserved) => {
            let head = concat3("Path '", path_str, "' is within a reserved system directory: ");
            return Err(LogInitError::ReservedSystemPath(concat2(head.as_str(), reserved)));
        },
        None => {},
    }
    match metadata {
        None => {},
        Some(Err(e)) => {
            return Err(
                LogInitError::PermissionIssue {
                    path: dir_path,
                    reason: concat2("Failed to read directory metadata: ", e.as_str()),
                },
            );
        },
        Some(Ok(meta)) => {
            if !is_dir_writable(&meta, uid, gid) {
                return Err(
                    LogInitError::PermissionIssue {
                        path: dir_path,
                        reason: owned("Directory is not writable by the current user"),
                    },
                );
            }
        },
    }
    Ok(join(base.as_str(), file_name.as_str()))
}

/// A log file path is never accepted when it holds `../` or `..\\`, is empty,
/// ends with a separator, or names no file; an accepted path's file name is
/// its `file_name_of`, and its directory is never empty.
pub proof fn lemma_plan_rejects_traversal(p: Seq<char>)
    ensures
        spec_plan_log_path(p) is Ok ==> {
            &&& p.len() > 0
            &&& !contains(p, "../"@)
            &&& !contains(p, "..\\"@)
            &&& p.last() != '/' && p.last() != '\\'
            &&& file_name_of(p) == Some(spec_plan_log_path(p)->Ok_0.1)
            &&& spec_plan_log_path(p)->Ok_0.0.len() > 0
        },
{
    reveal_strlit(".");
}

/// When no reserved directory is found for `p`, `p` lies within none of them.
pub proof fn lemma_first_reserved_none(p: Seq<char>, i: nat)
    requires
        first_reserved_from(p, i) is None,
    ensures
        forall|k: int| i <= k < reserved_dirs().len() ==> !within_dir(#[trigger] reserved_dirs()[k], p),
    decreases reserved_dirs().len() - i,
{
    if i < reserved_dirs().len() {
        lemma_first_reserved_none(p, i + 1);
    }
}

/// An accepted log file path is never inside a reserved system directory:
/// whenever the final decision accepts, the path it checked is none of the
/// reserved directories and lies within none of them, an existing directory
/// is writable, and the result ends with the file name; when the directory
/// resolved to an absolute path, the result is absolute too.
pub proof fn lemma_finish_avoids_reserved(
    path: Seq<char>,
    dir: Seq<char>,
    file: Seq<char>,
    canonical: Option<Option<Seq<char>>>,
    metadata: Option<Result<(u32, u32, u32), Seq<char>>>,
    uid: u32,
    gid: u32,
)
    requires
        spec_finish_log_path(path, dir, file, canonical, metadata, uid, gid) is Ok,
    ensures
        canonical is Some,
        canonical.unwrap() is Some && !paths_equal(canonical.unwrap().unwrap(), dir)
            ==> forall|k: int|
            0 <= k < reserved_dirs().len() ==> !within_dir(
                #[trigger] reserved_dirs()[k],
                canonical.unwrap().unwrap(),
            ),
        (canonical.unwrap() is None || paths_equal(canonical.unwrap().unwrap(), dir))
            ==> forall|k: int|
            0 <= k < reserved_dirs().len() ==> !within_dir(#[trigger] reserved_dirs()[k], path),
        metadata is Some ==> metadata.unwrap() is Ok,
        metadata is Some ==> dir_writable(
            metadata.unwrap()->Ok_0.0,
            metadata.unwrap()->Ok_0.1,
            metadata.unwrap()->Ok_0.2,
            uid,
            gid,
        ),
        file.is_suffix_of(spec_finish_log_path(path, dir, file, canonical, metadata, uid, gid)->Ok_0),
        canonical.unwrap() is Some && canonical.unwrap().unwrap().len() > 0
            && canonical.unwrap().unwrap()[0] == '/' ==> spec_finish_log_path(
            path,
            dir,
            file,
            canonical,
            metadata,
            uid,
            gid,
        )->Ok_0[0] == '/',
{
    let r = spec_finish_log_path(path, dir, file, canonical, metadata, uid, gid)->Ok_0;
    match canonical.unwrap() {
        Some(c) => if paths_equal(c, dir) {
            lemma_first_reserved_none(path, 0);
        } else {
            lemma_first_reserved_none(c, 0);
        },
        None => lemma_first_reserved_none(path, 0),
    }
    let base = match canonical.unwrap() {
        Some(c) => c,
        None => dir,
    };
    if file.len() > 0 && file[0] == '/' {
        assert(r == file);
    } else if base.len() == 0 || base.last() == '/' {
        assert(r == base + file);
        assert(r.subrange(r.len() - file.len(), r.len() as int) =~= file);
    } else {
        assert(r == base + seq!['/'] + file);
        assert(r.subrange(r.len() - file.len(), r.len() as int) =~= file);
    }
}

/// The error for a log level `level` refused with `reason`; `head` names the
/// output the level is for.
pub open spec fn filter_error(head: Seq<char>, level: Seq<char>, reason: Seq<char>) -> LogInitErrorView {
    LogInitErrorView::FilterParseError(head + level + "': "@ + reason)
}

/// The outcome of parsing the log level `level` of the output named by
/// `head`: refused with `unsafe_filter_reason` when the parser cannot take
/// it, otherwise as the parser decides.
pub open spec fn filter_outcome(head: Seq<char>, level: Seq<char>) -> Option<LogInitErrorView> {
    if !filter_text_safe(level) {
        Some(filter_error(head, level, unsafe_filter_reason()))
    } else {
        match filter_parse_error(level) {
            None => None,
            Some(reason) => Some(filter_error(head, level, reason)),
        }
    }
}

/// Parses `level` as the filter of the output named by `head` (see
/// `filter_outcome`); a filter it returns was parsed from `level`.
fn parse_level_filter(head: &str, level: &str) -> (r: Result<LevelFilter, LogInitError>)
    ensures
        match filter_outcome(head@, level@) {
            None => r matches Ok(f) && f.source() == level@,
            Some(e) => r matches Err(err) && err@ == e,
        },
{
    let prefix = concat3(head, level, "': ");
    if !filter_text_is_safe(level) {
        return Err(
            LogInitError::FilterParseError(
                concat2(
                    prefix.as_str(),
                    "a filter directive that starts with whitespace holds a character outside ASCII",
                ),
            ),
        );
    }
    match parse_env_filter(level) {
        Ok(filter) => Ok(filter),
        Err(reason) => Err(LogInitError::FilterParseError(concat2(prefix.as_str(), reason.as_str()))),
    }
}

/// The filter of the log file: the configured file log level, parsed as
/// filter directives; a level that does not parse, or that the parser cannot
/// take, is a `FilterParseError`.
pub fn file_log_filter(level: &str) -> (r: Result<LevelFilter, LogInitError>)
    ensures
        match filter_outcome("Failed to parse file log level filter '"@, level@) {
            None => r matches Ok(f) && f.source() == level@,
            Some(e) => r matches Err(err) && err@ == e,
        },
{
    parse_level_filter("Failed to parse file log level filter '", level)
}

/// The filter of stdout.
pub enum StdoutFilter {
    /// The filter set in the environment (`RUST_LOG`).
    FromEnvironment(tracing_subscriber::EnvFilter),
    /// The configured stdout log level, parsed.
    FromLevel(LevelFilter),
}

impl StdoutFilter {
    /// The filter to install.
    pub fn into_env_filter(self) -> tracing_subscriber::EnvFilter {
        match self {
            StdoutFilter::FromEnvironment(f) => f,
            StdoutFilter::FromLevel(f) => f.into_env_filter(),
        }
    }
}

/// The filter of stdout: the one set in the environment (`RUST_LOG`) when
/// there is a valid one, otherwise the configured stdout log level parsed as
/// filter directives; a level that does not parse, or that the parser cannot
/// take, is a `FilterParseError`.
pub fn stdout_log_filter(
    from_env: Option<tracing_subscriber::EnvFilter>,
    level: &str,
) -> (r: Result<StdoutFilter, LogInitError>)
    ensures
        from_env is Some ==> r == Ok::<StdoutFilter, LogInitError>(
            StdoutFilter::FromEnvironment(from_env.unwrap()),
        ),
        from_env is None ==> match filter_outcome(
            "Failed to parse stdout log level filter '"@,
            level@,
        ) {
            None => r matches Ok(StdoutFilter::FromLevel(f)) && f.source() == level@,
            Some(e) => r matches Err(err) && err@ == e,
        },
{
    match from_env {
        Some(filter) => Ok(StdoutFilter::FromEnvironment(filter)),
        None => match parse_level_filter("Failed to parse stdout log level filter '", level) {
            Ok(f) => Ok(StdoutFilter::FromLevel(f)),
            Err(e) => Err(e),
        },
    }
}

} // verus!
