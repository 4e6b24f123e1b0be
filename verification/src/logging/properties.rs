//! The properties of the logging functionality.
//!
//! The properties are bound from the `next.logging` prefix of the
//! environment, so the command line arguments, the configuration files and
//! the environment variables of the process are all sources of the
//! properties.

use vstd::prelude::*;

use crate::text::{
    chars_of, concat, equals, lemma_rfind, lower_spec, opt_view, rfind, rfind_spec, slice,
    split_spec, string_of, to_ascii_lowercase, trim, trim_spec,
};

verus! {

broadcast use vstd::string::group_string_axioms;

/// The prefix the properties of the logging functionality are bound from.
pub const LOGGING_PROPERTIES_PREFIX: &'static str = "next.logging";

/// The stem of the log file that is generated when no file name is
/// configured, which makes a log directory hold the files `next.log` and
/// `next_20260926.log`.
pub const DEFAULT_FILE_STEM: &'static str = "next";

/// The extension of the log file that is used when the file name of the
/// configuration holds none.
pub const DEFAULT_FILE_SUFFIX: &'static str = "log";

/// The format of the timestamp of a log record, which is the default of the
/// `next.logging.date-format` property.
pub const DEFAULT_DATE_FORMAT: &'static str = "%Y-%m-%d %H:%M:%S%.3f";

/// The directory a file name without a directory resolves to, which is the
/// working directory of the process.
pub const CURRENT_DIRECTORY: &'static str = ".";

/// The level of a log record, from the most to the least verbose.
#[derive(Debug, Clone, Copy, PartialEq, Eq, Structural)]
pub enum LogLevel {
    /// Very fine grained records.
    Trace,
    /// Records that help debugging.
    Debug,
    /// Records of the normal course of the application.
    Info,
    /// Records of situations that may need attention.
    Warn,
    /// Records of failures.
    Error,
}

/// The name a level is written with in a directive.
pub open spec fn level_name_spec(level: LogLevel) -> Seq<char> {
    match level {
        LogLevel::Trace => "trace"@,
        LogLevel::Debug => "debug"@,
        LogLevel::Info => "info"@,
        LogLevel::Warn => "warn"@,
        LogLevel::Error => "error"@,
    }
}

impl LogLevel {
    /// Returns the name of the level in lower case, as a directive writes it.
    pub fn as_str(&self) -> (r: &'static str)
        ensures
            r@ == level_name_spec(*self),
    {
        match self {
            LogLevel::Trace => "trace",
            LogLevel::Debug => "debug",
            LogLevel::Info => "info",
            LogLevel::Warn => "warn",
            LogLevel::Error => "error",
        }
    }
}

/// The level of a name: the name is trimmed and not case sensitive, and
/// `warning` is equivalent to `warn`.
pub open spec fn parse_level_spec(level: Seq<char>) -> Option<LogLevel> {
    let v = lower_spec(trim_spec(level));
    if v == "trace"@ {
        Some(LogLevel::Trace)
    } else if v == "debug"@ {
        Some(LogLevel::Debug)
    } else if v == "info"@ {
        Some(LogLevel::Info)
    } else if v == "warn"@ || v == "warning"@ {
        Some(LogLevel::Warn)
    } else if v == "error"@ {
        Some(LogLevel::Error)
    } else {
        None
    }
}

/// Returns the level of the given name, or `None` when the name is not
/// recognized.
///
/// The name is not case sensitive, and `warning` is equivalent to `warn`.
pub fn parse_level(level: &str) -> (r: Option<LogLevel>)
    ensures
        r == parse_level_spec(level@),
{
    let v = to_ascii_lowercase(&trim(&chars_of(level)));
    if equals(&v, &chars_of("trace")) {
        Some(LogLevel::Trace)
    } else if equals(&v, &chars_of("debug")) {
        Some(LogLevel::Debug)
    } else if equals(&v, &chars_of("info")) {
        Some(LogLevel::Info)
    } else if equals(&v, &chars_of("warn")) || equals(&v, &chars_of("warning")) {
        Some(LogLevel::Warn)
    } else if equals(&v, &chars_of("error")) {
        Some(LogLevel::Error)
    } else {
        None
    }
}

/// Whether a character may be part of the name of a logger.
pub open spec fn is_logger_char(c: char) -> bool {
    ('a' <= c && c <= 'z') || ('A' <= c && c <= 'Z') || ('0' <= c && c <= '9') || c == '_' || c
        == ':' || c == '-'
}

/// Whether the name is the name of a logger the level of which can be
/// configured: a name that holds a character which takes part in the syntax
/// of a directive is not.
pub open spec fn is_logger_name_spec(name: Seq<char>) -> bool {
    name.len() > 0 && forall|i: int| 0 <= i < name.len() ==> is_logger_char(#[trigger] name[i])
}

/// The name of a logger a directive is written with: a name that holds no
/// lower case letter is lowered.
pub open spec fn logger_name_spec(name: Seq<char>) -> Seq<char> {
    if exists|i: int| 0 <= i < name.len() && 'a' <= #[trigger] name[i] && name[i] <= 'z' {
        name
    } else {
        lower_spec(name)
    }
}

/// Returns whether the given name is the name of a logger the level of which
/// can be configured.
pub fn is_logger_name(name: &str) -> (r: bool)
    ensures
        r == is_logger_name_spec(name@),
{
    let chars = chars_of(name);
    if chars.len() == 0 {
        return false;
    }
    let mut i: usize = 0;
    while i < chars.len()
        invariant
            i <= chars.len(),
            chars@ == name@,
            forall|j: int| 0 <= j < i ==> is_logger_char(#[trigger] chars@[j]),
        decreases chars.len() - i,
    {
        let c = chars[i];
        if !(('a' <= c && c <= 'z') || ('A' <= c && c <= 'Z') || ('0' <= c && c <= '9') || c == '_'
            || c == ':' || c == '-') {
            return false;
        }
        i = i + 1;
    }
    true
}

/// Returns the name of a logger a directive is written with.
pub fn logger_name(name: &str) -> (r: String)
    ensures
        r@ == logger_name_spec(name@),
{
    let chars = chars_of(name);
    let mut i: usize = 0;
    while i < chars.len()
        invariant
            i <= chars.len(),
            chars@ == name@,
            forall|j: int| 0 <= j < i ==> !('a' <= #[trigger] chars@[j] && chars@[j] <= 'z'),
        decreases chars.len() - i,
    {
        if 'a' <= chars[i] && chars[i] <= 'z' {
            return name.to_owned();
        }
        i = i + 1;
    }
    string_of(&to_ascii_lowercase(&chars))
}

/// The warning of a logger whose name cannot be read.
pub open spec fn logger_warning_spec(logger: Seq<char>) -> Seq<char> {
    "'"@ + logger + "' is not the name of a logger, the level of the logger is not read"@
}

/// The warning of a level of a logger that cannot be read.
pub open spec fn level_warning_spec(logger: Seq<char>, name: Seq<char>) -> Seq<char> {
    "'"@ + name + "' is not the level of the logger '"@ + logger
        + "', using the level of the logging functionality"@
}

/// The directives of the levels of the loggers that can be read, in their
/// order.
pub open spec fn logger_directives_spec(levels: Seq<(Seq<char>, Seq<char>)>) -> Seq<Seq<char>>
    decreases levels.len(),
{
    if levels.len() == 0 {
        Seq::empty()
    } else {
        let rest = logger_directives_spec(levels.drop_last());
        let (logger, name) = levels.last();
        if is_logger_name_spec(logger) {
            match parse_level_spec(name) {
                Some(level) => rest.push(logger_name_spec(logger) + "="@ + level_name_spec(level)),
                None => rest,
            }
        } else {
            rest
        }
    }
}

/// The warnings of the levels of the loggers that cannot be read, in their
/// order.
pub open spec fn level_warnings_spec(levels: Seq<(Seq<char>, Seq<char>)>) -> Seq<Seq<char>>
    decreases levels.len(),
{
    if levels.len() == 0 {
        Seq::empty()
    } else {
        let rest = level_warnings_spec(levels.drop_last());
        let (logger, name) = levels.last();
        if !is_logger_name_spec(logger) {
            rest.push(logger_warning_spec(logger))
        } else if parse_level_spec(name) is None {
            rest.push(level_warning_spec(logger, name))
        } else {
            rest
        }
    }
}

/// The texts joined with commas.
pub open spec fn join_commas(items: Seq<Seq<char>>) -> Seq<char>
    decreases items.len(),
{
    if items.len() == 0 {
        Seq::empty()
    } else if items.len() == 1 {
        items[0]
    } else {
        join_commas(items.drop_last()) + ","@ + items.last()
    }
}

/// The texts of pairs of strings.
pub open spec fn pair_views(pairs: Seq<(String, String)>) -> Seq<(Seq<char>, Seq<char>)> {
    pairs.map_values(|p: (String, String)| (p.0@, p.1@))
}

/// How often a new log file is started.
#[derive(Debug, Clone, Copy, PartialEq, Eq, Structural)]
pub enum LogRotation {
    /// Every record is written to the same file.
    Never,
    /// A new file is started every minute.
    Minutely,
    /// A new file is started every hour.
    Hourly,
    /// A new file is started every day, which is the default.
    Daily,
    /// A new file is started every week, which starts on Monday.
    Weekly,
}

impl Default for LogRotation {
    /// A daily rotation.
    fn default() -> (r: Self)
        ensures
            r == LogRotation::Daily,
    {
        LogRotation::Daily
    }
}

/// The rotation of a name: the name is trimmed and not case sensitive.
pub open spec fn parse_rotation_spec(value: Seq<char>) -> Option<LogRotation> {
    let v = lower_spec(trim_spec(value));
    if v == "never"@ || v == "none"@ || v == "off"@ {
        Some(LogRotation::Never)
    } else if v == "minutely"@ || v == "minute"@ {
        Some(LogRotation::Minutely)
    } else if v == "hourly"@ || v == "hour"@ {
        Some(LogRotation::Hourly)
    } else if v == "daily"@ || v == "day"@ {
        Some(LogRotation::Daily)
    } else if v == "weekly"@ || v == "week"@ {
        Some(LogRotation::Weekly)
    } else {
        None
    }
}

impl LogRotation {
    /// Returns the rotation of the given name, or `None` when the name is not
    /// recognized.
    pub fn parse(value: &str) -> (r: Option<Self>)
        ensures
            r == parse_rotation_spec(value@),
    {
        let v = to_ascii_lowercase(&trim(&chars_of(value)));
        if equals(&v, &chars_of("never")) || equals(&v, &chars_of("none")) || equals(&v, &chars_of("off")) {
            Some(LogRotation::Never)
        } else if equals(&v, &chars_of("minutely")) || equals(&v, &chars_of("minute")) {
            Some(LogRotation::Minutely)
        } else if equals(&v, &chars_of("hourly")) || equals(&v, &chars_of("hour")) {
            Some(LogRotation::Hourly)
        } else if equals(&v, &chars_of("daily")) || equals(&v, &chars_of("day")) {
            Some(LogRotation::Daily)
        } else if equals(&v, &chars_of("weekly")) || equals(&v, &chars_of("week")) {
            Some(LogRotation::Weekly)
        } else {
            None
        }
    }
}

/// The properties of the log file.
///
/// The `name` is the name of the log file, which takes precedence over the
/// `path`. The `path` only specifies the directory the log file is stored in,
/// and the name of the file is generated, which is `next_20260926.log` for a
/// rotation and `next.log` when the files are never rotated.
#[derive(Debug, Clone)]
pub struct LoggingFileProperties {
    /// The name or the full path of the log file.
    pub name: Option<String>,
    /// The directory the log file is stored in.
    pub path: Option<String>,
    /// How often a new log file is started.
    pub rotation: Option<String>,
    /// The number of the rolled log files that are kept in addition to the
    /// file that is written to.
    pub max_history: Option<usize>,
    /// The maximum size of a single log file, for example `100MB`.
    pub max_file_size: Option<String>,
    /// The format of the date that is part of the name of a log file.
    pub date_format: Option<String>,
    /// The time zone the name of a log file is dated in.
    pub timezone: Option<String>,
    /// The maximum total size of the log files of the directory.
    pub total_size_cap: Option<String>,
    /// Whether a new log file is started when the application starts.
    pub roll_on_start: Option<bool>,
    /// Whether the log files that already exist are cleaned when the
    /// application starts.
    pub clean_history_on_start: Option<bool>,
}

impl Default for LoggingFileProperties {
    /// Properties of a file that holds nothing.
    fn default() -> (r: Self)
        ensures
            r.name is None && r.path is None && r.rotation is None && r.max_history is None
                && r.max_file_size is None && r.date_format is None && r.timezone is None
                && r.total_size_cap is None && r.roll_on_start is None
                && r.clean_history_on_start is None,
    {
        LoggingFileProperties {
            name: None,
            path: None,
            rotation: None,
            max_history: None,
            max_file_size: None,
            date_format: None,
            timezone: None,
            total_size_cap: None,
            roll_on_start: None,
            clean_history_on_start: None,
        }
    }
}

/// The directory of a log file, given the directory of its name when it has
/// one: that directory unless it is empty, else the `path`, else the working
/// directory.
pub open spec fn directory_spec(parent: Option<Seq<char>>, path: Option<Seq<char>>) -> Seq<char> {
    match parent {
        Some(p) if p.len() > 0 => p,
        _ => match path {
            Some(p) => p,
            None => CURRENT_DIRECTORY@,
        },
    }
}

/// Returns the directory of a log file, given the directory of its name as
/// `std::path::Path::parent` gives it: an empty directory counts as none.
pub fn directory_from(parent: Option<String>, path: &Option<String>) -> (r: String)
    ensures
        r@ == directory_spec(opt_view(parent), opt_view(*path)),
{
    match parent {
        Some(p) => if chars_of(p.as_str()).len() > 0 {
            p
        } else {
            match path {
                Some(q) => q.clone(),
                None => CURRENT_DIRECTORY.to_owned(),
            }
        },
        None => match path {
            Some(p) => p.clone(),
            None => CURRENT_DIRECTORY.to_owned(),
        },
    }
}

/// Whether a part of a path reads the same on every platform: it is not
/// empty and holds no separator (`/`, `\\`) and no `:`, which could start a
/// prefix.
pub open spec fn plain_component(part: Seq<char>) -> bool {
    &&& part.len() > 0
    &&& !part.contains('/')
    &&& !part.contains('\\')
    &&& !part.contains(':')
}

/// The part of a path after its leading `/`, if it has one.
pub open spec fn relative_part(name: Seq<char>) -> Seq<char> {
    if name.len() > 0 && name[0] == '/' {
        name.skip(1)
    } else {
        name
    }
}

/// Whether a path is components joined by single `/`, with or without a
/// leading `/`, each of them plain, and `.` only as the first component of a
/// relative path, such as `next.log`, `./logs/next.log`, `../logs/next.log`
/// or `/var/log/app/next.log`. Such a path has the same components on every
/// platform, and none of them is dropped when the path is read.
pub open spec fn portable_path(name: Seq<char>) -> bool {
    let parts = split_spec(relative_part(name), '/');
    forall|i: int|
        0 <= i < parts.len() ==> #[trigger] plain_component(parts[i]) && (parts[i] == "."@ ==> i == 0
            && relative_part(name) == name)
}

/// The directory part of a portable path: what stands before its last `/`,
/// which is `/` itself for a path directly under the root, and empty for a
/// path of a single component.
pub open spec fn path_parent_spec(name: Seq<char>) -> Seq<char> {
    let i = rfind_spec(name, '/');
    if i < 0 {
        Seq::empty()
    } else if i == 0 {
        "/"@
    } else {
        name.take(i)
    }
}

/// The last component of a portable path, what stands after its last `/`,
/// as a file name: none when it is `.` or `..`.
pub open spec fn path_file_name_spec(name: Seq<char>) -> Option<Seq<char>> {
    let last = name.skip(rfind_spec(name, '/') + 1);
    if last == "."@ || last == ".."@ {
        None
    } else {
        Some(last)
    }
}

/// The directory part of a name, through `std::path::Path::parent`.
///
/// For a portable path, `parent` gives the path without its last component
/// (`/foo/bar` gives `/foo`, `/foo` gives `/`, `./foo/bar` gives `./foo`,
/// `foo/..` gives `foo`, `foo` gives an empty path), which is what is
/// claimed. Of any other path, whose components depend on the separators and
/// prefixes of the platform or are normalized away (an empty or a `.`
/// component inside the path), nothing is claimed.
#[verifier::external_body]
fn path_parent(name: &str) -> (r: Option<String>)
    ensures
        portable_path(name@) ==> opt_view(r) == Some(path_parent_spec(name@)),
{
    std::path::Path::new(name).parent().map(|p| p.to_string_lossy().into_owned())
}

/// The file name of a path, through `std::path::Path::file_name`: the last
/// component of the path, `None` when the path ends in `.` or `..`.
///
/// For a portable path that is what is claimed (`foo/bar` gives `bar`,
/// `foo/..` gives none). Of any other path nothing is claimed.
#[verifier::external_body]
fn path_file_name(name: &str) -> (r: Option<String>)
    ensures
        portable_path(name@) ==> opt_view(r) == path_file_name_spec(name@),
{
    std::path::Path::new(name).file_name().and_then(|n| n.to_str()).map(|n| n.to_owned())
}

/// The stem of a file name, as `std::path::Path::file_stem` documents it:
/// the whole name when it holds no `.` but a leading one, else the part
/// before its last `.`.
pub open spec fn file_stem_spec(file_name: Seq<char>) -> Seq<char> {
    let i = rfind_spec(file_name, '.');
    if i <= 0 {
        file_name
    } else {
        file_name.take(i)
    }
}

/// The extension of a file name, as `std::path::Path::extension` documents
/// it: none when the name holds no `.` but a leading one, else the part
/// after its last `.`.
pub open spec fn file_extension_spec(file_name: Seq<char>) -> Option<Seq<char>> {
    let i = rfind_spec(file_name, '.');
    if i <= 0 {
        None
    } else {
        Some(file_name.skip(i + 1))
    }
}

/// The stem of the log file of a file name: the stem of the name unless it
/// is empty, else `next`.
pub open spec fn stem_of_spec(file_name: Option<Seq<char>>) -> Seq<char> {
    match file_name {
        Some(f) => if file_stem_spec(f).len() > 0 {
            file_stem_spec(f)
        } else {
            DEFAULT_FILE_STEM@
        },
        None => DEFAULT_FILE_STEM@,
    }
}

/// The extension of the log file of a file name: the extension of the name
/// unless it has none or it is empty, else `log`.
pub open spec fn suffix_of_spec(file_name: Option<Seq<char>>) -> Seq<char> {
    match file_name {
        Some(f) => match file_extension_spec(f) {
            Some(e) => if e.len() > 0 {
                e
            } else {
                DEFAULT_FILE_SUFFIX@
            },
            None => DEFAULT_FILE_SUFFIX@,
        },
        None => DEFAULT_FILE_SUFFIX@,
    }
}

/// Returns the stem of the log file of the given file name, which is
/// `next` for a file that has none.
pub fn stem_of(file_name: Option<String>) -> (r: String)
    ensures
        r@ == stem_of_spec(opt_view(file_name)),
{
    let f = match file_name {
        Some(f) => f,
        None => return DEFAULT_FILE_STEM.to_owned(),
    };
    let chars = chars_of(f.as_str());
    proof {
        lemma_rfind(chars@, '.');
    }
    let stem = match rfind(&chars, '.') {
        Some(i) => if i > 0 {
            slice(&chars, 0, i)
        } else {
            chars
        },
        None => chars,
    };
    if stem.len() > 0 {
        string_of(&stem)
    } else {
        DEFAULT_FILE_STEM.to_owned()
    }
}

/// Returns the extension of the log file of the given file name, which is
/// `log` for a file that has none.
pub fn suffix_of(file_name: Option<String>) -> (r: String)
    ensures
        r@ == suffix_of_spec(opt_view(file_name)),
{
    let f = match file_name {
        Some(f) => f,
        None => return DEFAULT_FILE_SUFFIX.to_owned(),
    };
    let chars = chars_of(f.as_str());
    proof {
        lemma_rfind(chars@, '.');
    }
    match rfind(&chars, '.') {
        Some(i) => if i > 0 {
            let extension = slice(&chars, i + 1, chars.len());
            if extension.len() > 0 {
                string_of(&extension)
            } else {
                DEFAULT_FILE_SUFFIX.to_owned()
            }
        } else {
            DEFAULT_FILE_SUFFIX.to_owned()
        },
        None => DEFAULT_FILE_SUFFIX.to_owned(),
    }
}

impl LoggingFileProperties {
    /// Whether a log file is configured: a name or a path is.
    pub open spec fn is_enabled_spec(&self) -> bool {
        self.name is Some || self.path is Some
    }

    /// Returns whether a log file is configured.
    pub fn is_enabled(&self) -> (r: bool)
        ensures
            r == self.is_enabled_spec(),
    {
        self.name.is_some() || self.path.is_some()
    }

    /// Returns the directory the log file is stored in: the directory of the
    /// `name`, else the `path`, else the working directory of the process.
    ///
    /// The directory of a name is what `std::path::Path` finds on the
    /// platform; the contract states it for the names that are portable paths,
    /// which mean the same on every platform.
    pub fn directory(&self) -> (r: String)
        ensures
            match self.name {
                Some(n) => portable_path(n@) ==> r@ == directory_spec(
                    Some(path_parent_spec(n@)),
                    opt_view(self.path),
                ),
                None => r@ == directory_spec(None, opt_view(self.path)),
            },
    {
        let parent = match &self.name {
            Some(name) => path_parent(name.as_str()),
            None => None,
        };
        directory_from(parent, &self.path)
    }

    /// Returns the stem of the log file, taken from the last component of the
    /// `name`, which is `next` for `/var/log/next.log` and for a file that has
    /// no name. The contract states it for the names that are portable paths.
    pub fn stem(&self) -> (r: String)
        ensures
            match self.name {
                Some(n) => portable_path(n@) ==> r@ == stem_of_spec(path_file_name_spec(n@)),
                None => r@ == DEFAULT_FILE_STEM@,
            },
    {
        let file_name = match &self.name {
            Some(name) => path_file_name(name.as_str()),
            None => None,
        };
        stem_of(file_name)
    }

    /// Returns the extension of the log file, taken from the last component
    /// of the `name`, which defaults to `log`. The contract states it for the
    /// names that are portable paths.
    pub fn suffix(&self) -> (r: String)
        ensures
            match self.name {
                Some(n) => portable_path(n@) ==> r@ == suffix_of_spec(path_file_name_spec(n@)),
                None => r@ == DEFAULT_FILE_SUFFIX@,
            },
    {
        let file_name = match &self.name {
            Some(name) => path_file_name(name.as_str()),
            None => None,
        };
        suffix_of(file_name)
    }

    /// How often a new file is started: the configured rotation, or daily.
    pub open spec fn rotation_spec(&self) -> LogRotation {
        match self.rotation {
            Some(r) => match parse_rotation_spec(r@) {
                Some(rotation) => rotation,
                None => LogRotation::Daily,
            },
            None => LogRotation::Daily,
        }
    }

    /// Returns how often a new log file is started, which defaults to
    /// [`LogRotation::Daily`].
    pub fn rotation(&self) -> (r: LogRotation)
        ensures
            r == self.rotation_spec(),
    {
        match &self.rotation {
            Some(r) => match LogRotation::parse(r.as_str()) {
                Some(rotation) => rotation,
                None => LogRotation::Daily,
            },
            None => LogRotation::Daily,
        }
    }

    /// Returns the number of the rolled log files that are kept, or `None`
    /// when every file is kept.
    pub fn max_history(&self) -> (r: Option<usize>)
        ensures
            r == self.max_history,
    {
        self.max_history
    }

    /// Returns the maximum size of a single log file, if configured.
    pub fn max_file_size(&self) -> (r: Option<&str>)
        ensures
            match r {
                Some(s) => opt_view(self.max_file_size) == Some(s@),
                None => self.max_file_size is None,
            },
    {
        match &self.max_file_size {
            Some(s) => Some(s.as_str()),
            None => None,
        }
    }

    /// Returns the format of the date that is part of the name of a log file,
    /// or `None` when the date of the period is used.
    pub fn file_date_format(&self) -> (r: Option<&str>)
        ensures
            match r {
                Some(s) => opt_view(self.date_format) == Some(s@),
                None => self.date_format is None,
            },
    {
        match &self.date_format {
            Some(s) => Some(s.as_str()),
            None => None,
        }
    }

    /// Returns the name of the time zone the name of a log file is dated in,
    /// or `None` when the time zone of the process is used.
    pub fn timezone(&self) -> (r: Option<&str>)
        ensures
            match r {
                Some(s) => opt_view(self.timezone) == Some(s@),
                None => self.timezone is None,
            },
    {
        match &self.timezone {
            Some(s) => Some(s.as_str()),
            None => None,
        }
    }

    /// Returns the maximum total size of the log files, if configured.
    pub fn total_size_cap(&self) -> (r: Option<&str>)
        ensures
            match r {
                Some(s) => opt_view(self.total_size_cap) == Some(s@),
                None => self.total_size_cap is None,
            },
    {
        match &self.total_size_cap {
            Some(s) => Some(s.as_str()),
            None => None,
        }
    }

    /// Returns whether a new log file is started when the application
    /// starts, which defaults to `false`.
    pub fn roll_on_start(&self) -> (r: bool)
        ensures
            r == (self.roll_on_start == Some(true)),
    {
        match self.roll_on_start {
            Some(b) => b,
            None => false,
        }
    }

    /// Returns whether the log files that already exist are cleaned when the
    /// application starts, which defaults to `false`.
    pub fn clean_history_on_start(&self) -> (r: bool)
        ensures
            r == (self.clean_history_on_start == Some(true)),
    {
        match self.clean_history_on_start {
            Some(b) => b,
            None => false,
        }
    }
}

/// The properties of the logging functionality.
///
/// Every field is optional, and the accessor methods provide the defaults the
/// fields fall back to, so a property that is not configured does not change
/// the default behavior of the logging functionality.
#[derive(Debug, Clone)]
pub struct LoggingProperties {
    /// The level of the logging functionality. Defaults to `info`.
    pub level: Option<String>,
    /// The levels of the loggers, by the name of the logger.
    pub levels: Vec<(String, String)>,
    /// The directives of the levels of the loggers, which replace the level
    /// and the levels of the loggers when they are configured.
    pub filter: Option<String>,
    /// Whether the log records are written to the console.
    pub console: Option<bool>,
    /// Whether the log records use ANSI colors.
    pub ansi: Option<bool>,
    /// The format of the timestamp of a log record.
    pub date_format: Option<String>,
    /// The log file the records are written to.
    pub file: Option<LoggingFileProperties>,
}

impl Default for LoggingProperties {
    /// Properties that configure nothing.
    fn default() -> (r: Self)
        ensures
            r.level is None && r.levels@.len() == 0 && r.filter is None && r.console is None
                && r.ansi is None && r.date_format is None && r.file is None,
    {
        LoggingProperties {
            level: None,
            levels: Vec::new(),
            filter: None,
            console: None,
            ansi: None,
            date_format: None,
            file: None,
        }
    }
}

impl LoggingProperties {
    /// The level of the logging functionality: the configured level, or
    /// `info` when it is not configured or not recognized.
    pub open spec fn level_spec(&self) -> LogLevel {
        match self.level {
            Some(l) => match parse_level_spec(l@) {
                Some(level) => level,
                None => LogLevel::Info,
            },
            None => LogLevel::Info,
        }
    }

    /// The directives of the levels: the filter when it is configured, else
    /// the level followed by the level of every logger that can be read.
    pub open spec fn level_directives_spec(&self) -> Seq<char> {
        match self.filter {
            Some(f) => f@,
            None => join_commas(
                seq![level_name_spec(self.level_spec())] + logger_directives_spec(
                    pair_views(self.levels@),
                ),
            ),
        }
    }

    /// The warnings of the levels that cannot be read, which the filter
    /// leaves unread.
    pub open spec fn level_directive_warnings_spec(&self) -> Seq<Seq<char>> {
        match self.filter {
            Some(_) => Seq::empty(),
            None => level_warnings_spec(pair_views(self.levels@)),
        }
    }

    /// Returns the name of the configured level, or `None` when the level is
    /// not configured.
    pub fn level_name(&self) -> (r: Option<&str>)
        ensures
            match r {
                Some(s) => opt_view(self.level) == Some(s@),
                None => self.level is None,
            },
    {
        match &self.level {
            Some(s) => Some(s.as_str()),
            None => None,
        }
    }

    /// Returns the level of the logging functionality, which defaults to
    /// `info` when the level is not configured or when its name is not
    /// recognized.
    pub fn level(&self) -> (r: LogLevel)
        ensures
            r == self.level_spec(),
    {
        match &self.level {
            Some(l) => match parse_level(l.as_str()) {
                Some(level) => level,
                None => LogLevel::Info,
            },
            None => LogLevel::Info,
        }
    }

    /// Returns the levels of the loggers, which is empty when no level of a
    /// logger is configured.
    pub fn levels(&self) -> (r: &Vec<(String, String)>)
        ensures
            r@ == self.levels@,
    {
        &self.levels
    }

    /// Returns the directives of the levels of the loggers.
    ///
    /// The directives are the level of the logging functionality followed by
    /// the level of every logger. The `filter` property replaces both when it
    /// is configured. The warnings of the levels that cannot be read are
    /// added to `warnings`.
    pub fn level_directives(&self, warnings: &mut Vec<String>) -> (r: String)
        ensures
            r@ == self.level_directives_spec(),
            crate::config::profiles::views(final(warnings)@) == crate::config::profiles::views(
                old(warnings)@,
            ) + self.level_directive_warnings_spec(),
    {
        if let Some(filter) = &self.filter {
            assert(crate::config::profiles::views(warnings@) =~= crate::config::profiles::views(
                warnings@,
            ) + Seq::<Seq<char>>::empty());
            return filter.clone();
        }
        let ghost start = crate::config::profiles::views(warnings@);
        let ghost levels = pair_views(self.levels@);
        let level = self.level();
        let mut directives = chars_of(level.as_str());
        let ghost mut items: Seq<Seq<char>> = seq![level_name_spec(level)];
        assert(join_commas(items) == directives@);
        let mut i: usize = 0;
        while i < self.levels.len()
            invariant
                i <= self.levels.len(),
                levels == pair_views(self.levels@),
                items.len() >= 1,
                items == seq![level_name_spec(self.level_spec())] + logger_directives_spec(
                    levels.take(i as int),
                ),
                directives@ == join_commas(items),
                crate::config::profiles::views(warnings@) == start + level_warnings_spec(
                    levels.take(i as int),
                ),
            decreases self.levels.len() - i,
        {
            let logger = self.levels[i].0.as_str();
            let name = self.levels[i].1.as_str();
            assert(levels.take(i + 1).drop_last() =~= levels.take(i as int));
            assert(levels.take(i + 1).last() == (logger@, name@));
            let ghost before = warnings@;
            if !is_logger_name(logger) {
                let w = crate::text::join3("'", logger, "' is not the name of a logger, the level of the logger is not read");
                proof {
                    reveal_strlit("'");
                }
                warnings.push(w);
                assert(crate::config::profiles::views(warnings@) =~= crate::config::profiles::views(before).push(w@));
            } else {
                match parse_level(name) {
                    Some(l) => {
                        let d = concat(&chars_of(logger_name(logger).as_str()), &chars_of("="));
                        let d = concat(&d, &chars_of(l.as_str()));
                        let with_comma = concat(&directives, &chars_of(","));
                        directives = concat(&with_comma, &d);
                        proof {
                            let old_items = items;
                            items = items.push(d@);
                            assert(items.drop_last() =~= old_items);
                            assert(items =~= seq![level_name_spec(self.level_spec())] + logger_directives_spec(
                                levels.take(i + 1),
                            ));
                        }
                    },
                    None => {
                        let w1 = crate::text::join3("'", name, "' is not the level of the logger '");
                        let w = crate::text::join3(w1.as_str(), logger, "', using the level of the logging functionality");
                        warnings.push(w);
                        assert(crate::config::profiles::views(warnings@) =~= crate::config::profiles::views(before).push(w@));
                    },
                }
            }
            i = i + 1;
        }
        assert(levels.take(i as int) =~= levels);
        string_of(&directives)
    }

    /// Returns whether the records are written to the console, which
    /// defaults to `true`.
    pub fn console(&self) -> (r: bool)
        ensures
            r == (self.console != Some(false)),
    {
        match self.console {
            Some(b) => b,
            None => true,
        }
    }

    /// Returns whether the records use ANSI colors: unless the property
    /// configures them, colors are used only when no log file is written.
    pub fn ansi(&self, file_enabled: bool) -> (r: bool)
        ensures
            r == match self.ansi {
                Some(b) => b,
                None => !file_enabled,
            },
    {
        match self.ansi {
            Some(b) => b,
            None => !file_enabled,
        }
    }

    /// Returns the format of the timestamp of a log record, which defaults to
    /// [`DEFAULT_DATE_FORMAT`].
    pub fn date_format(&self) -> (r: &str)
        ensures
            r@ == match self.date_format {
                Some(f) => f@,
                None => DEFAULT_DATE_FORMAT@,
            },
    {
        match &self.date_format {
            Some(f) => f.as_str(),
            None => DEFAULT_DATE_FORMAT,
        }
    }

    /// Returns the configuration of the log file, or `None` when no log file
    /// is written, which is also the case of file properties that hold no
    /// name and no path.
    pub fn file(&self) -> (r: Option<&LoggingFileProperties>)
        ensures
            match r {
                Some(f) => self.file == Some(*f) && f.is_enabled_spec(),
                None => self.file is None || !self.file->0.is_enabled_spec(),
            },
    {
        match &self.file {
            Some(f) => if f.is_enabled() {
                Some(f)
            } else {
                None
            },
            None => None,
        }
    }
}

} // verus!
