//! The decisions of the handler that initializes the logging functionality
//! once the environment is prepared: the warnings it reports, the filter of
//! the levels it installs, and where the records are written.

use vstd::prelude::*;

use crate::config::profiles::views;
use crate::logging::properties::{
    level_name_spec, parse_level, parse_level_spec, LoggingProperties,
};
use crate::logging::rolling::{decimal, decimal_spec};
use crate::text::{
    chars_of, concat, find_spec, join3, joined, lemma_find, lemma_joined_push, lemma_leading_whitespace, lemma_trailing_whitespace,
    lemma_split_of_joined, lemma_trim_idempotent, leading_whitespace, opt_view, split, split_spec,
    string_of, trim, trim_spec,
};

verus! {

broadcast use vstd::string::group_string_axioms;

/// The report of the records the logging functionality dropped.
pub open spec fn dropped_records_warning_spec(dropped: usize) -> Option<Seq<char>> {
    if dropped == 0 {
        None
    } else {
        Some(
            "the logging functionality dropped "@ + decimal_spec(dropped as nat)
                + " records, the records of the application are written faster than the records of the log file"@,
        )
    }
}

/// Returns the report of the records the logging functionality dropped, or
/// `None` when no record was dropped.
pub fn dropped_records_warning(dropped: usize) -> (r: Option<String>)
    ensures
        opt_view(r) == dropped_records_warning_spec(dropped),
{
    if dropped == 0 {
        return None;
    }
    let t = concat(&chars_of("the logging functionality dropped "), &decimal(dropped as u64));
    let t = concat(
        &t,
        &chars_of(" records, the records of the application are written faster than the records of the log file"),
    );
    Some(string_of(&t))
}

/// The warning of a level that is configured but not recognized.
pub open spec fn level_warning_spec(properties: LoggingProperties) -> Option<Seq<char>> {
    match properties.level {
        Some(l) => if parse_level_spec(l@) is None {
            Some("unknown log level '"@ + l@ + "', using info"@)
        } else {
            None
        },
        None => None,
    }
}

/// Returns the warning of a level that is configured but not recognized.
pub fn level_warning(properties: &LoggingProperties) -> (r: Option<String>)
    ensures
        opt_view(r) == level_warning_spec(*properties),
{
    match properties.level_name() {
        Some(level) => if parse_level(level).is_none() {
            Some(join3("unknown log level '", level, "', using info"))
        } else {
            None
        },
        None => None,
    }
}

/// The message `tracing_subscriber::EnvFilter` reports for directives it
/// cannot read, or `None` when it reads them.
pub uninterp spec fn env_filter_error(directives: Seq<char>) -> Option<Seq<char>>;

/// The directives between the commas of a text, each trimmed.
pub open spec fn trimmed_parts(directives: Seq<char>) -> Seq<Seq<char>> {
    split_spec(directives, ',').map_values(|p: Seq<char>| trim_spec(p))
}

/// The directives of a text with each one trimmed, joined with commas again.
pub open spec fn trim_directives_spec(directives: Seq<char>) -> Seq<char> {
    joined(trimmed_parts(directives), ',')
}

/// Whether every directive between the commas of a text is trimmed.
pub open spec fn directives_trimmed(directives: Seq<char>) -> bool {
    forall|i: int|
        0 <= i < split_spec(directives, ',').len() ==> trim_spec(#[trigger] split_spec(directives, ',')[i])
            == split_spec(directives, ',')[i]
}

/// The parts of a split hold no separator.
proof fn lemma_split_parts(s: Seq<char>, sep: char)
    ensures
        split_spec(s, sep).len() >= 1,
        forall|i: int| 0 <= i < split_spec(s, sep).len() ==> !(#[trigger] split_spec(s, sep)[i]).contains(sep),
    decreases s.len(),
{
    lemma_find(s, sep);
    let i = find_spec(s, sep);
    if i < 0 {
        if s.contains(sep) {
            let j = choose|j: int| 0 <= j < s.len() && s[j] == sep;
            assert(s[j] != sep);
        }
    } else {
        let rest = s.skip(i + 1);
        lemma_split_parts(rest, sep);
        let parts = split_spec(s, sep);
        assert forall|k: int| 0 <= k < parts.len() implies !(#[trigger] parts[k]).contains(sep) by {
            if k == 0 {
                assert(parts[0] == s.take(i));
                if s.take(i).contains(sep) {
                    let j = choose|j: int| 0 <= j < s.take(i).len() && s.take(i)[j] == sep;
                    assert(s[j] == sep);
                }
            } else {
                assert(parts[k] == split_spec(rest, sep)[k - 1]);
            }
        }
    }
}

/// Trimming a text that holds no given character gives a text that holds
/// none either.
proof fn lemma_trim_keeps_absent(s: Seq<char>, c: char)
    requires
        !s.contains(c),
    ensures
        !trim_spec(s).contains(c),
{
    let t = trim_spec(s);
    let lead = leading_whitespace(s);
    lemma_leading_whitespace(s);
    let u = s.skip(lead as int);
    lemma_trailing_whitespace(u);
    if t.contains(c) {
        let j = choose|j: int| 0 <= j < t.len() && t[j] == c;
        assert(t[j] == u[j]);
        assert(u[j] == s[lead + j]);
        assert(s.contains(c));
    }
}

/// Returns the directives of a text with each one trimmed, joined with
/// commas again: `tracing_subscriber` trims a directive before it reads it,
/// and only reads a trimmed one safely.
pub fn trim_directives(directives: &str) -> (r: String)
    ensures
        r@ == trim_directives_spec(directives@),
        directives_trimmed(r@),
{
    let parts = split(&chars_of(directives), ',');
    let ghost tp = trimmed_parts(directives@);
    proof {
        lemma_split_parts(directives@, ',');
    }
    let mut result = trim(&parts[0]);
    assert(tp.take(1) =~= seq![tp[0]]);
    let mut i: usize = 1;
    while i < parts.len()
        invariant
            1 <= i <= parts@.len(),
            parts@.len() == tp.len(),
            tp == trimmed_parts(directives@),
            forall|k: int| 0 <= k < parts@.len() ==> #[trigger] parts@[k]@ == split_spec(directives@, ',')[k],
            result@ == joined(tp.take(i as int), ','),
        decreases parts.len() - i,
    {
        let piece = trim(&parts[i]);
        let with_comma = concat(&result, &vec![',']);
        result = concat(&with_comma, &piece);
        proof {
            assert(tp.take(i + 1) =~= tp.take(i as int).push(tp[i as int]));
            lemma_joined_push(tp.take(i as int), tp[i as int], ',');
        }
        i = i + 1;
    }
    assert(tp.take(i as int) =~= tp);
    proof {
        assert forall|k: int| 0 <= k < tp.len() implies !(#[trigger] tp[k]).contains(',') by {
            lemma_trim_keeps_absent(split_spec(directives@, ',')[k], ',');
        }
        lemma_split_of_joined(tp, ',');
        assert forall|k: int| 0 <= k < tp.len() implies trim_spec(#[trigger] tp[k]) == tp[k] by {
            lemma_trim_idempotent(split_spec(directives@, ',')[k]);
        }
    }
    string_of(&result)
}

/// Reads the directives with `tracing_subscriber::EnvFilter::builder().parse`,
/// and returns the message of the error when they cannot be read.
///
/// Claims that the outcome is a function of the directives alone. The
/// directives must each be trimmed: `Directive::parse` walks the trimmed
/// directive but slices the untrimmed one, which panics on a directive that
/// starts with whitespace followed by a character of several bytes.
#[verifier::external_body]
fn parse_env_filter(directives: &str) -> (r: Option<String>)
    requires
        directives_trimmed(directives@),
    ensures
        opt_view(r) == env_filter_error(directives@),
{
    match tracing_subscriber::EnvFilter::builder().parse(directives) {
        Ok(_) => None,
        Err(error) => Some(error.to_string()),
    }
}

/// The directives the filter of the levels is built with: the directives of
/// the properties, each trimmed, when they can be read, else the level of
/// the logging functionality.
pub open spec fn filter_directives_spec(properties: LoggingProperties) -> Seq<char> {
    let directives = trim_directives_spec(properties.level_directives_spec());
    match env_filter_error(directives) {
        None => directives,
        Some(_) => level_name_spec(properties.level_spec()),
    }
}

/// The warnings of the filter of the levels: those of the levels that cannot
/// be read, then one when the directives cannot be read.
pub open spec fn filter_warnings_spec(properties: LoggingProperties) -> Seq<Seq<char>> {
    let directives = trim_directives_spec(properties.level_directives_spec());
    properties.level_directive_warnings_spec() + match env_filter_error(directives) {
        None => Seq::empty(),
        Some(error) => seq![
            "the levels of the loggers '"@ + directives + "' cannot be read: "@ + error
                + ", using the level of the logging functionality"@,
        ],
    }
}

/// Returns the directives the filter of the levels is built with, each
/// trimmed, and adds the warnings of the levels and of the directives that
/// cannot be read.
pub fn filter_directives(properties: &LoggingProperties, warnings: &mut Vec<String>) -> (r: String)
    ensures
        r@ == filter_directives_spec(*properties),
        views(final(warnings)@) == views(old(warnings)@) + filter_warnings_spec(*properties),
{
    let ghost start = views(warnings@);
    let configured = properties.level_directives(warnings);
    let directives = trim_directives(configured.as_str());
    let ghost after = views(warnings@);
    match parse_env_filter(directives.as_str()) {
        None => {
            assert(views(warnings@) =~= start + filter_warnings_spec(*properties));
            directives
        },
        Some(error) => {
            let w = join3("the levels of the loggers '", directives.as_str(), "' cannot be read: ");
            let w = join3(w.as_str(), error.as_str(), ", using the level of the logging functionality");
            warnings.push(w);
            assert(views(warnings@) =~= after.push(w@));
            assert(views(warnings@) =~= start + filter_warnings_spec(*properties));
            properties.level().as_str().to_owned()
        },
    }
}

/// Where the records of the logging functionality are written.
#[derive(Debug, Clone, Copy, PartialEq, Eq, Structural)]
pub enum LogDestination {
    /// The standard output of the process.
    Console,
    /// The log file.
    File,
    /// The standard output and the log file at the same time.
    ConsoleAndFile,
}

/// Where the records are written: to the file when one is configured and it
/// could be created, together with the console when the console is wanted;
/// to the console alone otherwise when it is wanted; nowhere else.
pub open spec fn destination_spec(console: bool, file_configured: bool, file_created: bool) -> Option<
    LogDestination,
> {
    if file_configured && file_created {
        if console {
            Some(LogDestination::ConsoleAndFile)
        } else {
            Some(LogDestination::File)
        }
    } else if console {
        Some(LogDestination::Console)
    } else {
        None
    }
}

/// Returns where the records are written, or `None` when they are written
/// nowhere and no subscriber is needed.
pub fn destination(console: bool, file_configured: bool, file_created: bool) -> (r: Option<LogDestination>)
    ensures
        r == destination_spec(console, file_configured, file_created),
{
    if file_configured && file_created {
        if console {
            Some(LogDestination::ConsoleAndFile)
        } else {
            Some(LogDestination::File)
        }
    } else if console {
        Some(LogDestination::Console)
    } else {
        None
    }
}

/// Returns the warning of a log file that cannot be created in the given
/// directory.
pub fn file_failure_warning(directory: &str, error: &str) -> (r: String)
    ensures
        r@ == "failed to create the log file of "@ + directory@ + ": "@ + error@,
{
    let t = join3("failed to create the log file of ", directory, ": ");
    let t = concat(&chars_of(t.as_str()), &chars_of(error));
    string_of(&t)
}

/// Returns the warning of properties that cannot be bound.
pub fn bind_failure_warning(error: &str) -> (r: String)
    ensures
        r@ == "failed to bind the logging properties, using the defaults: "@ + error@,
{
    let t = concat(&chars_of("failed to bind the logging properties, using the defaults: "), &chars_of(error));
    string_of(&t)
}

} // verus!
