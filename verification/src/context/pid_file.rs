//! The rules of the handler that writes the process id of the application to
//! a file.
//!
//! The handler writes the file once per process, and the name of the file is
//! [`DEFAULT_FILE_NAME`] unless it is configured through the
//! [`PID_FILE_PROPERTY`] or [`PIDFILE_PROPERTY`] properties of the event, or
//! through the [`PIDFILE_ENVIRONMENT_VARIABLE`] environment variable of the
//! process. A failure to write the file is reported as a warning, unless the
//! application asks to fail instead through the
//! [`FAIL_ON_WRITE_ERROR_PROPERTY`] property or the
//! [`FAIL_ON_WRITE_ERROR_ENVIRONMENT_VARIABLE`] environment variable.

use vstd::prelude::*;

use crate::text::{chars_of, equals, join3, lower_spec, opt_view, to_ascii_lowercase, trim, trim_spec};

verus! {

broadcast use vstd::string::group_string_axioms;

/// Property that names the file the process id is written to.
pub const PID_FILE_PROPERTY: &'static str = "next.pid.file";

/// Property that names the file the process id is written to.
pub const PIDFILE_PROPERTY: &'static str = "next.pidfile";

/// Property that makes a failure to write the file fail the application.
pub const FAIL_ON_WRITE_ERROR_PROPERTY: &'static str = "next.pid.fail-on-write-error";

/// Environment variable that names the file the process id is written to.
pub const PIDFILE_ENVIRONMENT_VARIABLE: &'static str = "PIDFILE";

/// Environment variable that makes a failure to write the file fail the
/// application.
pub const FAIL_ON_WRITE_ERROR_ENVIRONMENT_VARIABLE: &'static str = "PID_FAIL_ON_WRITE_ERROR";

/// The file the process id is written to when none is configured.
pub const DEFAULT_FILE_NAME: &'static str = "application.pid";

/// The order of the handler, which runs just after the handlers that have the
/// highest precedence.
pub const ORDER: i32 = -2147483635i32;

/// The events of the life of an application.
#[derive(Debug, Clone, Copy, PartialEq, Eq, Structural)]
pub enum EventKind {
    /// The application is starting; no environment exists yet.
    Starting,
    /// The environment is prepared.
    EnvironmentPrepared,
    /// The application context is prepared.
    ContextPrepared,
    /// The application context is loaded.
    ContextLoaded,
    /// The application has started.
    Started,
    /// The application is ready to serve.
    Ready,
    /// The application failed to start; no environment is carried.
    Error,
}

/// The event that triggers the writing of the process id file.
///
/// The events that do not carry an environment, such as the event that is
/// published while the application is starting, cannot be used as a
/// trigger, because the name of the file may be configured through the
/// environment.
#[derive(Debug, Clone, Copy, PartialEq, Eq, Structural)]
pub enum PidFileTrigger {
    /// The event that is published once the environment is prepared (the
    /// default).
    EnvironmentPrepared,
    /// The event that is published once the application context is prepared.
    ContextPrepared,
    /// The event that is published once the application context is loaded.
    ContextLoaded,
    /// The event that is published once the application has started.
    Started,
    /// The event that is published once the application is ready to serve.
    Ready,
}

impl Default for PidFileTrigger {
    /// The environment prepared event.
    fn default() -> (r: Self)
        ensures
            r == PidFileTrigger::EnvironmentPrepared,
    {
        PidFileTrigger::EnvironmentPrepared
    }
}

/// The trigger of an event, which the events without an environment have
/// none of.
pub open spec fn trigger_of_spec(event: EventKind) -> Option<PidFileTrigger> {
    match event {
        EventKind::EnvironmentPrepared => Some(PidFileTrigger::EnvironmentPrepared),
        EventKind::ContextPrepared => Some(PidFileTrigger::ContextPrepared),
        EventKind::ContextLoaded => Some(PidFileTrigger::ContextLoaded),
        EventKind::Started => Some(PidFileTrigger::Started),
        EventKind::Ready => Some(PidFileTrigger::Ready),
        EventKind::Starting | EventKind::Error => None,
    }
}

impl PidFileTrigger {
    /// Returns the trigger of the given event, or `None` when the event does
    /// not carry an environment.
    pub fn of(event: &EventKind) -> (r: Option<Self>)
        ensures
            r == trigger_of_spec(*event),
    {
        match event {
            EventKind::EnvironmentPrepared => Some(PidFileTrigger::EnvironmentPrepared),
            EventKind::ContextPrepared => Some(PidFileTrigger::ContextPrepared),
            EventKind::ContextLoaded => Some(PidFileTrigger::ContextLoaded),
            EventKind::Started => Some(PidFileTrigger::Started),
            EventKind::Ready => Some(PidFileTrigger::Ready),
            EventKind::Starting | EventKind::Error => None,
        }
    }

    /// Returns whether the given event triggers the writing of the process id
    /// file.
    pub fn matches(&self, event: &EventKind) -> (r: bool)
        ensures
            r == (trigger_of_spec(*event) == Some(*self)),
    {
        match PidFileTrigger::of(event) {
            Some(t) => t == *self,
            None => false,
        }
    }
}

/// The boolean a value reads as: `true` and `false` in any case, trimmed.
pub open spec fn parse_bool_spec(value: Seq<char>) -> Option<bool> {
    let v = lower_spec(trim_spec(value));
    if v == "true"@ {
        Some(true)
    } else if v == "false"@ {
        Some(false)
    } else {
        None
    }
}

/// Parses a boolean value, accepting `true` and `false` in any case.
pub fn parse_bool(value: &str) -> (r: Option<bool>)
    ensures
        r == parse_bool_spec(value@),
{
    let v = to_ascii_lowercase(&trim(&chars_of(value)));
    if equals(&v, &chars_of("true")) {
        Some(true)
    } else if equals(&v, &chars_of("false")) {
        Some(false)
    } else {
        None
    }
}

/// The value of an environment variable, unless it is blank.
pub open spec fn variable_value_spec(value: Option<Seq<char>>) -> Option<Seq<char>> {
    match value {
        Some(v) => if trim_spec(v).len() > 0 {
            Some(v)
        } else {
            None
        },
        None => None,
    }
}

/// Returns the value of an environment variable, unless it is blank.
pub fn variable_value(value: Option<String>) -> (r: Option<String>)
    ensures
        opt_view(r) == variable_value_spec(opt_view(value)),
{
    match value {
        Some(v) => if trim(&chars_of(v.as_str())).len() > 0 {
            Some(v)
        } else {
            None
        },
        None => None,
    }
}

/// The first value that is present.
pub open spec fn first_present(a: Option<Seq<char>>, b: Option<Seq<char>>) -> Option<Seq<char>> {
    match a {
        Some(v) => Some(v),
        None => b,
    }
}

/// The handler that writes the process id of the application to a file.
///
/// The handler is not registered by default: add it to an application that
/// has to expose its process id.
#[derive(Debug)]
pub struct ApplicationPidFileWriter {
    order: i32,
    file: String,
    trigger: PidFileTrigger,
    written_file: Option<String>,
}

impl ApplicationPidFileWriter {
    /// The order of the handler.
    pub closed spec fn order_spec(&self) -> i32 {
        self.order
    }

    /// The file the process id is written to when none is configured.
    pub closed spec fn file_spec(&self) -> Seq<char> {
        self.file@
    }

    /// The event that triggers the writing.
    pub closed spec fn trigger_spec(&self) -> PidFileTrigger {
        self.trigger
    }

    /// The file that was written, if any.
    pub closed spec fn written_file_spec(&self) -> Option<Seq<char>> {
        opt_view(self.written_file)
    }

    /// Creates a handler that writes the process id to the given file, which
    /// the properties and the environment variable that configure it may
    /// still override.
    pub fn new(file: &str) -> (r: Self)
        ensures
            r.order_spec() == ORDER,
            r.file_spec() == file@,
            r.trigger_spec() == PidFileTrigger::EnvironmentPrepared,
            r.written_file_spec() is None,
    {
        ApplicationPidFileWriter {
            order: ORDER,
            file: file.to_owned(),
            trigger: PidFileTrigger::EnvironmentPrepared,
            written_file: None,
        }
    }

    /// Sets the order of the handler.
    pub fn set_order(&mut self, order: i32)
        ensures
            final(self).order_spec() == order,
            final(self).file_spec() == old(self).file_spec(),
            final(self).trigger_spec() == old(self).trigger_spec(),
            final(self).written_file_spec() == old(self).written_file_spec(),
    {
        self.order = order;
    }

    /// Sets the event that triggers the writing of the process id file.
    pub fn set_trigger(&mut self, trigger: PidFileTrigger)
        ensures
            final(self).trigger_spec() == trigger,
            final(self).order_spec() == old(self).order_spec(),
            final(self).file_spec() == old(self).file_spec(),
            final(self).written_file_spec() == old(self).written_file_spec(),
    {
        self.trigger = trigger;
    }

    /// Returns the order of the handler.
    pub fn order(&self) -> (r: i32)
        ensures
            r == self.order_spec(),
    {
        self.order
    }

    /// Returns the file the process id is written to when none is configured.
    pub fn file(&self) -> (r: &str)
        ensures
            r@ == self.file_spec(),
    {
        self.file.as_str()
    }

    /// Returns the event that triggers the writing of the process id file.
    pub fn trigger(&self) -> (r: PidFileTrigger)
        ensures
            r == self.trigger_spec(),
    {
        self.trigger
    }

    /// Returns the file the process id was written to, if it was.
    pub fn written_file(&self) -> (r: Option<&str>)
        ensures
            match r {
                Some(f) => self.written_file_spec() == Some(f@),
                None => self.written_file_spec() is None,
            },
    {
        match &self.written_file {
            Some(f) => Some(f.as_str()),
            None => None,
        }
    }

    /// Returns whether the given event makes the handler write the process id
    /// file: it is the trigger of the handler, and no process id was written
    /// by this process yet.
    pub fn should_write(&self, event: &EventKind, pid_written: bool) -> (r: bool)
        ensures
            r == (trigger_of_spec(*event) == Some(self.trigger_spec()) && !pid_written),
    {
        self.trigger.matches(event) && !pid_written
    }

    /// Returns the file the process id is written to: the first of the
    /// properties that names one, else the environment variable unless it
    /// is blank, else the file of the handler.
    pub fn pid_file(&self, property: Option<String>, variable: Option<String>) -> (r: String)
        ensures
            r@ == match first_present(opt_view(property), variable_value_spec(opt_view(variable))) {
                Some(f) => f,
                None => self.file_spec(),
            },
    {
        match property {
            Some(p) => p,
            None => match variable_value(variable) {
                Some(v) => v,
                None => self.file.clone(),
            },
        }
    }

    /// Returns whether a failure to write the process id file fails the
    /// application: the property, else the environment variable unless it is
    /// blank, read as a boolean, and `false` when neither is set or the value
    /// is not a boolean.
    pub fn fail_on_write_error(&self, property: Option<String>, variable: Option<String>) -> (r: bool)
        ensures
            r == match first_present(opt_view(property), variable_value_spec(opt_view(variable))) {
                Some(v) => parse_bool_spec(v) == Some(true),
                None => false,
            },
    {
        let value = match property {
            Some(p) => Some(p),
            None => variable_value(variable),
        };
        match value {
            Some(v) => match parse_bool(v.as_str()) {
                Some(b) => b,
                None => false,
            },
            None => false,
        }
    }

    /// Records that the process id was written to the given file, which is
    /// removed once the application stops.
    pub fn record_written(&mut self, file: String)
        ensures
            final(self).written_file_spec() == Some(file@),
            final(self).order_spec() == old(self).order_spec(),
            final(self).file_spec() == old(self).file_spec(),
            final(self).trigger_spec() == old(self).trigger_spec(),
    {
        self.written_file = Some(file);
    }

    /// Takes the file that was written, which the handler removes once the
    /// application stops; none is left afterwards.
    pub fn take_written_file(&mut self) -> (r: Option<String>)
        ensures
            opt_view(r) == old(self).written_file_spec(),
            final(self).written_file_spec() is None,
            final(self).order_spec() == old(self).order_spec(),
            final(self).file_spec() == old(self).file_spec(),
            final(self).trigger_spec() == old(self).trigger_spec(),
    {
        let r = match &self.written_file {
            Some(f) => Some(f.clone()),
            None => None,
        };
        self.written_file = None;
        r
    }
}

/// The message of a process id file that cannot be written.
pub fn failure_message(file: &str) -> (r: String)
    ensures
        r@ == "Cannot create pid file "@ + file@,
{
    let r = join3("Cannot create pid file ", file, "");
    proof {
        reveal_strlit("");
    }
    assert(r@ =~= "Cannot create pid file "@ + file@);
    r
}

impl Default for ApplicationPidFileWriter {
    /// A handler that writes the process id to [`DEFAULT_FILE_NAME`].
    fn default() -> (r: Self)
        ensures
            r.order_spec() == ORDER,
            r.file_spec() == DEFAULT_FILE_NAME@,
            r.trigger_spec() == PidFileTrigger::EnvironmentPrepared,
            r.written_file_spec() is None,
    {
        ApplicationPidFileWriter::new(DEFAULT_FILE_NAME)
    }
}

} // verus!
