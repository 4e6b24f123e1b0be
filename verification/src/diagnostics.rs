//! The analyses of the failures of an application, and the messages they are
//! reported with.
//!
//! An analysis holds a human-readable description of what went wrong, an
//! actionable suggestion for resolving the problem, and the underlying cause
//! of the failure. The cause is generic: the application keeps the error it
//! analyzed there.

use vstd::prelude::*;

use crate::text::{chars_of, concat, join3, opt_view, string_of};

verus! {

broadcast use vstd::string::group_string_axioms;

/// The banner of the report of an application that failed to start.
pub const FAILURE_BANNER: &'static str = "\n\n***************************\nAPPLICATION FAILED TO START\n***************************\n\n";

/// The action suggested for a singleton definition that overrides another.
pub const SINGLETON_OVERRIDE_ACTION: &'static str = "Consider renaming one of the singleton or enabling overriding by setting next.appliation.context.allow_override=true";

/// The result of analyzing an error: a description, an optional action, and
/// the optional cause.
#[derive(Debug)]
pub struct ErrorAnalysis<C> {
    description: String,
    action: Option<String>,
    cause: Option<C>,
}

impl<C> ErrorAnalysis<C> {
    /// The description of the error.
    pub closed spec fn description_spec(&self) -> Seq<char> {
        self.description@
    }

    /// The action suggested for the error.
    pub closed spec fn action_spec(&self) -> Option<Seq<char>> {
        opt_view(self.action)
    }

    /// The cause of the error.
    pub closed spec fn cause_spec(&self) -> Option<C> {
        self.cause
    }

    /// Creates an analysis with the given description, action, and cause.
    pub fn new(description: &str, action: Option<&str>, cause: Option<C>) -> (r: Self)
        ensures
            r.description_spec() == description@,
            r.action_spec() == match action {
                Some(a) => Some(a@),
                None => None,
            },
            r.cause_spec() == cause,
    {
        let action = match action {
            Some(a) => Some(a.to_owned()),
            None => None,
        };
        ErrorAnalysis { description: description.to_owned(), action, cause }
    }

    /// Creates an analysis that holds a description alone.
    pub fn of_description(description: String) -> (r: Self)
        ensures
            r.description_spec() == description@,
            r.action_spec() is None,
            r.cause_spec() is None,
    {
        ErrorAnalysis { description, action: None, cause: None }
    }

    /// Returns the description of the error.
    pub fn description(&self) -> (r: &str)
        ensures
            r@ == self.description_spec(),
    {
        self.description.as_str()
    }

    /// Returns the action to take to address the error, if any.
    pub fn action(&self) -> (r: Option<&str>)
        ensures
            match r {
                Some(a) => self.action_spec() == Some(a@),
                None => self.action_spec() is None,
            },
    {
        match &self.action {
            Some(a) => Some(a.as_str()),
            None => None,
        }
    }

    /// Returns the cause of the error, if available.
    pub fn cause(&self) -> (r: Option<&C>)
        ensures
            match r {
                Some(c) => self.cause_spec() == Some(*c),
                None => self.cause_spec() is None,
            },
    {
        match &self.cause {
            Some(c) => Some(c),
            None => None,
        }
    }

    /// Returns this analysis with the given action.
    pub fn with_action(self, action: &str) -> (r: Self)
        ensures
            r.description_spec() == self.description_spec(),
            r.action_spec() == Some(action@),
            r.cause_spec() == self.cause_spec(),
    {
        ErrorAnalysis { description: self.description, action: Some(action.to_owned()), cause: self.cause }
    }

    /// Returns this analysis with the given cause.
    pub fn with_cause(self, cause: C) -> (r: Self)
        ensures
            r.description_spec() == self.description_spec(),
            r.action_spec() == self.action_spec(),
            r.cause_spec() == Some(cause),
    {
        ErrorAnalysis { description: self.description, action: self.action, cause: Some(cause) }
    }
}

/// The result of analyzing a failure: a description, an optional action, and
/// the optional cause, which the analysis owns.
#[derive(Debug)]
pub struct FailureAnalysis<C> {
    description: String,
    action: Option<String>,
    cause: Option<C>,
}

impl<C> FailureAnalysis<C> {
    /// The description of the failure.
    pub closed spec fn description_spec(&self) -> Seq<char> {
        self.description@
    }

    /// The action suggested for the failure.
    pub closed spec fn action_spec(&self) -> Option<Seq<char>> {
        opt_view(self.action)
    }

    /// The cause of the failure.
    pub closed spec fn cause_spec(&self) -> Option<C> {
        self.cause
    }

    /// Creates an analysis with the given description, action, and cause.
    pub fn new(description: &str, action: Option<&str>, cause: Option<C>) -> (r: Self)
        ensures
            r.description_spec() == description@,
            r.action_spec() == match action {
                Some(a) => Some(a@),
                None => None,
            },
            r.cause_spec() == cause,
    {
        let action = match action {
            Some(a) => Some(a.to_owned()),
            None => None,
        };
        FailureAnalysis { description: description.to_owned(), action, cause }
    }

    /// Returns the description of the failure.
    pub fn description(&self) -> (r: &str)
        ensures
            r@ == self.description_spec(),
    {
        self.description.as_str()
    }

    /// Returns the action to take to address the failure, if any.
    pub fn action(&self) -> (r: Option<&str>)
        ensures
            match r {
                Some(a) => self.action_spec() == Some(a@),
                None => self.action_spec() is None,
            },
    {
        match &self.action {
            Some(a) => Some(a.as_str()),
            None => None,
        }
    }

    /// Returns the cause of the failure, if available.
    pub fn cause(&self) -> (r: Option<&C>)
        ensures
            match r {
                Some(c) => self.cause_spec() == Some(*c),
                None => self.cause_spec() is None,
            },
    {
        match &self.cause {
            Some(c) => Some(c),
            None => None,
        }
    }

    /// Returns the cause of the failure, giving up the analysis.
    pub fn into_cause(self) -> (r: Option<C>)
        ensures
            r == self.cause_spec(),
    {
        self.cause
    }

    /// Returns this analysis with the given action.
    pub fn with_action(self, action: &str) -> (r: Self)
        ensures
            r.description_spec() == self.description_spec(),
            r.action_spec() == Some(action@),
            r.cause_spec() == self.cause_spec(),
    {
        FailureAnalysis { description: self.description, action: Some(action.to_owned()), cause: self.cause }
    }

    /// Returns this analysis with the given cause.
    pub fn with_cause(self, cause: C) -> (r: Self)
        ensures
            r.description_spec() == self.description_spec(),
            r.action_spec() == self.action_spec(),
            r.cause_spec() == Some(cause),
    {
        FailureAnalysis { description: self.description, action: self.action, cause: Some(cause) }
    }
}

/// The report of an application that failed to start: the banner, the
/// description, and the action unless there is none or it is empty.
pub open spec fn failure_message_spec(description: Seq<char>, action: Option<Seq<char>>) -> Seq<char> {
    let head = FAILURE_BANNER@ + "Description:\n\n"@ + description + "\n"@;
    match action {
        Some(a) => if a.len() > 0 {
            head + "\nAction:\n\n"@ + a + "\n"@
        } else {
            head
        },
        None => head,
    }
}

/// Returns the report of an application that failed to start.
pub fn failure_message(description: &str, action: Option<&str>) -> (r: String)
    ensures
        r@ == failure_message_spec(
            description@,
            match action {
                Some(a) => Some(a@),
                None => None,
            },
        ),
{
    let head = join3(FAILURE_BANNER, "Description:\n\n", description);
    let head = concat(&chars_of(head.as_str()), &chars_of("\n"));
    let r = match action {
        Some(a) => if chars_of(a).len() > 0 {
            let t = concat(&head, &chars_of("\nAction:\n\n"));
            let t = concat(&t, &chars_of(a));
            concat(&t, &chars_of("\n"))
        } else {
            head
        },
        None => head,
    };
    string_of(&r)
}

/// The reporter that logs the analysis of an error.
#[derive(Debug, Clone, Copy, Default)]
pub struct LoggingErrorAnalysisReporter;

impl LoggingErrorAnalysisReporter {
    /// Returns the message the analysis is logged with.
    pub fn build_message<C>(&self, analysis: &ErrorAnalysis<C>) -> (r: String)
        ensures
            r@ == failure_message_spec(analysis.description_spec(), analysis.action_spec()),
    {
        failure_message(analysis.description(), analysis.action())
    }
}

/// The reporter that logs the analysis of a failure.
#[derive(Debug, Clone, Copy, Default)]
pub struct LoggingFailureAnalysisReporter;

impl LoggingFailureAnalysisReporter {
    /// Returns the message the analysis is logged with.
    pub fn build_message<C>(&self, analysis: &FailureAnalysis<C>) -> (r: String)
        ensures
            r@ == failure_message_spec(analysis.description_spec(), analysis.action_spec()),
    {
        failure_message(analysis.description(), analysis.action())
    }
}

/// The analyzer of an error whose cause is an address that is already in
/// use.
#[derive(Debug, Clone, Copy, Default)]
pub struct PortInUseErrorAnalyzer;

impl PortInUseErrorAnalyzer {
    /// Returns the analysis of an address in use, given the text of the
    /// cause, which names the port.
    pub fn analysis<C>(&self, cause_text: &str, cause: C) -> (r: ErrorAnalysis<C>)
        ensures
            r.description_spec() == "Web server failed to start. Port "@ + cause_text@
                + " was already in use."@,
            r.action_spec() == Some(
                "Identify and stop the process that's listening on port "@ + cause_text@
                    + " or configure this application to listen on another port."@,
            ),
            r.cause_spec() == Some(cause),
    {
        let description = join3("Web server failed to start. Port ", cause_text, " was already in use.");
        let action = join3(
            "Identify and stop the process that's listening on port ",
            cause_text,
            " or configure this application to listen on another port.",
        );
        ErrorAnalysis { description, action: Some(action), cause: Some(cause) }
    }
}

/// The analyzer of any error, which describes it by its message.
#[derive(Debug, Clone, Copy, Default)]
pub struct DefaultErrorAnalyzer;

impl DefaultErrorAnalyzer {
    /// Returns the analysis of an error of the given message.
    pub fn analysis<C>(&self, message: String, error: C) -> (r: ErrorAnalysis<C>)
        ensures
            r.description_spec() == message@,
            r.action_spec() is None,
            r.cause_spec() == Some(error),
    {
        ErrorAnalysis { description: message, action: None, cause: Some(error) }
    }
}

/// The analyzer of a singleton definition that overrides another.
#[derive(Debug, Clone, Copy, Default)]
pub struct SingletonDefinitionOverrideErrorAnalyzer;

impl SingletonDefinitionOverrideErrorAnalyzer {
    /// Returns the analysis of a singleton definition that overrides another.
    pub fn analysis<C>(&self) -> (r: ErrorAnalysis<C>)
        ensures
            r.description_spec() == "Singleton definition override error"@,
            r.action_spec() == Some(SINGLETON_OVERRIDE_ACTION@),
            r.cause_spec() is None,
    {
        ErrorAnalysis::new("Singleton definition override error", Some(SINGLETON_OVERRIDE_ACTION), None)
    }
}

/// The analyzer of a singleton definition that overrides another, as a
/// failure.
#[derive(Debug, Clone, Copy, Default)]
pub struct SingletonDefinitionOverrideFailureAnalyzer;

impl SingletonDefinitionOverrideFailureAnalyzer {
    /// Returns the analysis of a singleton definition that overrides another.
    pub fn analysis<C>(&self) -> (r: FailureAnalysis<C>)
        ensures
            r.description_spec() == "Singleton definition override failure"@,
            r.action_spec() == Some(SINGLETON_OVERRIDE_ACTION@),
            r.cause_spec() is None,
    {
        FailureAnalysis::new("Singleton definition override failure", Some(SINGLETON_OVERRIDE_ACTION), None)
    }
}

/// Returns the first analysis of the analyzers, in their order.
pub fn first_analysis<A>(analyses: Vec<Option<A>>) -> (r: Option<A>)
    ensures
        match r {
            Some(a) => exists|i: int|
                0 <= i < analyses@.len() && analyses@[i] == Some(a) && forall|j: int|
                    0 <= j < i ==> #[trigger] analyses@[j] is None,
            None => forall|i: int| 0 <= i < analyses@.len() ==> #[trigger] analyses@[i] is None,
        },
{
    let ghost all = analyses@;
    let mut rest = analyses;
    let mut i: usize = 0;
    assert(rest@ =~= all.subrange(0, all.len() as int));
    let n: usize = rest.len();
    assert(all.len() == n);
    while rest.len() > 0
        invariant
            all == analyses@,
            all.len() <= usize::MAX,
            i + rest@.len() == all.len(),
            rest@ == all.subrange(i as int, all.len() as int),
            forall|j: int| 0 <= j < i ==> #[trigger] all[j] is None,
        decreases rest.len(),
    {
        let next = rest.remove(0);
        assert(next == all[i as int]);
        match next {
            Some(a) => {
                assert(all[i as int] == Some(a));
                return Some(a);
            },
            None => {},
        }
        assert(rest@ =~= all.subrange(i + 1, all.len() as int));
        i = i + 1;
    }
    None
}

} // verus!
