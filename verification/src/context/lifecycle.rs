//! The lifecycle of an application context: a context starts out inactive,
//! is refreshed once, and is closed for good.

use vstd::prelude::*;

use crate::text::join3;

verus! {

broadcast use vstd::string::group_string_axioms;

/// The message of a refresh of a context that has been closed.
pub const REFRESH_CLOSED_MESSAGE: &'static str = "cannot refresh an application context that has been closed";

/// The message of a second refresh of a context.
pub const ALREADY_REFRESHED_MESSAGE: &'static str = "the application context has already been refreshed";

/// The message of an access to the singletons of a closed context.
pub const CLOSED_MESSAGE: &'static str = "the application context has been closed";

/// An error of the lifecycle of an application context.
#[derive(Debug)]
pub enum ContextError {
    /// The operation is not allowed in the state the context is in.
    IllegalState(String),
}

impl ContextError {
    /// The message of the error.
    pub open spec fn message_spec(&self) -> Seq<char> {
        match self {
            ContextError::IllegalState(m) => m@,
        }
    }

    /// Returns the message of the error.
    pub fn to_string(&self) -> (r: String)
        ensures
            r@ == self.message_spec(),
    {
        match self {
            ContextError::IllegalState(m) => m.clone(),
        }
    }
}

/// The message of an operation on a context that is not active.
pub open spec fn not_active_message_spec(operation: Seq<char>) -> Seq<char> {
    "cannot "@ + operation + " an application context that is not active"@
}

/// Whether an application context has been refreshed, and whether it has
/// been closed.
#[derive(Debug, Clone, Copy, PartialEq, Eq, Structural)]
pub struct ContextLifecycle {
    active: bool,
    closed: bool,
}

/// The state after a refresh, when the refresh is allowed: a context is
/// refreshed once, and never after it was closed.
pub open spec fn after_refresh_spec(state: ContextLifecycle) -> Option<ContextLifecycle> {
    if state.closed_spec() || state.is_active_spec() {
        None
    } else {
        Some(ContextLifecycle::state_spec(true, false))
    }
}

/// The state after a close: closing a closed context changes nothing.
pub open spec fn after_close_spec(state: ContextLifecycle) -> ContextLifecycle {
    ContextLifecycle::state_spec(false, true)
}

impl ContextLifecycle {
    /// The state of the given flags.
    pub closed spec fn state_spec(active: bool, closed: bool) -> ContextLifecycle {
        ContextLifecycle { active, closed }
    }

    /// Whether the context was refreshed and is not closed.
    pub closed spec fn is_active_spec(&self) -> bool {
        !self.closed && self.active
    }

    /// Whether the context was closed.
    pub closed spec fn closed_spec(&self) -> bool {
        self.closed
    }

    /// A closed context is never active.
    pub proof fn lemma_closed_is_inactive(&self)
        ensures
            self.closed_spec() ==> !self.is_active_spec(),
    {
    }

    /// The flags of a state are those it was made of.
    pub broadcast proof fn lemma_state(active: bool, closed: bool)
        ensures
            #[trigger] Self::state_spec(active, closed).closed_spec() == closed,
            Self::state_spec(active, closed).is_active_spec() == (!closed && active),
    {
    }

    /// Creates the state of a context that has not been refreshed yet.
    pub fn new() -> (r: Self)
        ensures
            r == Self::state_spec(false, false),
            !r.is_active_spec(),
            !r.closed_spec(),
    {
        ContextLifecycle { active: false, closed: false }
    }

    /// Returns whether the context was refreshed and is not closed.
    pub fn is_active(&self) -> (r: bool)
        ensures
            r == self.is_active_spec(),
    {
        !self.closed && self.active
    }

    /// Returns whether the context was closed.
    pub fn is_closed(&self) -> (r: bool)
        ensures
            r == self.closed_spec(),
    {
        self.closed
    }

    /// Activates the context: it fails on a context that has been closed,
    /// and on one that has already been refreshed, which is left unchanged.
    pub fn refresh(&mut self) -> (r: Result<(), ContextError>)
        ensures
            match r {
                Ok(()) => after_refresh_spec(*old(self)) == Some(*final(self)),
                Err(e) => after_refresh_spec(*old(self)) is None && *final(self) == *old(self)
                    && e.message_spec() == if old(self).closed_spec() {
                    REFRESH_CLOSED_MESSAGE@
                } else {
                    ALREADY_REFRESHED_MESSAGE@
                },
            },
    {
        if self.closed {
            return Err(ContextError::IllegalState(REFRESH_CLOSED_MESSAGE.to_owned()));
        }
        if self.active {
            return Err(ContextError::IllegalState(ALREADY_REFRESHED_MESSAGE.to_owned()));
        }
        self.active = true;
        self.closed = false;
        Ok(())
    }

    /// Returns `Ok` while the context is active; the operation names what
    /// was attempted in the error.
    pub fn check_active(&self, operation: &str) -> (r: Result<(), ContextError>)
        ensures
            match r {
                Ok(()) => self.is_active_spec(),
                Err(e) => !self.is_active_spec() && e.message_spec() == not_active_message_spec(
                    operation@,
                ),
            },
    {
        if self.is_active() {
            Ok(())
        } else {
            let message = join3("cannot ", operation, " an application context that is not active");
            Err(ContextError::IllegalState(message))
        }
    }

    /// Restarts the context, which is only allowed while it is active.
    pub fn restart(&self) -> (r: Result<(), ContextError>)
        ensures
            match r {
                Ok(()) => self.is_active_spec(),
                Err(e) => !self.is_active_spec() && e.message_spec() == not_active_message_spec(
                    "restart"@,
                ),
            },
    {
        self.check_active("restart")
    }

    /// Pauses the context, which is only allowed while it is active.
    pub fn pause(&self) -> (r: Result<(), ContextError>)
        ensures
            match r {
                Ok(()) => self.is_active_spec(),
                Err(e) => !self.is_active_spec() && e.message_spec() == not_active_message_spec(
                    "pause"@,
                ),
            },
    {
        self.check_active("pause")
    }

    /// Closes the context for good; returns whether it was open, in which
    /// case its singletons and listeners are released.
    pub fn close(&mut self) -> (released: bool)
        ensures
            released == !old(self).closed_spec(),
            final(self).closed_spec(),
            !final(self).is_active_spec(),
            *final(self) == if released {
                after_close_spec(*old(self))
            } else {
                *old(self)
            },
    {
        if self.closed {
            return false;
        }
        self.active = false;
        self.closed = true;
        true
    }

    /// Marks the context as closed, as the shutdown hook does, without
    /// releasing anything.
    pub fn mark_closed(&mut self)
        ensures
            *final(self) == after_close_spec(*old(self)),
            final(self).closed_spec(),
            !final(self).is_active_spec(),
    {
        self.active = false;
        self.closed = true;
    }

    /// Returns `Ok` while the singletons of the context may be accessed:
    /// from its creation until it is closed.
    pub fn check_not_closed(&self) -> (r: Result<(), ContextError>)
        ensures
            match r {
                Ok(()) => !self.closed_spec(),
                Err(e) => self.closed_spec() && e.message_spec() == CLOSED_MESSAGE@,
            },
    {
        if self.closed {
            Err(ContextError::IllegalState(CLOSED_MESSAGE.to_owned()))
        } else {
            Ok(())
        }
    }
}

impl Default for ContextLifecycle {
    /// The state of a context that has not been refreshed yet.
    fn default() -> (r: Self)
        ensures
            r == Self::state_spec(false, false),
    {
        Self::new()
    }
}

/// A context is refreshed at most once: a context that a refresh activated
/// refuses a second refresh.
pub proof fn lemma_refresh_at_most_once(state: ContextLifecycle)
    requires
        after_refresh_spec(state) is Some,
    ensures
        after_refresh_spec(after_refresh_spec(state).unwrap()) is None,
        after_refresh_spec(state).unwrap().is_active_spec(),
{
    broadcast use ContextLifecycle::lemma_state;
}

/// A closed context is never refreshed again, and closing it a second time
/// changes nothing.
pub proof fn lemma_closed_for_good(state: ContextLifecycle)
    ensures
        after_refresh_spec(after_close_spec(state)) is None,
        after_close_spec(after_close_spec(state)) == after_close_spec(state),
        !after_close_spec(state).is_active_spec(),
{
    broadcast use ContextLifecycle::lemma_state;
}

} // verus!
