//! The reports of the failures of the logging functionality.
//!
//! The writer of the log files runs on the thread the records are written
//! from. A failure of the writer cannot be reported through the logging
//! functionality from that thread, so a [`WarningReporter`] hands the warnings
//! of the writer to a channel that a thread of its own empties, without the
//! writer waiting for anything.

use std::sync::mpsc::{Receiver, SyncSender};

use vstd::prelude::*;

verus! {

/// The number of the warnings that wait for the thread that logs them.
///
/// A warning is dropped rather than waited for when the thread cannot keep
/// up, because the thread that writes the records is never allowed to be
/// blocked.
pub const WARNING_CAPACITY: usize = 64;

/// The name of the thread that logs the reported warnings.
pub const WARNING_THREAD_NAME: &'static str = "next-web-logging-warnings";

/// The sending half of a bounded channel of `std`.
#[verifier::external_type_specification]
#[verifier::external_body]
#[verifier::reject_recursive_types(T)]
pub struct ExSyncSender<T>(SyncSender<T>);

/// The receiving half of a channel of `std`.
#[verifier::external_type_specification]
#[verifier::external_body]
#[verifier::reject_recursive_types(T)]
pub struct ExReceiver<T>(Receiver<T>);

/// Creates a channel that holds at most `capacity` warnings that were not
/// received yet, through `std::sync::mpsc::sync_channel`. Nothing is claimed
/// of the two halves: what they hold depends on the threads that use them.
#[verifier::external_body]
fn warning_channel(capacity: usize) -> (r: (SyncSender<String>, Receiver<String>)) {
    std::sync::mpsc::sync_channel(capacity)
}

/// Adds the warning to the channel without waiting, through
/// `SyncSender::try_send`, which drops it when the channel is full or when no
/// receiver is left; nothing is claimed of which of these happened.
#[verifier::external_body]
fn send_warning(sender: &SyncSender<String>, warning: String) {
    let _ = sender.try_send(warning);
}

/// Reports the warnings of the logging functionality.
///
/// The warnings are handed to the thread of the reporter, which logs them with
/// the level `warn`. A warning that the thread cannot keep up with is dropped,
/// so reporting a warning never blocks the thread that reports it.
#[derive(Debug, Clone)]
pub struct WarningReporter {
    warnings: Option<SyncSender<String>>,
}

impl WarningReporter {
    /// Whether the reporter hands its warnings to a channel; one that does
    /// not drops them.
    pub closed spec fn has_channel(&self) -> bool {
        self.warnings is Some
    }

    /// Creates a reporter that drops the warnings it is given.
    pub fn none() -> (r: Self)
        ensures
            !r.has_channel(),
    {
        WarningReporter { warnings: None }
    }

    /// Creates a reporter and the receiver of the warnings it is given, which
    /// the caller logs. The channel holds at most [`WARNING_CAPACITY`]
    /// warnings that were not received yet.
    pub fn channel() -> (r: (Self, Receiver<String>))
        ensures
            r.0.has_channel(),
    {
        let (sender, receiver) = warning_channel(WARNING_CAPACITY);
        (WarningReporter { warnings: Some(sender) }, receiver)
    }

    /// Reports the given warning.
    ///
    /// The warning is dropped when the reporter has no channel, and when the
    /// thread that logs the warnings cannot keep up, so the thread that
    /// reports it is never blocked.
    ///
    /// Nothing is stated of what the channel holds afterwards: that depends
    /// on how many warnings the receiving thread has taken out meanwhile.
    pub fn report(&self, warning: &str) {
        match &self.warnings {
            Some(sender) => send_warning(sender, warning.to_owned()),
            None => {},
        }
    }
}

impl Default for WarningReporter {
    /// Creates a reporter that drops the warnings it is given.
    fn default() -> (r: Self)
        ensures
            !r.has_channel(),
    {
        WarningReporter::none()
    }
}

} // verus!
