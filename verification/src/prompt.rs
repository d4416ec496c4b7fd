//! Asking the user: the kinds of notifications, and the terminal prompt.

use vstd::prelude::*;

verus! {

/// How serious a notification is.
#[derive(Debug, Clone, Copy, PartialEq, Eq, Structural)]
pub enum NotificationCategory {
    Info,
    Warning,
    Error,
}

impl Default for NotificationCategory {
    fn default() -> (r: Self)
        ensures
            r == NotificationCategory::Info,
    {
        NotificationCategory::Info
    }
}

/// Prompts on the terminal, reading answers from standard input.
pub struct TtyPrompt;

} // verus!
