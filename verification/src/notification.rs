//! What the application is told to show.

use vstd::prelude::*;

verus! {

/// Whether a notification reports a success or an error.
#[derive(Clone, Copy, Debug, PartialEq, Eq, Structural)]
pub enum NotificationDesc {
    Success,
    Error,
}

/// A message for the user.
#[derive(Clone, Debug, PartialEq)]
pub struct Notification {
    pub message: String,
    pub desc: NotificationDesc,
}

impl Notification {
    /// A notification with the message `message`.
    pub fn new(desc: NotificationDesc, message: &str) -> (r: Notification)
        ensures
            r.desc == desc,
            r.message@ == message@,
    {
        Notification { message: String::from_str(message), desc }
    }
}

} // verus!
