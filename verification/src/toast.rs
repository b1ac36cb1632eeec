//! Desktop notifications where there is no desktop service: they go to the log.

use crate::text::cat;
use vstd::prelude::*;
use vstd::string::*;

verus! {

/// A notification.
#[derive(Debug, PartialEq)]
pub struct ToastNotification {
    pub title: String,
    pub message: String,
}

/// The line of the log that shows a notification.
pub fn show_notif(notif: &ToastNotification) -> (r: String)
    ensures
        r@ == "[toast] "@ + notif.title@ + ": "@ + notif.message@,
{
    let mut line = cat("[toast] ", notif.title.as_str());
    line.append(": ");
    line.append(notif.message.as_str());
    line
}

} // verus!
