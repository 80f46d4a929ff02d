//! Desktop notifications for messages from other users. This build targets
//! terminals without a notification service, where the call does nothing.

use vstd::prelude::*;

verus! {

/// Notifies the desktop of `message` from `username`; does nothing here.
pub fn send_notification(_username: &str, _message: &str) {
}

} // verus!
