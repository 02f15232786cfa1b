//! Operator notifications.
use vstd::prelude::*;

verus! {

/// Sends operator notifications; for now it sends none.
#[derive(Debug, Clone, Copy)]
pub struct Notifier;

impl Notifier {
    /// A notifier.
    pub fn new() -> (r: Self) {
        Notifier
    }

    /// Notifies the operator of `title` with `message`; for now nothing is
    /// sent.
    pub fn notify(&self, title: &str, message: &str) {
    }
}

impl Default for Notifier {
    fn default() -> (r: Self) {
        Notifier::new()
    }
}

} // verus!
