//! Listener interface for the outcome of client-to-server messages.

use vstd::prelude::*;

verus! {

/// Interface to be implemented to listen to the processing outcome of a
/// message sent to the server.  Exactly one of the five events fires per
/// message; every method has a no-op default.
pub trait ClientMessageListener {
    /// Called when a message is aborted before an outcome from the server
    /// was received: the session ended or the message expired first.
    /// `sent_on_network` says whether the bytes had already gone out; if
    /// they had, the server may still have processed the message.
    fn on_abort(&self, msg: &str, sent_on_network: bool) {
    }

    /// Called when the metadata adapter denied the message; `code` is the
    /// denial code (non-positive codes come from the adapter), `error` its
    /// description.
    fn on_deny(&self, msg: &str, code: i32, error: &str) {
    }

    /// Called when the message was discarded by the server because an
    /// earlier message of the same ordering sequence failed.
    fn on_discarded(&self, msg: &str) {
    }

    /// Called when the server could not process the message because of an
    /// internal error.
    fn on_error(&self, msg: &str) {
    }

    /// Called when the server processed the message; `response` carries the
    /// adapter's answer, if one was given.
    fn on_processed(&self, msg: &str, response: Option<&str>) {
    }
}

} // verus!
