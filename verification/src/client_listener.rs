//! Listener interface for client-level events: connection status changes,
//! server errors and configuration property changes.

use vstd::prelude::*;

verus! {

/// Interface to be implemented to listen to client events: notifications of
/// connection activity, server errors and property changes.
///
/// All the notifications for a single client, including those to
/// `SubscriptionListener` and `ClientMessageListener` instances, are
/// dispatched by the same thread, so a listener observes them in one total
/// order.  Every method has a no-op default, so an implementer overrides only
/// the events it cares about.
pub trait ClientListener {
    /// Called when the listener is removed from a client.  This is the last
    /// event to be fired on the listener.
    fn on_listen_end(&self) {
    }

    /// Called when the listener is added to a client.  This is the first
    /// event to be fired on the listener.
    fn on_listen_start(&self) {
    }

    /// Called each time the value of a property of the client's connection
    /// details or connection options is changed; `property` is the name of
    /// the changed property, such as `adapterSet` or `serverAddress`.
    fn on_property_change(&self, property: &str) {
    }

    /// Called when the server refuses a new connection or interrupts the
    /// session; the status has already moved to `DISCONNECTED` and no
    /// automatic retry is performed.  `code` is the server's error code
    /// (non-positive codes come from the metadata adapter), `message` its
    /// description.
    fn on_server_error(&self, code: i32, message: &str) {
    }

    /// Called each time the client status changes; `status` is one of the
    /// ten documented status strings, such as `CONNECTING` or
    /// `CONNECTED:WS-STREAMING`.
    fn on_status_change(&self, status: &str) {
    }
}

} // verus!
