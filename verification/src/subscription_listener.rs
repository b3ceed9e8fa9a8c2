//! Listener interface for subscription events: lifecycle notifications,
//! item updates, snapshot boundaries and error reports.

use vstd::prelude::*;

use crate::item_update::ItemUpdate;
use crate::subscription::MaxFrequency;

verus! {

/// Interface to be implemented to listen to subscription events.  All the
/// notifications for a single client are dispatched by the same thread, in
/// one total order; every method has a no-op default.
pub trait SubscriptionListener {
    /// Called when the server asks to clear the snapshot of an item: a
    /// COMMAND item becomes empty, or the previous updates of a DISTINCT
    /// item become obsolete.  `item_name` is `None` when the subscription
    /// was initialised with an item group; `item_pos` is 1-based.
    fn on_clear_snapshot(&mut self, item_name: Option<&str>, item_pos: usize) {
    }

    /// Called when the server dropped `lost_updates` consecutive updates for
    /// the second-level item identified by `key`.
    fn on_command_second_level_item_lost_updates(&mut self, lost_updates: u32, key: &str) {
    }

    /// Called when the server reports an error on a second-level
    /// subscription; `key` identifies the second-level item, and
    /// non-positive codes come from the metadata adapter.
    fn on_command_second_level_subscription_error(
        &mut self,
        code: i32,
        message: Option<&str>,
        key: &str,
    ) {
    }

    /// Called when every snapshot event for an item has been received, so
    /// that real-time events follow.  Sent only in DISTINCT and COMMAND
    /// modes when a snapshot was requested.
    fn on_end_of_snapshot(&mut self, item_name: Option<&str>, item_pos: usize) {
    }

    /// Called when the server dropped `lost_updates` consecutive updates for
    /// an item delivered in an unfiltered mode.
    fn on_item_lost_updates(
        &mut self,
        item_name: Option<&str>,
        item_pos: usize,
        lost_updates: u32,
    ) {
    }

    /// Called each time an update for an item in the subscription arrives.
    fn on_item_update(&mut self, update: &ItemUpdate) {
    }

    /// Called when the listener is removed from a subscription.  This is the
    /// last event to be fired on the listener.
    fn on_listen_end(&mut self) {
    }

    /// Called when the listener is added to a subscription.  This is the
    /// first event to be fired on the listener.
    fn on_listen_start(&mut self) {
    }

    /// Called with the maximum update frequency the server really applies to
    /// the subscription; `None` when the frequency can no longer be
    /// determined.
    fn on_real_max_frequency(&mut self, frequency: Option<MaxFrequency>) {
    }

    /// Called when the subscription has been successfully activated on the
    /// server.  It precedes every other event of the same subscription round
    /// and invalidates all data received previously.
    fn on_subscription(&mut self) {
    }

    /// Called when the server refuses the subscription; non-positive codes
    /// come from the metadata adapter.  The subscription goes back to
    /// inactive and must be submitted again.
    fn on_subscription_error(&mut self, code: i32, message: Option<&str>) {
    }

    /// Called when the subscription has been successfully closed on the
    /// server.  No further event arrives until a new `on_subscription`.
    fn on_unsubscription(&mut self) {
    }
}

} // verus!
