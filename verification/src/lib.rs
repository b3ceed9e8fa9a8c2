//! Client-side core of a line-oriented real-time push protocol.
//!
//! The crate holds the configuration objects, the subscription registry with
//! its value caches, the wire-codec helpers, and the session status machine
//! of a streaming client.  Network transports and process plumbing live
//! outside the library; everything here is plain data and logic.

use vstd::prelude::*;

pub mod cache;
pub mod client_listener;
pub mod client_message_listener;
pub mod codec;
pub mod connection_details;
pub mod connection_options;
pub mod item_update;
pub mod ls_client;
pub mod message;
pub mod proxy;
pub mod requests;
pub mod subscription;
pub mod subscription_listener;
pub mod util;

verus! {

/// Error returned by validated setters when the supplied value is not
/// admitted.  The failed call leaves the receiver unchanged.
#[derive(Debug)]
pub struct IllegalArgumentException {
    message: String,
}

impl IllegalArgumentException {
    /// The description carried by the error, as a sequence of characters.
    pub closed spec fn spec_message(&self) -> Seq<char> {
        self.message@
    }

    /// Wraps the given description.
    pub fn new(msg: &str) -> (r: IllegalArgumentException)
        ensures
            r.spec_message() == msg@,
    {
        IllegalArgumentException { message: msg.to_owned() }
    }

    /// The description the error was created with.
    pub fn message(&self) -> (r: &String)
        ensures
            r@ == self.spec_message(),
    {
        &self.message
    }
}

/// Error returned when an operation is refused in the object's current
/// lifecycle state (for instance, mutating an active subscription).
#[derive(Debug)]
pub struct IllegalStateException {
    details: String,
}

impl IllegalStateException {
    /// The description carried by the error, as a sequence of characters.
    pub closed spec fn spec_message(&self) -> Seq<char> {
        self.details@
    }

    /// Wraps the given description.
    pub fn new(msg: &str) -> (r: IllegalStateException)
        ensures
            r.spec_message() == msg@,
    {
        IllegalStateException { details: msg.to_owned() }
    }

    /// The description the error was created with.
    pub fn message(&self) -> (r: &String)
        ensures
            r@ == self.spec_message(),
    {
        &self.details
    }
}

} // verus!
