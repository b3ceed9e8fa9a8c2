//! Policy knobs of a client connection: timeouts, transport forcing,
//! bandwidth limits and polling behaviour, with validated setters.

use vstd::prelude::*;

use std::collections::HashMap;

use crate::ls_client::Transport;
use crate::proxy::Proxy;
use crate::IllegalArgumentException;

verus! {

/// A bandwidth limit requested of or applied by the server, in kilobits per
/// second.  `Kbps(n)` carries the limit in thousandths of a kilobit per
/// second, so `Kbps(10500)` stands for 10.5 kbps; `Unlimited` leaves the
/// limit to the server.
#[derive(Clone, Copy, Debug, PartialEq, Eq, Structural)]
pub enum BandwidthLimit {
    /// No client-side limit: the server decides.
    Unlimited,
    /// A limit in thousandths of a kilobit per second.
    Kbps(u64),
}

/// The mathematical content of a `ConnectionOptions` value: every knob as a
/// plain value.
pub struct ConnectionOptionsView {
    pub content_length: Option<u64>,
    pub first_retry_max_delay: u64,
    pub forced_transport: Option<Transport>,
    pub http_extra_headers: Option<Map<String, String>>,
    pub http_extra_headers_on_session_creation_only: bool,
    pub idle_timeout: u64,
    pub keepalive_interval: u64,
    pub polling_interval: u64,
    pub proxy: Option<Proxy>,
    pub real_max_bandwidth: Option<BandwidthLimit>,
    pub reconnect_timeout: u64,
    pub requested_max_bandwidth: Option<BandwidthLimit>,
    pub retry_delay: u64,
    pub reverse_heartbeat_interval: u64,
    pub server_instance_address_ignored: bool,
    pub session_recovery_timeout: u64,
    pub slowing_enabled: bool,
    pub stalled_timeout: u64,
    pub send_sync: bool,
    pub reduce_head: bool,
    pub supported_diffs: Option<Seq<char>>,
    pub polling: bool,
    pub ttl_millis: Option<u64>,
}

/// The contents of an optional header map, as a mathematical map.
pub open spec fn headers_view(h: &Option<HashMap<String, String>>) -> Option<
    Map<String, String>,
> {
    match h {
        Some(m) => Some(m@),
        None => None,
    }
}

/// Policy settings used to connect to the server.  Every validated setter
/// either stores the supplied value, or returns an error and leaves the
/// whole object unchanged.
#[derive(Debug)]
pub struct ConnectionOptions {
    content_length: Option<u64>,
    first_retry_max_delay: u64,
    forced_transport: Option<Transport>,
    http_extra_headers: Option<HashMap<String, String>>,
    http_extra_headers_on_session_creation_only: bool,
    idle_timeout: u64,
    keepalive_interval: u64,
    polling_interval: u64,
    proxy: Option<Proxy>,
    real_max_bandwidth: Option<BandwidthLimit>,
    reconnect_timeout: u64,
    requested_max_bandwidth: Option<BandwidthLimit>,
    retry_delay: u64,
    reverse_heartbeat_interval: u64,
    server_instance_address_ignored: bool,
    session_recovery_timeout: u64,
    slowing_enabled: bool,
    stalled_timeout: u64,
    send_sync: bool,
    reduce_head: bool,
    supported_diffs: Option<String>,
    polling: bool,
    ttl_millis: Option<u64>,
}

impl View for ConnectionOptions {
    type V = ConnectionOptionsView;

    closed spec fn view(&self) -> ConnectionOptionsView {
        ConnectionOptionsView {
            content_length: self.content_length,
            first_retry_max_delay: self.first_retry_max_delay,
            forced_transport: self.forced_transport,
            http_extra_headers: headers_view(&self.http_extra_headers),
            http_extra_headers_on_session_creation_only:
                self.http_extra_headers_on_session_creation_only,
            idle_timeout: self.idle_timeout,
            keepalive_interval: self.keepalive_interval,
            polling_interval: self.polling_interval,
            proxy: self.proxy,
            real_max_bandwidth: self.real_max_bandwidth,
            reconnect_timeout: self.reconnect_timeout,
            requested_max_bandwidth: self.requested_max_bandwidth,
            retry_delay: self.retry_delay,
            reverse_heartbeat_interval: self.reverse_heartbeat_interval,
            server_instance_address_ignored: self.server_instance_address_ignored,
            session_recovery_timeout: self.session_recovery_timeout,
            slowing_enabled: self.slowing_enabled,
            stalled_timeout: self.stalled_timeout,
            send_sync: self.send_sync,
            reduce_head: self.reduce_head,
            supported_diffs: match &self.supported_diffs {
                Some(s) => Some(s@),
                None => None,
            },
            polling: self.polling,
            ttl_millis: self.ttl_millis,
        }
    }
}

/// The defaults a fresh `ConnectionOptions` starts from.
pub open spec fn default_options_view() -> ConnectionOptionsView {
    ConnectionOptionsView {
        content_length: None,
        first_retry_max_delay: 100,
        forced_transport: None,
        http_extra_headers: None,
        http_extra_headers_on_session_creation_only: false,
        idle_timeout: 19000,
        keepalive_interval: 0,
        polling_interval: 0,
        proxy: None,
        real_max_bandwidth: None,
        reconnect_timeout: 3000,
        requested_max_bandwidth: None,
        retry_delay: 4000,
        reverse_heartbeat_interval: 0,
        server_instance_address_ignored: false,
        session_recovery_timeout: 15000,
        slowing_enabled: false,
        stalled_timeout: 2000,
        send_sync: true,
        reduce_head: false,
        supported_diffs: None,
        polling: false,
        ttl_millis: None,
    }
}

impl ConnectionOptions {
    /// Creates a new set of options with the documented defaults:
    /// `first_retry_max_delay` 100, `idle_timeout` 19000,
    /// `reconnect_timeout` 3000, `retry_delay` 4000,
    /// `session_recovery_timeout` 15000, `stalled_timeout` 2000,
    /// `slowing_enabled` false, `send_sync` true.
    pub fn new() -> (r: ConnectionOptions)
        ensures
            r@ == default_options_view(),
    {
        ConnectionOptions {
            content_length: None,
            first_retry_max_delay: 100,
            forced_transport: None,
            http_extra_headers: None,
            http_extra_headers_on_session_creation_only: false,
            idle_timeout: 19000,
            keepalive_interval: 0,
            polling_interval: 0,
            proxy: None,
            real_max_bandwidth: None,
            reconnect_timeout: 3000,
            requested_max_bandwidth: None,
            retry_delay: 4000,
            reverse_heartbeat_interval: 0,
            server_instance_address_ignored: false,
            session_recovery_timeout: 15000,
            slowing_enabled: false,
            stalled_timeout: 2000,
            send_sync: true,
            reduce_head: false,
            supported_diffs: None,
            polling: false,
            ttl_millis: None,
        }
    }

    /// The length in bytes the server should use for the response body of an
    /// HTTP streaming connection, if one was requested.
    pub fn get_content_length(&self) -> (r: Option<u64>)
        ensures
            r == self@.content_length,
    {
        self.content_length
    }

    /// The maximum time, in milliseconds, to wait before trying a new
    /// connection after the previous one closed unexpectedly while working.
    pub fn get_first_retry_max_delay(&self) -> (r: u64)
        ensures
            r == self@.first_retry_max_delay,
    {
        self.first_retry_max_delay
    }

    /// The forced transport, if any.
    pub fn get_forced_transport(&self) -> (r: Option<&Transport>)
        ensures
            r is Some <==> self@.forced_transport is Some,
            r is Some ==> *r.unwrap() == self@.forced_transport.unwrap(),
    {
        self.forced_transport.as_ref()
    }

    /// The extra headers sent to the server, if any were configured.
    pub fn get_http_extra_headers(&self) -> (r: Option<&HashMap<String, String>>)
        ensures
            r is Some <==> self@.http_extra_headers is Some,
            r is Some ==> r.unwrap()@ == self@.http_extra_headers.unwrap(),
    {
        self.http_extra_headers.as_ref()
    }

    /// The maximum time, in milliseconds, the server may wait for data
    /// before answering a polling request.
    pub fn get_idle_timeout(&self) -> (r: u64)
        ensures
            r == self@.idle_timeout,
    {
        self.idle_timeout
    }

    /// The interval, in milliseconds, between two keepalive packets on a
    /// stream connection, or 0 when the server decides it.
    pub fn get_keepalive_interval(&self) -> (r: u64)
        ensures
            r == self@.keepalive_interval,
    {
        self.keepalive_interval
    }

    /// The time, in milliseconds, between subsequent polling requests.
    pub fn get_polling_interval(&self) -> (r: u64)
        ensures
            r == self@.polling_interval,
    {
        self.polling_interval
    }

    /// The maximum bandwidth the server really applied to this session, as
    /// it last notified it, or `None` while no session is active.  The
    /// session engine fills this in; it may differ from the requested limit.
    pub fn get_real_max_bandwidth(&self) -> (r: Option<BandwidthLimit>)
        ensures
            r == self@.real_max_bandwidth,
    {
        self.real_max_bandwidth
    }

    /// The time, in milliseconds, the client may stay in `STALLED` status
    /// before giving the connection up and reconnecting.
    pub fn get_reconnect_timeout(&self) -> (r: u64)
        ensures
            r == self@.reconnect_timeout,
    {
        self.reconnect_timeout
    }

    /// The maximum bandwidth requested for this session, if any.
    pub fn get_requested_max_bandwidth(&self) -> (r: Option<BandwidthLimit>)
        ensures
            r == self@.requested_max_bandwidth,
    {
        self.requested_max_bandwidth
    }

    /// The minimum time, in milliseconds, between a failed connection
    /// attempt and the next one.
    pub fn get_retry_delay(&self) -> (r: u64)
        ensures
            r == self@.retry_delay,
    {
        self.retry_delay
    }

    /// The reverse-heartbeat interval in milliseconds, or 0 when the
    /// mechanism is disabled.
    pub fn get_reverse_heartbeat_interval(&self) -> (r: u64)
        ensures
            r == self@.reverse_heartbeat_interval,
    {
        self.reverse_heartbeat_interval
    }

    /// Whether the server is asked to send `SYNC` notifications on this
    /// connection.
    pub fn get_send_sync(&self) -> (r: bool)
        ensures
            r == self@.send_sync,
    {
        self.send_sync
    }

    /// The maximum time, in milliseconds, allowed for attempts to recover
    /// the current session, or 0 when recovery is disabled.
    pub fn get_session_recovery_timeout(&self) -> (r: u64)
        ensures
            r == self@.session_recovery_timeout,
    {
        self.session_recovery_timeout
    }

    /// The extra time, in milliseconds, the client waits for a missing
    /// keepalive before entering the `STALLED` status.
    pub fn get_stalled_timeout(&self) -> (r: u64)
        ensures
            r == self@.stalled_timeout,
    {
        self.stalled_timeout
    }

    /// Whether the extra HTTP headers are restricted to the session-creation
    /// request.
    pub fn is_http_extra_headers_on_session_creation_only(&self) -> (r: bool)
        ensures
            r == self@.http_extra_headers_on_session_creation_only,
    {
        self.http_extra_headers_on_session_creation_only
    }

    /// Whether the server instance address possibly sent by the server is
    /// ignored.
    pub fn is_server_instance_address_ignored(&self) -> (r: bool)
        ensures
            r == self@.server_instance_address_ignored,
    {
        self.server_instance_address_ignored
    }

    /// Whether the slowing algorithm is enabled.
    pub fn is_slowing_enabled(&self) -> (r: bool)
        ensures
            r == self@.slowing_enabled,
    {
        self.slowing_enabled
    }

    /// Sets the response-body length for HTTP streaming connections.  Zero
    /// is refused and changes nothing.
    pub fn set_content_length(&mut self, content_length: u64) -> (r: Result<
        (),
        IllegalArgumentException,
    >)
        ensures
            r is Ok <==> content_length != 0,
            r is Ok ==> final(self)@ == (ConnectionOptionsView {
                content_length: Some(content_length),
                ..old(self)@
            }),
            r is Err ==> final(self)@ == old(self)@,
    {
        if content_length == 0 {
            return Err(IllegalArgumentException::new("Content length cannot be zero"));
        }
        self.content_length = Some(content_length);
        Ok(())
    }

    /// Sets the maximum time to wait before the first reconnection attempt
    /// after an unexpected drop.  Zero is refused and changes nothing.
    pub fn set_first_retry_max_delay(&mut self, first_retry_max_delay: u64) -> (r: Result<
        (),
        IllegalArgumentException,
    >)
        ensures
            r is Ok <==> first_retry_max_delay != 0,
            r is Ok ==> final(self)@ == (ConnectionOptionsView {
                first_retry_max_delay: first_retry_max_delay,
                ..old(self)@
            }),
            r is Err ==> final(self)@ == old(self)@,
    {
        if first_retry_max_delay == 0 {
            return Err(IllegalArgumentException::new("First retry max delay cannot be zero"));
        }
        self.first_retry_max_delay = first_retry_max_delay;
        Ok(())
    }

    /// Forces a transport, or a family of transports, disabling or
    /// restricting the stream-sense algorithm; `None` restores full
    /// stream-sense.
    pub fn set_forced_transport(&mut self, forced_transport: Option<Transport>)
        ensures
            final(self)@ == (ConnectionOptionsView {
                forced_transport: forced_transport,
                ..old(self)@
            }),
    {
        self.forced_transport = forced_transport;
    }

    /// Replaces the extra HTTP headers sent to the server; `None` sends no
    /// extra headers.
    pub fn set_http_extra_headers(&mut self, http_extra_headers: Option<HashMap<String, String>>)
        ensures
            final(self)@ == (ConnectionOptionsView {
                http_extra_headers: headers_view(&http_extra_headers),
                ..old(self)@
            }),
    {
        self.http_extra_headers = http_extra_headers;
    }

    /// Restricts, or lifts the restriction of, the extra HTTP headers to the
    /// session-creation request only.
    pub fn set_http_extra_headers_on_session_creation_only(
        &mut self,
        http_extra_headers_on_session_creation_only: bool,
    )
        ensures
            final(self)@ == (ConnectionOptionsView {
                http_extra_headers_on_session_creation_only:
                    http_extra_headers_on_session_creation_only,
                ..old(self)@
            }),
    {
        self.http_extra_headers_on_session_creation_only =
            http_extra_headers_on_session_creation_only;
    }

    /// Sets the maximum time the server may wait before answering a polling
    /// request.  Zero is refused and changes nothing.
    pub fn set_idle_timeout(&mut self, idle_timeout: u64) -> (r: Result<
        (),
        IllegalArgumentException,
    >)
        ensures
            r is Ok <==> idle_timeout != 0,
            r is Ok ==> final(self)@ == (ConnectionOptionsView {
                idle_timeout: idle_timeout,
                ..old(self)@
            }),
            r is Err ==> final(self)@ == old(self)@,
    {
        if idle_timeout == 0 {
            return Err(IllegalArgumentException::new("Idle timeout cannot be zero"));
        }
        self.idle_timeout = idle_timeout;
        Ok(())
    }

    /// Sets the keepalive interval requested of the server.  Zero leaves the
    /// interval to the server; a non-zero value is refused, and changes
    /// nothing, unless it stands strictly above the stalled timeout and at
    /// or above the reconnect timeout.
    pub fn set_keepalive_interval(&mut self, keepalive_interval: u64) -> (r: Result<
        (),
        IllegalArgumentException,
    >)
        ensures
            r is Ok <==> (keepalive_interval == 0 || (keepalive_interval
                > old(self)@.stalled_timeout && keepalive_interval
                >= old(self)@.reconnect_timeout)),
            r is Ok ==> final(self)@ == (ConnectionOptionsView {
                keepalive_interval: keepalive_interval,
                ..old(self)@
            }),
            r is Err ==> final(self)@ == old(self)@,
    {
        if keepalive_interval == 0 {
            self.keepalive_interval = keepalive_interval;
            return Ok(());
        }
        if keepalive_interval <= self.stalled_timeout || keepalive_interval
            < self.reconnect_timeout {
            return Err(
                IllegalArgumentException::new(
                    "Keepalive interval should be greater than the stalled timeout and at least the reconnect timeout",
                ),
            );
        }
        self.keepalive_interval = keepalive_interval;
        Ok(())
    }

    /// Sets the polling interval.  Zero configures asynchronous polling; a
    /// non-zero value below the idle timeout is refused and changes nothing.
    pub fn set_polling_interval(&mut self, polling_interval: u64) -> (r: Result<
        (),
        IllegalArgumentException,
    >)
        ensures
            r is Ok <==> (polling_interval == 0 || polling_interval >= old(self)@.idle_timeout),
            r is Ok ==> final(self)@ == (ConnectionOptionsView {
                polling_interval: polling_interval,
                ..old(self)@
            }),
            r is Err ==> final(self)@ == old(self)@,
    {
        if polling_interval == 0 {
            self.polling_interval = polling_interval;
            return Ok(());
        }
        if polling_interval < self.idle_timeout {
            return Err(
                IllegalArgumentException::new(
                    "Polling interval should be greater than or equal to idle timeout",
                ),
            );
        }
        self.polling_interval = polling_interval;
        Ok(())
    }

    /// Configures a proxy to reach the server through; `None` connects
    /// directly.
    pub fn set_proxy(&mut self, proxy: Option<Proxy>)
        ensures
            final(self)@ == (ConnectionOptionsView { proxy: proxy, ..old(self)@ }),
    {
        self.proxy = proxy;
    }

    /// Sets the time allowed in `STALLED` status before reconnecting.  Zero
    /// and any value at or below the stalled timeout are refused and change
    /// nothing, so the stalled timeout always stays strictly below it.
    pub fn set_reconnect_timeout(&mut self, reconnect_timeout: u64) -> (r: Result<
        (),
        IllegalArgumentException,
    >)
        ensures
            r is Ok <==> reconnect_timeout > old(self)@.stalled_timeout,
            r is Ok ==> final(self)@ == (ConnectionOptionsView {
                reconnect_timeout: reconnect_timeout,
                ..old(self)@
            }),
            r is Err ==> final(self)@ == old(self)@,
    {
        if reconnect_timeout <= self.stalled_timeout {
            return Err(
                IllegalArgumentException::new(
                    "Reconnect timeout should be greater than the stalled timeout",
                ),
            );
        }
        self.reconnect_timeout = reconnect_timeout;
        Ok(())
    }

    /// Requests a maximum bandwidth for the data coming from the server.  A
    /// limit of zero is refused and changes nothing; `Unlimited` and `None`
    /// leave the limit to the server.
    pub fn set_requested_max_bandwidth(&mut self, max_bandwidth: Option<BandwidthLimit>) -> (r:
        Result<(), IllegalArgumentException>)
        ensures
            r is Ok <==> max_bandwidth != Some(BandwidthLimit::Kbps(0u64)),
            r is Ok ==> final(self)@ == (ConnectionOptionsView {
                requested_max_bandwidth: max_bandwidth,
                ..old(self)@
            }),
            r is Err ==> final(self)@ == old(self)@,
    {
        if let Some(BandwidthLimit::Kbps(kbps)) = &max_bandwidth {
            if *kbps == 0 {
                return Err(
                    IllegalArgumentException::new(
                        "Maximum bandwidth should be a positive number or 'unlimited'",
                    ),
                );
            }
        }
        self.requested_max_bandwidth = max_bandwidth;
        Ok(())
    }

    /// Sets the minimum time between a failed connection attempt and the
    /// next one.  Zero is refused and changes nothing.
    pub fn set_retry_delay(&mut self, retry_delay: u64) -> (r: Result<
        (),
        IllegalArgumentException,
    >)
        ensures
            r is Ok <==> retry_delay != 0,
            r is Ok ==> final(self)@ == (ConnectionOptionsView {
                retry_delay: retry_delay,
                ..old(self)@
            }),
            r is Err ==> final(self)@ == old(self)@,
    {
        if retry_delay == 0 {
            return Err(IllegalArgumentException::new("Retry delay cannot be zero"));
        }
        self.retry_delay = retry_delay;
        Ok(())
    }

    /// Sets the reverse-heartbeat interval.  Zero disables the mechanism; a
    /// non-zero value below the retry delay is refused and changes nothing.
    pub fn set_reverse_heartbeat_interval(&mut self, reverse_heartbeat_interval: u64) -> (r:
        Result<(), IllegalArgumentException>)
        ensures
            r is Ok <==> (reverse_heartbeat_interval == 0 || reverse_heartbeat_interval >= old(
                self,
            )@.retry_delay),
            r is Ok ==> final(self)@ == (ConnectionOptionsView {
                reverse_heartbeat_interval: reverse_heartbeat_interval,
                ..old(self)@
            }),
            r is Err ==> final(self)@ == old(self)@,
    {
        if reverse_heartbeat_interval == 0 {
            self.reverse_heartbeat_interval = reverse_heartbeat_interval;
            return Ok(());
        }
        if reverse_heartbeat_interval < self.retry_delay {
            return Err(
                IllegalArgumentException::new(
                    "Reverse heartbeat interval should be greater than or equal to retry delay",
                ),
            );
        }
        self.reverse_heartbeat_interval = reverse_heartbeat_interval;
        Ok(())
    }

    /// Ignores, or honours again, the server instance address a cluster may
    /// send at session creation.
    pub fn set_server_instance_address_ignored(&mut self, server_instance_address_ignored: bool)
        ensures
            final(self)@ == (ConnectionOptionsView {
                server_instance_address_ignored: server_instance_address_ignored,
                ..old(self)@
            }),
    {
        self.server_instance_address_ignored = server_instance_address_ignored;
    }

    /// Sets the maximum time allowed for recovery of the current session.
    /// Zero disables recovery; a non-zero value below the retry delay is
    /// refused and changes nothing.
    pub fn set_session_recovery_timeout(&mut self, session_recovery_timeout: u64) -> (r: Result<
        (),
        IllegalArgumentException,
    >)
        ensures
            r is Ok <==> (session_recovery_timeout == 0 || session_recovery_timeout >= old(
                self,
            )@.retry_delay),
            r is Ok ==> final(self)@ == (ConnectionOptionsView {
                session_recovery_timeout: session_recovery_timeout,
                ..old(self)@
            }),
            r is Err ==> final(self)@ == old(self)@,
    {
        if session_recovery_timeout == 0 {
            self.session_recovery_timeout = session_recovery_timeout;
            return Ok(());
        }
        if session_recovery_timeout < self.retry_delay {
            return Err(
                IllegalArgumentException::new(
                    "Session recovery timeout should be greater than or equal to retry delay",
                ),
            );
        }
        self.session_recovery_timeout = session_recovery_timeout;
        Ok(())
    }

    /// Turns the slowing algorithm on or off.
    pub fn set_slowing_enabled(&mut self, slowing_enabled: bool)
        ensures
            final(self)@ == (ConnectionOptionsView {
                slowing_enabled: slowing_enabled,
                ..old(self)@
            }),
    {
        self.slowing_enabled = slowing_enabled;
    }

    /// Sets the extra wait for a missing keepalive before entering the
    /// `STALLED` status.  Zero, a value at or above the keepalive interval,
    /// or a value at or above the reconnect timeout is refused and changes
    /// nothing.
    pub fn set_stalled_timeout(&mut self, stalled_timeout: u64) -> (r: Result<
        (),
        IllegalArgumentException,
    >)
        ensures
            r is Ok <==> (stalled_timeout != 0 && stalled_timeout < old(self)@.keepalive_interval
                && stalled_timeout < old(self)@.reconnect_timeout),
            r is Ok ==> final(self)@ == (ConnectionOptionsView {
                stalled_timeout: stalled_timeout,
                ..old(self)@
            }),
            r is Err ==> final(self)@ == old(self)@,
    {
        if stalled_timeout == 0 {
            return Err(IllegalArgumentException::new("Stalled timeout cannot be zero"));
        }
        if stalled_timeout >= self.keepalive_interval {
            return Err(
                IllegalArgumentException::new(
                    "Stalled timeout should be less than keepalive interval",
                ),
            );
        }
        if stalled_timeout >= self.reconnect_timeout {
            return Err(
                IllegalArgumentException::new(
                    "Stalled timeout should be less than reconnect timeout",
                ),
            );
        }
        self.stalled_timeout = stalled_timeout;
        Ok(())
    }

    /// Records the keepalive interval the server imposed at session
    /// creation; written by the session engine only.
    pub(crate) fn note_keepalive_interval(&mut self, keepalive_interval: u64)
        ensures
            final(self)@ == (ConnectionOptionsView {
                keepalive_interval: keepalive_interval,
                ..old(self)@
            }),
    {
        self.keepalive_interval = keepalive_interval;
    }

    /// Whether the client is configured for polling mode.
    pub fn is_polling(&self) -> (r: bool)
        ensures
            r == self@.polling,
    {
        self.polling
    }

    /// Configures the client for polling mode.  Enabling it also restores
    /// the polling pacing defaults: polling interval 0 (asynchronous
    /// polling) and idle timeout 19000.
    pub fn set_polling(&mut self, polling: bool)
        ensures
            polling ==> final(self)@ == (ConnectionOptionsView {
                polling: true,
                polling_interval: 0u64,
                idle_timeout: 19000u64,
                ..old(self)@
            }),
            !polling ==> final(self)@ == (ConnectionOptionsView { polling: false, ..old(self)@ }),
    {
        self.polling = polling;
        if polling {
            self.polling_interval = 0;
            self.idle_timeout = 19000;
        }
    }

    /// The time-to-live for a request, in milliseconds; `None` keeps a
    /// pending request until completion.
    pub fn get_ttl_millis(&self) -> (r: Option<u64>)
        ensures
            r == self@.ttl_millis,
    {
        self.ttl_millis
    }

    /// Sets the time-to-live for a request, in milliseconds; `None` keeps a
    /// pending request until completion.
    pub fn set_ttl_millis(&mut self, ttl_millis: Option<u64>)
        ensures
            final(self)@ == (ConnectionOptionsView { ttl_millis: ttl_millis, ..old(self)@ }),
    {
        self.ttl_millis = ttl_millis;
    }

    /// The comma-separated list of accepted `diff` formats for update
    /// values, or `None` when every format is accepted.
    pub fn get_supported_diffs(&self) -> (r: Option<&String>)
        ensures
            r is Some <==> self@.supported_diffs is Some,
            r is Some ==> r.unwrap()@ == self@.supported_diffs.unwrap(),
    {
        self.supported_diffs.as_ref()
    }

    /// Sets the comma-separated list of accepted `diff` formats for update
    /// values; `None` accepts every format.
    pub fn set_supported_diffs(&mut self, supported_diffs: Option<String>)
        ensures
            final(self)@ == (ConnectionOptionsView {
                supported_diffs: supported_diffs.deep_view(),
                ..old(self)@
            }),
    {
        self.supported_diffs = supported_diffs;
    }
}

impl Default for ConnectionOptions {
    /// The documented defaults, exactly as `new()` builds them.
    fn default() -> (r: ConnectionOptions)
        ensures
            r@ == default_options_view(),
    {
        ConnectionOptions {
            content_length: None,
            first_retry_max_delay: 100,
            forced_transport: None,
            http_extra_headers: None,
            http_extra_headers_on_session_creation_only: false,
            idle_timeout: 19000,
            keepalive_interval: 0,
            polling_interval: 0,
            proxy: None,
            real_max_bandwidth: None,
            reconnect_timeout: 3000,
            requested_max_bandwidth: None,
            retry_delay: 4000,
            reverse_heartbeat_interval: 0,
            server_instance_address_ignored: false,
            session_recovery_timeout: 15000,
            slowing_enabled: false,
            stalled_timeout: 2000,
            send_sync: true,
            reduce_head: false,
            supported_diffs: None,
            polling: false,
            ttl_millis: None,
        }
    }
}

} // verus!
