use std::collections::HashMap;

use lightstreamer_client::connection_options::{BandwidthLimit, ConnectionOptions};
use lightstreamer_client::ls_client::Transport;

#[test]
fn test_new_connection_options() {
    let options = ConnectionOptions::new();

    assert_eq!(options.get_content_length(), None);
    assert_eq!(options.get_first_retry_max_delay(), 100);
    assert_eq!(options.get_forced_transport(), None);
    assert_eq!(options.get_http_extra_headers(), None);
    assert!(!options.is_http_extra_headers_on_session_creation_only());
    assert_eq!(options.get_idle_timeout(), 19000);
    assert_eq!(options.get_keepalive_interval(), 0);
    assert_eq!(options.get_polling_interval(), 0);
    assert_eq!(options.get_reconnect_timeout(), 3000);
    assert_eq!(options.get_retry_delay(), 4000);
    assert_eq!(options.get_reverse_heartbeat_interval(), 0);
    assert!(!options.is_server_instance_address_ignored());
    assert_eq!(options.get_session_recovery_timeout(), 15000);
    assert!(!options.is_slowing_enabled());
    assert_eq!(options.get_stalled_timeout(), 2000);
    assert!(options.get_send_sync());
}

#[test]
fn test_set_content_length() {
    let mut options = ConnectionOptions::new();

    assert!(options.set_content_length(10000).is_ok());
    assert_eq!(options.get_content_length(), Some(10000));

    assert!(options.set_content_length(0).is_err());
}

#[test]
fn test_set_first_retry_max_delay() {
    let mut options = ConnectionOptions::new();

    assert!(options.set_first_retry_max_delay(500).is_ok());
    assert_eq!(options.get_first_retry_max_delay(), 500);

    assert!(options.set_first_retry_max_delay(0).is_err());
}

#[test]
fn test_set_forced_transport() {
    let mut options = ConnectionOptions::new();

    options.set_forced_transport(Some(Transport::WsStreaming));
    assert_eq!(options.get_forced_transport(), Some(&Transport::WsStreaming));

    options.set_forced_transport(Some(Transport::HttpStreaming));
    assert_eq!(options.get_forced_transport(), Some(&Transport::HttpStreaming));

    options.set_forced_transport(Some(Transport::WsPolling));
    assert_eq!(options.get_forced_transport(), Some(&Transport::WsPolling));

    options.set_forced_transport(Some(Transport::HttpPolling));
    assert_eq!(options.get_forced_transport(), Some(&Transport::HttpPolling));

    options.set_forced_transport(Some(Transport::Ws));
    assert_eq!(options.get_forced_transport(), Some(&Transport::Ws));

    options.set_forced_transport(Some(Transport::Http));
    assert_eq!(options.get_forced_transport(), Some(&Transport::Http));

    options.set_forced_transport(None);
    assert_eq!(options.get_forced_transport(), None);
}

#[test]
fn test_set_http_extra_headers() {
    let mut options = ConnectionOptions::new();

    let mut headers = HashMap::new();
    headers.insert("X-Custom-Header".to_string(), "Value".to_string());
    headers.insert("X-Another-Header".to_string(), "AnotherValue".to_string());

    options.set_http_extra_headers(Some(headers.clone()));
    assert_eq!(options.get_http_extra_headers().unwrap(), &headers);

    options.set_http_extra_headers(None);
    assert_eq!(options.get_http_extra_headers(), None);
}

#[test]
fn test_set_http_extra_headers_on_session_creation_only() {
    let mut options = ConnectionOptions::new();

    options.set_http_extra_headers_on_session_creation_only(true);
    assert!(options.is_http_extra_headers_on_session_creation_only());

    options.set_http_extra_headers_on_session_creation_only(false);
    assert!(!options.is_http_extra_headers_on_session_creation_only());
}

#[test]
fn test_set_idle_timeout() {
    let mut options = ConnectionOptions::new();

    assert!(options.set_idle_timeout(15000).is_ok());
    assert_eq!(options.get_idle_timeout(), 15000);

    assert!(options.set_idle_timeout(0).is_err());
}

#[test]
fn test_set_keepalive_interval() {
    let mut options = ConnectionOptions::new();

    assert!(options.set_keepalive_interval(5000).is_ok());
    assert_eq!(options.get_keepalive_interval(), 5000);

    // zero leaves the interval to the server
    assert!(options.set_keepalive_interval(0).is_ok());
    assert_eq!(options.get_keepalive_interval(), 0);
}

#[test]
fn test_set_polling_interval() {
    let mut options = ConnectionOptions::new();

    assert!(options.set_idle_timeout(2000).is_ok());
    assert!(options.set_polling_interval(3000).is_ok());
    assert_eq!(options.get_polling_interval(), 3000);
    assert!(options.set_polling_interval(0).is_ok());
    assert_eq!(options.get_polling_interval(), 0);
    assert!(options.set_idle_timeout(19000).is_ok());
    assert!(options.set_polling_interval(10000).is_err());
}

#[test]
fn test_set_reconnect_timeout() {
    let mut options = ConnectionOptions::new();

    assert!(options.set_reconnect_timeout(5000).is_ok());
    assert_eq!(options.get_reconnect_timeout(), 5000);

    assert!(options.set_reconnect_timeout(0).is_err());
}

#[test]
fn test_set_requested_max_bandwidth() {
    let mut options = ConnectionOptions::new();

    // 10.5 kbps, carried as thousandths of a kilobit per second
    assert!(options.set_requested_max_bandwidth(Some(BandwidthLimit::Kbps(10500))).is_ok());
    assert_eq!(options.get_requested_max_bandwidth(), Some(BandwidthLimit::Kbps(10500)));

    // a zero limit is refused
    assert!(options.set_requested_max_bandwidth(Some(BandwidthLimit::Kbps(0))).is_err());

    assert!(options.set_requested_max_bandwidth(None).is_ok());
    assert_eq!(options.get_requested_max_bandwidth(), None);
}

#[test]
fn test_set_retry_delay() {
    let mut options = ConnectionOptions::new();

    assert!(options.set_retry_delay(3000).is_ok());
    assert_eq!(options.get_retry_delay(), 3000);

    assert!(options.set_retry_delay(0).is_err());
}

#[test]
fn test_set_reverse_heartbeat_interval() {
    let mut options = ConnectionOptions::new();

    assert!(options.set_reverse_heartbeat_interval(5000).is_ok());
    assert_eq!(options.get_reverse_heartbeat_interval(), 5000);

    // zero disables the mechanism
    assert!(options.set_reverse_heartbeat_interval(0).is_ok());
    assert_eq!(options.get_reverse_heartbeat_interval(), 0);
}

#[test]
fn test_set_server_instance_address_ignored() {
    let mut options = ConnectionOptions::new();

    options.set_server_instance_address_ignored(true);
    assert!(options.is_server_instance_address_ignored());

    options.set_server_instance_address_ignored(false);
    assert!(!options.is_server_instance_address_ignored());
}

#[test]
fn test_set_session_recovery_timeout() {
    let mut options = ConnectionOptions::new();

    assert!(options.set_session_recovery_timeout(10000).is_ok());
    assert_eq!(options.get_session_recovery_timeout(), 10000);

    // zero disables recovery
    assert!(options.set_session_recovery_timeout(0).is_ok());
    assert_eq!(options.get_session_recovery_timeout(), 0);
}

#[test]
fn test_set_slowing_enabled() {
    let mut options = ConnectionOptions::new();

    options.set_slowing_enabled(true);
    assert!(options.is_slowing_enabled());

    options.set_slowing_enabled(false);
    assert!(!options.is_slowing_enabled());
}

#[test]
fn test_set_stalled_timeout() {
    let mut options = ConnectionOptions::new();

    assert!(options.set_keepalive_interval(5000).is_ok());
    assert!(options.set_stalled_timeout(1000).is_ok());
    assert_eq!(options.get_stalled_timeout(), 1000);
    assert!(options.set_stalled_timeout(0).is_err());
    assert!(options.set_stalled_timeout(6000).is_err());

    options.set_reconnect_timeout(2000).unwrap();
    assert!(options.set_stalled_timeout(1500).is_ok());
    assert!(options.set_stalled_timeout(2500).is_err());
}

#[test]
fn test_set_polling() {
    let mut options = ConnectionOptions::new();

    options.set_polling(true);
    assert!(options.is_polling());
    assert_eq!(options.get_polling_interval(), 0);
    assert_eq!(options.get_idle_timeout(), 19000);

    options.set_polling(false);
    assert!(!options.is_polling());
}

#[test]
fn test_default_equals_documented_defaults() {
    let options = ConnectionOptions::default();
    assert_eq!(options.get_first_retry_max_delay(), 100);
    assert!(options.get_send_sync());
    assert_eq!(options.get_idle_timeout(), 19000);
    assert_eq!(options.get_reconnect_timeout(), 3000);
    assert_eq!(options.get_retry_delay(), 4000);
    assert_eq!(options.get_session_recovery_timeout(), 15000);
    assert_eq!(options.get_stalled_timeout(), 2000);
}

#[test]
fn test_keepalive_strictly_above_stalled() {
    let mut options = ConnectionOptions::new();
    // the stalled timeout starts at 2000: an equal keepalive is refused
    assert!(options.set_keepalive_interval(2000).is_err());
    assert_eq!(options.get_keepalive_interval(), 0);
    assert!(options.set_keepalive_interval(3000).is_ok());
}

#[test]
fn test_reconnect_stays_above_stalled() {
    let mut options = ConnectionOptions::new();
    // the stalled timeout starts at 2000 and must stay strictly below
    assert!(options.set_reconnect_timeout(2000).is_err());
    assert_eq!(options.get_reconnect_timeout(), 3000);
    assert!(options.set_reconnect_timeout(2001).is_ok());
    assert_eq!(options.get_reconnect_timeout(), 2001);
}

#[test]
fn test_set_ttl_millis() {
    let mut options = ConnectionOptions::new();

    options.set_ttl_millis(Some(5000));
    assert_eq!(options.get_ttl_millis(), Some(5000));

    options.set_ttl_millis(None);
    assert_eq!(options.get_ttl_millis(), None);
}

#[test]
fn test_set_supported_diffs() {
    let mut options = ConnectionOptions::new();

    options.set_supported_diffs(Some("TLCP-diff,JSON-patch".to_string()));
    assert_eq!(options.get_supported_diffs().unwrap(), "TLCP-diff,JSON-patch");

    options.set_supported_diffs(None);
    assert_eq!(options.get_supported_diffs(), None);
}
