use lightstreamer_client::requests::{
    bind_session_request, create_session_request, message_request, parse_reqok, percent_encode,
    subscribe_request, unsubscribe_request,
};
use lightstreamer_client::subscription::{Snapshot, Subscription, SubscriptionMode};

fn strings(names: &[&str]) -> Option<Vec<String>> {
    Some(names.iter().map(|s| s.to_string()).collect())
}

#[test]
fn test_percent_encode() {
    assert_eq!(percent_encode("abcXYZ019-_.~"), "abcXYZ019-_.~");
    assert_eq!(percent_encode("a b"), "a%20b");
    assert_eq!(percent_encode("x=y&z"), "x%3Dy%26z");
    assert_eq!(percent_encode("100%"), "100%25");
    // characters beyond ASCII travel as their UTF-8 bytes
    assert_eq!(percent_encode("é"), "%C3%A9");
    assert_eq!(percent_encode("€"), "%E2%82%AC");
}

#[test]
fn test_create_session_request_body() {
    let body = create_session_request("DEMO", Some("user1"), Some("p w"));
    assert_eq!(
        body,
        "LS_protocol=TLCP-2.0.0&LS_adapter_set=DEMO&LS_user=user1&LS_password=p%20w"
    );

    let body = create_session_request("DEMO", None, None);
    assert_eq!(body, "LS_protocol=TLCP-2.0.0&LS_adapter_set=DEMO");
}

#[test]
fn test_bind_session_request_body() {
    assert_eq!(bind_session_request("S1", None), "LS_session=S1");
    assert_eq!(
        bind_session_request("S1", Some(42)),
        "LS_session=S1&LS_recovery_from=42"
    );
}

#[test]
fn test_subscribe_request_body() {
    let mut sub = Subscription::new(
        SubscriptionMode::Merge,
        strings(&["item1", "item2"]),
        strings(&["stock_name", "last_price"]),
    )
    .unwrap();
    sub.set_data_adapter(Some("QUOTE_ADAPTER".to_string())).unwrap();
    sub.set_requested_snapshot(Some(Snapshot::Yes)).unwrap();

    let body = subscribe_request(&sub, 1, 7).unwrap();
    assert_eq!(
        body,
        "LS_reqId=7&LS_op=add&LS_subId=1&LS_mode=MERGE&LS_group=item1%20item2&LS_schema=stock_name%20last_price&LS_data_adapter=QUOTE_ADAPTER&LS_snapshot=true"
    );
}

#[test]
fn test_unsubscribe_request_body() {
    assert_eq!(unsubscribe_request(3, 12), "LS_reqId=12&LS_op=delete&LS_subId=3");
}

#[test]
fn test_message_request_body() {
    assert_eq!(
        message_request("hello world", None, 1, 5),
        "LS_reqId=5&LS_message=hello%20world"
    );
    assert_eq!(
        message_request("pay", Some("ORDERS"), 2, 6),
        "LS_reqId=6&LS_message=pay&LS_sequence=ORDERS&LS_msg_prog=2"
    );
}

#[test]
fn test_reqok_round_trip() {
    // encode a request, let the server echo its id, and cross-check it
    let req_id = 12;
    let body = unsubscribe_request(3, req_id);
    assert!(body.starts_with("LS_reqId=12&"));

    let echoed = format!("REQOK,{}", req_id);
    assert_eq!(parse_reqok(&echoed), Some(req_id));

    assert_eq!(parse_reqok("REQERR,12,20,unknown"), None);
    assert_eq!(parse_reqok("REQOK"), None);
    assert_eq!(parse_reqok("REQOK,abc"), None);
}
