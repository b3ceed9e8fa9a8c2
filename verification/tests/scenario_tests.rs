use std::cell::RefCell;
use std::rc::Rc;

use lightstreamer_client::client_listener::ClientListener;
use lightstreamer_client::item_update::ItemUpdate;
use lightstreamer_client::ls_client::{ClientStatus, LightstreamerClient, Transport};
use lightstreamer_client::message::{Message, MessageState};
use lightstreamer_client::subscription::{Snapshot, Subscription, SubscriptionMode};
use lightstreamer_client::subscription_listener::SubscriptionListener;

struct StatusListener {
    log: Rc<RefCell<Vec<String>>>,
}

impl ClientListener for StatusListener {
    fn on_status_change(&self, status: &str) {
        self.log.borrow_mut().push(format!("status:{}", status));
    }

    fn on_server_error(&self, code: i32, message: &str) {
        self.log.borrow_mut().push(format!("error:{}:{}", code, message));
    }
}

struct EventListener {
    log: Rc<RefCell<Vec<String>>>,
}

impl SubscriptionListener for EventListener {
    fn on_listen_start(&mut self) {
        self.log.borrow_mut().push("listen_start".to_string());
    }

    fn on_listen_end(&mut self) {
        self.log.borrow_mut().push("listen_end".to_string());
    }

    fn on_subscription(&mut self) {
        self.log.borrow_mut().push("subscription".to_string());
    }

    fn on_unsubscription(&mut self) {
        self.log.borrow_mut().push("unsubscription".to_string());
    }

    fn on_item_update(&mut self, update: &ItemUpdate) {
        let mut line = format!(
            "update:{}:{}:{}",
            update.get_item_name().unwrap_or("-"),
            update.get_item_pos(),
            update.is_snapshot()
        );
        for (pos, value) in update.get_fields_by_position() {
            line.push_str(&format!(":{}={}", pos, value.unwrap_or("<null>".to_string())));
        }
        self.log.borrow_mut().push(line);
    }

    fn on_end_of_snapshot(&mut self, _item_name: Option<&str>, item_pos: usize) {
        self.log.borrow_mut().push(format!("end_of_snapshot:{}", item_pos));
    }

    fn on_clear_snapshot(&mut self, _item_name: Option<&str>, item_pos: usize) {
        self.log.borrow_mut().push(format!("clear_snapshot:{}", item_pos));
    }
}

fn strings(names: &[&str]) -> Option<Vec<String>> {
    Some(names.iter().map(|s| s.to_string()).collect())
}

fn demo_client() -> (LightstreamerClient, Rc<RefCell<Vec<String>>>) {
    let mut client =
        LightstreamerClient::new(Some("http://example/lightstreamer"), Some("DEMO"), None, None)
            .unwrap();
    let log: Rc<RefCell<Vec<String>>> = Rc::new(RefCell::new(Vec::new()));
    client.add_listener(Box::new(StatusListener { log: Rc::clone(&log) }));
    (client, log)
}

#[test]
fn happy_merge_scenario() {
    let (mut client, log) = demo_client();

    let mut sub = Subscription::new(
        SubscriptionMode::Merge,
        strings(&["item1", "item2"]),
        strings(&["stock_name", "last_price"]),
    )
    .unwrap();
    sub.set_requested_snapshot(Some(Snapshot::Yes)).unwrap();
    let events: Rc<RefCell<Vec<String>>> = Rc::new(RefCell::new(Vec::new()));
    sub.add_listener(Box::new(EventListener { log: Rc::clone(&events) }));

    let sub_id = client.subscribe(sub).unwrap();
    assert_eq!(sub_id, 1);

    client.connect().unwrap();
    client.process_line("CONOK,S1,50000,5000,*").unwrap();
    client.on_stream_sense_concluded(Transport::WsStreaming);

    assert_eq!(
        log.borrow().clone(),
        vec![
            "status:CONNECTING".to_string(),
            "status:CONNECTED:STREAM-SENSING".to_string(),
            "status:CONNECTED:WS-STREAMING".to_string(),
        ]
    );
    assert_eq!(client.connection_details.get_session_id().unwrap(), "S1");
    // the server-imposed keepalive interval was adopted
    assert_eq!(client.connection_options.get_keepalive_interval(), 5000);

    client.process_line("SUBOK,1,2,2").unwrap();
    client.process_line("U,1,1,ACME|12.50").unwrap();

    assert_eq!(
        events.borrow().clone(),
        vec![
            "listen_start".to_string(),
            "subscription".to_string(),
            "update:item1:1:true:1=ACME:2=12.50".to_string(),
        ]
    );

    // cache coherence: the cache agrees with the delivered event
    let sub = client.get_subscription(1).unwrap();
    assert_eq!(sub.get_value(1, 1).unwrap(), "ACME");
    assert_eq!(sub.get_value(1, 2).unwrap(), "12.50");
}

#[test]
fn command_add_delete_scenario() {
    let (mut client, _log) = demo_client();

    let sub = Subscription::new(
        SubscriptionMode::Command,
        strings(&["item1"]),
        strings(&["key", "command", "data"]),
    )
    .unwrap();
    client.subscribe(sub).unwrap();
    client.connect().unwrap();
    client.process_line("CONOK,S1,50000,5000,*").unwrap();
    client.on_stream_sense_concluded(Transport::WsStreaming);
    // the key and command fields stand at positions 1 and 2, the data field
    // at position 3
    client.process_line("SUBCMD,1,1,3,1,2").unwrap();

    client.process_line("U,1,1,k1|ADD|v1").unwrap();
    client.process_line("U,1,1,k2|ADD|v2").unwrap();
    client.process_line("U,1,1,k1|DELETE|").unwrap();

    let sub = client.get_subscription(1).unwrap();
    assert_eq!(sub.get_command_value(1, "k1", 3), None);
    assert_eq!(sub.get_command_value(1, "k2", 3).unwrap(), "v2");
}

#[test]
fn command_update_overwrites_key_row() {
    let (mut client, _log) = demo_client();

    let sub = Subscription::new(
        SubscriptionMode::Command,
        strings(&["item1"]),
        strings(&["key", "command", "data"]),
    )
    .unwrap();
    client.subscribe(sub).unwrap();
    client.connect().unwrap();
    client.process_line("CONOK,S1,50000,5000,*").unwrap();
    client.process_line("SUBCMD,1,1,3,1,2").unwrap();

    client.process_line("U,1,1,k1|ADD|v1").unwrap();
    client.process_line("U,1,1,k1|UPDATE|v9").unwrap();

    // the key table carries the last value each non-DELETE command wrote
    let sub = client.get_subscription(1).unwrap();
    assert_eq!(sub.get_command_value(1, "k1", 3).unwrap(), "v9");
}

#[test]
fn stalled_recovery_scenario() {
    let (mut client, log) = demo_client();
    client.connection_options.set_keepalive_interval(5000).unwrap();
    client.connection_options.set_stalled_timeout(2000).unwrap();
    assert_eq!(client.connection_options.get_reconnect_timeout(), 3000);

    client.connect().unwrap();
    client.process_line("CONOK,S1,50000,5000,*").unwrap();
    client.on_stream_sense_concluded(Transport::WsStreaming);

    // silence crosses keepalive + stalled: the connection stalls
    client.on_silence(7100);
    assert_eq!(client.get_status(), ClientStatus::Stalled);

    // silence crosses keepalive + reconnect: recovery starts
    client.on_silence(8100);
    assert_eq!(client.get_status(), ClientStatus::DisconnectedTryingRecovery);

    // the recovery bind answers: the session resumes where it stalled
    client.process_line("CONOK,S1,50000,5000,*").unwrap();
    assert_eq!(client.get_status(), ClientStatus::ConnectedWsStreaming);

    assert_eq!(
        log.borrow().clone(),
        vec![
            "status:CONNECTING".to_string(),
            "status:CONNECTED:STREAM-SENSING".to_string(),
            "status:CONNECTED:WS-STREAMING".to_string(),
            "status:STALLED".to_string(),
            "status:DISCONNECTED:TRYING-RECOVERY".to_string(),
            "status:CONNECTED:WS-STREAMING".to_string(),
        ]
    );
}

#[test]
fn refusal_scenario() {
    let (mut client, log) = demo_client();

    client.connect().unwrap();
    client.process_line("CONERR,1,bad user").unwrap();

    assert_eq!(client.get_status(), ClientStatus::Disconnected);
    // the status drops first, the server error report follows; no retry
    assert_eq!(
        log.borrow().clone(),
        vec![
            "status:CONNECTING".to_string(),
            "status:DISCONNECTED".to_string(),
            "error:1:bad user".to_string(),
        ]
    );
}

#[test]
fn unsubscribe_during_burst_scenario() {
    let mut sub = Subscription::new(
        SubscriptionMode::Merge,
        strings(&["item1"]),
        strings(&["f1"]),
    )
    .unwrap();
    let events: Rc<RefCell<Vec<String>>> = Rc::new(RefCell::new(Vec::new()));
    sub.add_listener(Box::new(EventListener { log: Rc::clone(&events) }));

    sub.activate().unwrap();
    sub.on_subscribed(1, None, None);
    let mut expected = vec!["listen_start".to_string(), "subscription".to_string()];
    let mut i = 0;
    while i < 10 {
        sub.apply_update(None, 1, &format!("v{}", i), false).unwrap();
        expected.push(format!("update:-:1:false:1=v{}", i));
        i += 1;
    }
    sub.on_unsubscribed();
    expected.push("unsubscription".to_string());
    sub.remove_listener(0);
    expected.push("listen_end".to_string());

    // all ten queued updates were delivered, then the unsubscription, then
    // the listen end, and nothing after
    assert_eq!(events.borrow().clone(), expected);

    sub.activate().unwrap();
    sub.on_subscribed(1, None, None);
    sub.apply_update(None, 1, "after", false).unwrap();
    assert_eq!(events.borrow().len(), expected.len());
}

#[test]
fn delta_reconstruction_scenario() {
    let mut sub = Subscription::new(
        SubscriptionMode::Merge,
        strings(&["item1"]),
        strings(&["f1", "f2", "f3"]),
    )
    .unwrap();
    sub.activate().unwrap();
    sub.on_subscribed(3, None, None);

    sub.apply_update(None, 1, "X|Y|Z", false).unwrap();
    let second = sub.apply_update(None, 1, "|^1|W", false).unwrap();

    // the full field map is reconstructed from the deltas
    assert_eq!(
        second.update.get_fields_by_position(),
        vec![
            (1, Some("X".to_string())),
            (2, Some("Y".to_string())),
            (3, Some("W".to_string())),
        ]
    );
    assert_eq!(
        second.update.get_changed_fields_by_position(),
        vec![(3, Some("W".to_string()))]
    );
    assert!(!second.update.is_value_changed("1"));
    assert!(!second.update.is_value_changed("2"));
    assert!(second.update.is_value_changed("3"));

    // the cache agrees with the event
    assert_eq!(sub.get_value(1, 1).unwrap(), "X");
    assert_eq!(sub.get_value(1, 2).unwrap(), "Y");
    assert_eq!(sub.get_value(1, 3).unwrap(), "W");
}

#[test]
fn status_strings_are_the_ten_documented_values() {
    let allowed = vec![
        "DISCONNECTED",
        "DISCONNECTED:WILL-RETRY",
        "DISCONNECTED:TRYING-RECOVERY",
        "CONNECTING",
        "CONNECTED:STREAM-SENSING",
        "CONNECTED:WS-STREAMING",
        "CONNECTED:HTTP-STREAMING",
        "CONNECTED:WS-POLLING",
        "CONNECTED:HTTP-POLLING",
        "STALLED",
    ];
    let (mut client, _log) = demo_client();
    client.connection_options.set_keepalive_interval(5000).unwrap();

    assert_eq!(client.status_name(), "DISCONNECTED");
    assert!(allowed.contains(&client.status_name().as_str()));

    client.connect().unwrap();
    assert_eq!(client.status_name(), "CONNECTING");
    assert!(allowed.contains(&client.status_name().as_str()));

    client.process_line("CONOK,S1,50000,5000,*").unwrap();
    assert_eq!(client.status_name(), "CONNECTED:STREAM-SENSING");
    assert!(allowed.contains(&client.status_name().as_str()));

    client.on_stream_sense_concluded(Transport::HttpStreaming);
    assert_eq!(client.status_name(), "CONNECTED:HTTP-STREAMING");
    assert!(allowed.contains(&client.status_name().as_str()));

    client.on_silence(8000);
    assert_eq!(client.status_name(), "STALLED");
    assert!(allowed.contains(&client.status_name().as_str()));

    client.on_silence(9000);
    assert_eq!(client.status_name(), "DISCONNECTED:TRYING-RECOVERY");
    assert!(allowed.contains(&client.status_name().as_str()));

    client.on_recovery_elapsed(20000);
    assert_eq!(client.status_name(), "DISCONNECTED:WILL-RETRY");
    assert!(allowed.contains(&client.status_name().as_str()));

    client.connect().unwrap();
    client.process_line("CONOK,S2,50000,5000,*").unwrap();
    client.on_stream_sense_concluded(Transport::WsPolling);
    assert_eq!(client.status_name(), "CONNECTED:WS-POLLING");
    assert!(allowed.contains(&client.status_name().as_str()));

    client.on_connection_lost();
    assert_eq!(client.status_name(), "DISCONNECTED:WILL-RETRY");
}

#[test]
fn clear_snapshot_empties_the_key_table_for_the_item() {
    let (mut client, _log) = demo_client();
    let sub = Subscription::new(
        SubscriptionMode::Command,
        strings(&["item1"]),
        strings(&["key", "command", "data"]),
    )
    .unwrap();
    client.subscribe(sub).unwrap();
    client.connect().unwrap();
    client.process_line("CONOK,S1,50000,5000,*").unwrap();
    client.process_line("SUBCMD,1,1,3,1,2").unwrap();
    client.process_line("U,1,1,k1|ADD|v1").unwrap();

    client.process_line("CS,1,1").unwrap();
    let sub = client.get_subscription(1).unwrap();
    assert_eq!(sub.get_command_value(1, "k1", 3), None);
}

#[test]
fn two_level_command_spawns_and_closes_children() {
    let (mut client, _log) = demo_client();
    let mut sub = Subscription::new(
        SubscriptionMode::Command,
        strings(&["item1"]),
        strings(&["key", "command", "data"]),
    )
    .unwrap();
    sub.set_command_second_level_fields(strings(&["depth", "volume"])).unwrap();
    client.subscribe(sub).unwrap();
    client.connect().unwrap();
    client.process_line("CONOK,S1,50000,5000,*").unwrap();
    client.process_line("SUBCMD,1,1,3,1,2").unwrap();

    // an ADD spawns a second-level MERGE subscription on the key
    client.process_line("U,1,1,k1|ADD|v1").unwrap();
    let child = client.get_subscription(2).unwrap();
    assert_eq!(*child.get_mode(), SubscriptionMode::Merge);
    assert_eq!(child.get_items().unwrap(), &vec!["k1".to_string()]);
    assert_eq!(
        child.get_fields().unwrap(),
        &vec!["depth".to_string(), "volume".to_string()]
    );
    assert!(child.is_active());

    // the child gets established and fed on its own id
    client.process_line("SUBOK,2,1,2").unwrap();
    client.process_line("U,2,1,42|1000").unwrap();
    let child = client.get_subscription(2).unwrap();
    assert_eq!(child.get_value(1, 1).unwrap(), "42");

    // the DELETE of the key closes the child
    client.process_line("U,1,1,k1|DELETE|").unwrap();
    let child = client.get_subscription(2).unwrap();
    assert!(!child.is_active());
    assert!(!child.is_subscribed());
}

#[test]
fn message_answers_settle_messages() {
    let (mut client, _log) = demo_client();
    client.connect().unwrap();
    client.process_line("CONOK,S1,50000,5000,*").unwrap();

    let first = client.send_message(Message::new("one".to_string(), None, None));
    let second =
        client.send_message(Message::new("two".to_string(), Some("SEQ".to_string()), None));
    assert_eq!(first, 1);
    assert_eq!(second, 2);

    client.mark_message_sent(1);
    client.mark_message_sent(2);
    assert_eq!(client.get_message(1).unwrap().get_state(), MessageState::OnNetwork);

    client.process_line("MSGDONE,*,1,OK").unwrap();
    assert_eq!(client.get_message(1).unwrap().get_state(), MessageState::Processed);

    // code 38 reports a discarded message
    client.process_line("MSGFAIL,SEQ,2,38,discarded").unwrap();
    assert_eq!(client.get_message(2).unwrap().get_state(), MessageState::Discarded);

    // a denial carries the adapter's code
    let third = client.send_message(Message::new("three".to_string(), None, None));
    client.process_line("MSGFAIL,*,3,10,not allowed").unwrap();
    assert_eq!(client.get_message(third).unwrap().get_state(), MessageState::Denied);
}

#[test]
fn disconnect_aborts_live_messages() {
    let (mut client, _log) = demo_client();
    client.connect().unwrap();
    client.process_line("CONOK,S1,50000,5000,*").unwrap();

    let pending = client.send_message(Message::new("early".to_string(), None, None));
    let on_network = client.send_message(Message::new("late".to_string(), None, None));
    client.mark_message_sent(on_network);
    client.process_line("MSGDONE,*,2,").unwrap();
    let done_state = client.get_message(on_network).unwrap().get_state();
    assert_eq!(done_state, MessageState::Processed);

    client.disconnect();
    // the live message was aborted; the settled one kept its outcome
    assert_eq!(client.get_message(pending).unwrap().get_state(), MessageState::Aborted);
    assert_eq!(client.get_message(on_network).unwrap().get_state(), MessageState::Processed);
}

#[test]
fn disconnect_is_idempotent_and_total() {
    let (mut client, log) = demo_client();
    assert_eq!(client.get_status(), ClientStatus::Disconnected);

    client.disconnect();
    assert_eq!(client.get_status(), ClientStatus::Disconnected);
    assert_eq!(log.borrow().len(), 0);

    client.connect().unwrap();
    client.disconnect();
    assert_eq!(client.get_status(), ClientStatus::Disconnected);

    // connect is idempotent while connected
    client.connect().unwrap();
    client.process_line("CONOK,S1,50000,5000,*").unwrap();
    client.connect().unwrap();
    assert_eq!(client.get_status(), ClientStatus::ConnectedStreamSensing);
}
