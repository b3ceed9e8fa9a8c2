use std::cell::RefCell;
use std::rc::Rc;

use lightstreamer_client::client_message_listener::ClientMessageListener;
use lightstreamer_client::message::{Message, MessageState};

struct CountingListener {
    log: Rc<RefCell<Vec<String>>>,
}

impl ClientMessageListener for CountingListener {
    fn on_abort(&self, msg: &str, sent_on_network: bool) {
        self.log.borrow_mut().push(format!("abort:{}:{}", msg, sent_on_network));
    }

    fn on_deny(&self, msg: &str, code: i32, error: &str) {
        self.log.borrow_mut().push(format!("deny:{}:{}:{}", msg, code, error));
    }

    fn on_discarded(&self, msg: &str) {
        self.log.borrow_mut().push(format!("discarded:{}", msg));
    }

    fn on_error(&self, msg: &str) {
        self.log.borrow_mut().push(format!("error:{}", msg));
    }

    fn on_processed(&self, msg: &str, response: Option<&str>) {
        self.log.borrow_mut().push(format!("processed:{}:{}", msg, response.unwrap_or("-")));
    }
}

fn message_with_log(text: &str) -> (Message, Rc<RefCell<Vec<String>>>) {
    let log: Rc<RefCell<Vec<String>>> = Rc::new(RefCell::new(Vec::new()));
    let listener = Box::new(CountingListener { log: Rc::clone(&log) });
    (Message::new(text.to_string(), None, Some(listener)), log)
}

#[test]
fn test_message_processed_fires_once() {
    let (mut msg, log) = message_with_log("hello");
    assert_eq!(msg.get_state(), MessageState::Pending);

    msg.mark_on_network();
    assert_eq!(msg.get_state(), MessageState::OnNetwork);

    msg.complete_processed(Some("OK"));
    assert_eq!(msg.get_state(), MessageState::Processed);

    // exactly one terminal event fired on the listener
    assert_eq!(log.borrow().clone(), vec!["processed:hello:OK".to_string()]);
}

#[test]
fn test_message_abort_before_network() {
    let (mut msg, log) = message_with_log("early");
    msg.complete_aborted();
    assert_eq!(msg.get_state(), MessageState::Aborted);
    assert_eq!(log.borrow().clone(), vec!["abort:early:false".to_string()]);
}

#[test]
fn test_message_abort_after_network() {
    let (mut msg, log) = message_with_log("late");
    msg.mark_on_network();
    msg.complete_aborted();
    assert_eq!(msg.get_state(), MessageState::Aborted);
    assert_eq!(log.borrow().clone(), vec!["abort:late:true".to_string()]);
}

#[test]
fn test_message_denied_discarded_errored() {
    let (mut msg, log) = message_with_log("m1");
    msg.complete_denied(-5, "not allowed");
    assert_eq!(msg.get_state(), MessageState::Denied);
    assert_eq!(log.borrow().clone(), vec!["deny:m1:-5:not allowed".to_string()]);

    let (mut msg, log) = message_with_log("m2");
    msg.complete_discarded();
    assert_eq!(msg.get_state(), MessageState::Discarded);
    assert_eq!(log.borrow().clone(), vec!["discarded:m2".to_string()]);

    let (mut msg, log) = message_with_log("m3");
    msg.mark_on_network();
    msg.complete_errored();
    assert_eq!(msg.get_state(), MessageState::Errored);
    assert_eq!(log.borrow().clone(), vec!["error:m3".to_string()]);
}

#[test]
fn test_message_sequence_and_text() {
    let msg = Message::new("pay".to_string(), Some("ORDER_SEQ".to_string()), None);
    assert_eq!(msg.get_text(), "pay");
    assert_eq!(msg.get_sequence().unwrap(), "ORDER_SEQ");
    assert_eq!(msg.get_state(), MessageState::Pending);
}
