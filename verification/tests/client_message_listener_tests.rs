use std::cell::RefCell;

use lightstreamer_client::client_message_listener::ClientMessageListener;

struct TestClientMessageListener {
    on_abort_called: RefCell<bool>,
    on_abort_message: RefCell<Option<String>>,
    sent_on_network: RefCell<bool>,

    on_deny_called: RefCell<bool>,
    on_deny_message: RefCell<Option<String>>,
    on_deny_code: RefCell<i32>,
    on_deny_error: RefCell<Option<String>>,

    on_discarded_called: RefCell<bool>,
    on_discarded_message: RefCell<Option<String>>,

    on_error_called: RefCell<bool>,
    on_error_message: RefCell<Option<String>>,

    on_processed_called: RefCell<bool>,
    on_processed_message: RefCell<Option<String>>,
    on_processed_response: RefCell<Option<String>>,
}

impl TestClientMessageListener {
    fn new() -> Self {
        TestClientMessageListener {
            on_abort_called: RefCell::new(false),
            on_abort_message: RefCell::new(None),
            sent_on_network: RefCell::new(false),

            on_deny_called: RefCell::new(false),
            on_deny_message: RefCell::new(None),
            on_deny_code: RefCell::new(0),
            on_deny_error: RefCell::new(None),

            on_discarded_called: RefCell::new(false),
            on_discarded_message: RefCell::new(None),

            on_error_called: RefCell::new(false),
            on_error_message: RefCell::new(None),

            on_processed_called: RefCell::new(false),
            on_processed_message: RefCell::new(None),
            on_processed_response: RefCell::new(None),
        }
    }

    fn was_on_abort_called(&self) -> bool {
        *self.on_abort_called.borrow()
    }

    fn get_on_abort_message(&self) -> Option<String> {
        self.on_abort_message.borrow().clone()
    }

    fn was_sent_on_network(&self) -> bool {
        *self.sent_on_network.borrow()
    }

    fn was_on_deny_called(&self) -> bool {
        *self.on_deny_called.borrow()
    }

    fn get_on_deny_message(&self) -> Option<String> {
        self.on_deny_message.borrow().clone()
    }

    fn get_on_deny_code(&self) -> i32 {
        *self.on_deny_code.borrow()
    }

    fn get_on_deny_error(&self) -> Option<String> {
        self.on_deny_error.borrow().clone()
    }

    fn was_on_discarded_called(&self) -> bool {
        *self.on_discarded_called.borrow()
    }

    fn get_on_discarded_message(&self) -> Option<String> {
        self.on_discarded_message.borrow().clone()
    }

    fn was_on_error_called(&self) -> bool {
        *self.on_error_called.borrow()
    }

    fn get_on_error_message(&self) -> Option<String> {
        self.on_error_message.borrow().clone()
    }

    fn was_on_processed_called(&self) -> bool {
        *self.on_processed_called.borrow()
    }

    fn get_on_processed_message(&self) -> Option<String> {
        self.on_processed_message.borrow().clone()
    }

    fn get_on_processed_response(&self) -> Option<String> {
        self.on_processed_response.borrow().clone()
    }
}

impl ClientMessageListener for TestClientMessageListener {
    fn on_abort(&self, msg: &str, sent_on_network: bool) {
        *self.on_abort_called.borrow_mut() = true;
        *self.on_abort_message.borrow_mut() = Some(msg.to_string());
        *self.sent_on_network.borrow_mut() = sent_on_network;
    }

    fn on_deny(&self, msg: &str, code: i32, error: &str) {
        *self.on_deny_called.borrow_mut() = true;
        *self.on_deny_message.borrow_mut() = Some(msg.to_string());
        *self.on_deny_code.borrow_mut() = code;
        *self.on_deny_error.borrow_mut() = Some(error.to_string());
    }

    fn on_discarded(&self, msg: &str) {
        *self.on_discarded_called.borrow_mut() = true;
        *self.on_discarded_message.borrow_mut() = Some(msg.to_string());
    }

    fn on_error(&self, msg: &str) {
        *self.on_error_called.borrow_mut() = true;
        *self.on_error_message.borrow_mut() = Some(msg.to_string());
    }

    fn on_processed(&self, msg: &str, response: Option<&str>) {
        *self.on_processed_called.borrow_mut() = true;
        *self.on_processed_message.borrow_mut() = Some(msg.to_string());
        *self.on_processed_response.borrow_mut() = response.map(|s| s.to_string());
    }
}

#[test]
fn test_on_abort() {
    let listener = TestClientMessageListener::new();

    listener.on_abort("Test message", true);

    assert!(listener.was_on_abort_called());
    assert_eq!(listener.get_on_abort_message(), Some("Test message".to_string()));
    assert!(listener.was_sent_on_network());

    listener.on_abort("Another message", false);
    assert_eq!(listener.get_on_abort_message(), Some("Another message".to_string()));
    assert!(!listener.was_sent_on_network());
}

#[test]
fn test_on_deny() {
    let listener = TestClientMessageListener::new();

    listener.on_deny("Test message", 123, "Test error");

    assert!(listener.was_on_deny_called());
    assert_eq!(listener.get_on_deny_message(), Some("Test message".to_string()));
    assert_eq!(listener.get_on_deny_code(), 123);
    assert_eq!(listener.get_on_deny_error(), Some("Test error".to_string()));

    listener.on_deny("Another message", -1, "Another error");
    assert_eq!(listener.get_on_deny_message(), Some("Another message".to_string()));
    assert_eq!(listener.get_on_deny_code(), -1);
    assert_eq!(listener.get_on_deny_error(), Some("Another error".to_string()));
}

#[test]
fn test_on_discarded() {
    let listener = TestClientMessageListener::new();

    listener.on_discarded("Test message");

    assert!(listener.was_on_discarded_called());
    assert_eq!(listener.get_on_discarded_message(), Some("Test message".to_string()));

    listener.on_discarded("Another message");
    assert_eq!(listener.get_on_discarded_message(), Some("Another message".to_string()));
}

#[test]
fn test_on_error() {
    let listener = TestClientMessageListener::new();

    listener.on_error("Test message");

    assert!(listener.was_on_error_called());
    assert_eq!(listener.get_on_error_message(), Some("Test message".to_string()));

    listener.on_error("Another message");
    assert_eq!(listener.get_on_error_message(), Some("Another message".to_string()));
}

#[test]
fn test_on_processed() {
    let listener = TestClientMessageListener::new();

    listener.on_processed("Test message", Some("Test response"));

    assert!(listener.was_on_processed_called());
    assert_eq!(listener.get_on_processed_message(), Some("Test message".to_string()));
    assert_eq!(listener.get_on_processed_response(), Some("Test response".to_string()));

    listener.on_processed("Another message", None);
    assert_eq!(listener.get_on_processed_message(), Some("Another message".to_string()));
    assert_eq!(listener.get_on_processed_response(), None);
}
