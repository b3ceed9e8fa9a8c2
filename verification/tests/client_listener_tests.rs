use std::sync::{Arc, Mutex};

use lightstreamer_client::client_listener::ClientListener;

struct TestClientListener {
    on_property_change_called: Arc<Mutex<bool>>,
    property_changes: Arc<Mutex<Vec<String>>>,

    on_server_error_called: Arc<Mutex<bool>>,
    error_codes: Arc<Mutex<Vec<i32>>>,
    error_messages: Arc<Mutex<Vec<String>>>,

    on_status_change_called: Arc<Mutex<bool>>,
    status_changes: Arc<Mutex<Vec<String>>>,

    on_listen_start_called: Arc<Mutex<bool>>,
    on_listen_end_called: Arc<Mutex<bool>>,
}

impl TestClientListener {
    fn new() -> Self {
        TestClientListener {
            on_property_change_called: Arc::new(Mutex::new(false)),
            property_changes: Arc::new(Mutex::new(Vec::new())),

            on_server_error_called: Arc::new(Mutex::new(false)),
            error_codes: Arc::new(Mutex::new(Vec::new())),
            error_messages: Arc::new(Mutex::new(Vec::new())),

            on_status_change_called: Arc::new(Mutex::new(false)),
            status_changes: Arc::new(Mutex::new(Vec::new())),

            on_listen_start_called: Arc::new(Mutex::new(false)),
            on_listen_end_called: Arc::new(Mutex::new(false)),
        }
    }

    fn was_on_property_change_called(&self) -> bool {
        *self.on_property_change_called.lock().unwrap()
    }

    fn get_property_changes(&self) -> Vec<String> {
        self.property_changes.lock().unwrap().clone()
    }

    fn was_on_server_error_called(&self) -> bool {
        *self.on_server_error_called.lock().unwrap()
    }

    fn get_error_codes(&self) -> Vec<i32> {
        self.error_codes.lock().unwrap().clone()
    }

    fn get_error_messages(&self) -> Vec<String> {
        self.error_messages.lock().unwrap().clone()
    }

    fn was_on_status_change_called(&self) -> bool {
        *self.on_status_change_called.lock().unwrap()
    }

    fn get_status_changes(&self) -> Vec<String> {
        self.status_changes.lock().unwrap().clone()
    }

    fn was_on_listen_start_called(&self) -> bool {
        *self.on_listen_start_called.lock().unwrap()
    }

    fn was_on_listen_end_called(&self) -> bool {
        *self.on_listen_end_called.lock().unwrap()
    }
}

impl ClientListener for TestClientListener {
    fn on_listen_end(&self) {
        *self.on_listen_end_called.lock().unwrap() = true;
    }

    fn on_listen_start(&self) {
        *self.on_listen_start_called.lock().unwrap() = true;
    }

    fn on_property_change(&self, property: &str) {
        *self.on_property_change_called.lock().unwrap() = true;
        self.property_changes.lock().unwrap().push(property.to_string());
    }

    fn on_server_error(&self, code: i32, message: &str) {
        *self.on_server_error_called.lock().unwrap() = true;
        self.error_codes.lock().unwrap().push(code);
        self.error_messages.lock().unwrap().push(message.to_string());
    }

    fn on_status_change(&self, status: &str) {
        *self.on_status_change_called.lock().unwrap() = true;
        self.status_changes.lock().unwrap().push(status.to_string());
    }
}

struct MinimalClientListener;

impl ClientListener for MinimalClientListener {
}

#[test]
fn test_on_property_change() {
    let listener = TestClientListener::new();

    listener.on_property_change("serverAddress");

    assert!(listener.was_on_property_change_called());
    assert_eq!(listener.get_property_changes(), vec!["serverAddress"]);

    listener.on_property_change("adapterSet");
    listener.on_property_change("user");

    assert_eq!(listener.get_property_changes(), vec!["serverAddress", "adapterSet", "user"]);
}

#[test]
fn test_on_server_error() {
    let listener = TestClientListener::new();

    listener.on_server_error(1, "Authentication error");

    assert!(listener.was_on_server_error_called());
    assert_eq!(listener.get_error_codes(), vec![1]);
    assert_eq!(listener.get_error_messages(), vec!["Authentication error"]);

    listener.on_server_error(2, "Adapter set not available");
    listener.on_server_error(-1, "Custom error");

    assert_eq!(listener.get_error_codes(), vec![1, 2, -1]);
    assert_eq!(
        listener.get_error_messages(),
        vec!["Authentication error", "Adapter set not available", "Custom error"]
    );
}

#[test]
fn test_on_status_change() {
    let listener = TestClientListener::new();

    listener.on_status_change("CONNECTING");

    assert!(listener.was_on_status_change_called());
    assert_eq!(listener.get_status_changes(), vec!["CONNECTING"]);

    listener.on_status_change("CONNECTED:WS-STREAMING");
    listener.on_status_change("DISCONNECTED");

    assert_eq!(
        listener.get_status_changes(),
        vec!["CONNECTING", "CONNECTED:WS-STREAMING", "DISCONNECTED"]
    );
}

#[test]
fn test_on_listen_start_and_end() {
    let listener = TestClientListener::new();

    assert!(!listener.was_on_listen_start_called());
    assert!(!listener.was_on_listen_end_called());

    listener.on_listen_start();

    assert!(listener.was_on_listen_start_called());
    assert!(!listener.was_on_listen_end_called());

    listener.on_listen_end();

    assert!(listener.was_on_listen_start_called());
    assert!(listener.was_on_listen_end_called());
}

#[test]
fn test_default_on_listen_start_implementation() {
    let listener = MinimalClientListener;

    // the default implementation is a no-op and must not panic
    listener.on_listen_start();
}

#[test]
fn test_default_on_listen_end_implementation() {
    let listener = MinimalClientListener;

    // the default implementation is a no-op and must not panic
    listener.on_listen_end();
}
