use std::cell::RefCell;
use std::rc::Rc;

use lightstreamer_client::client_listener::ClientListener;
use lightstreamer_client::connection_details::ConnectionDetails;

struct MockClientListener {
    property_changes: Rc<RefCell<Vec<String>>>,
}

impl ClientListener for MockClientListener {
    fn on_property_change(&self, property: &str) {
        self.property_changes.borrow_mut().push(property.to_string());
    }
}

#[test]
fn test_new_connection_details() {
    // all values provided
    let result = ConnectionDetails::new(
        Some("http://test.lightstreamer.com"),
        Some("DEMO"),
        Some("user1"),
        Some("pass1"),
    );
    assert!(result.is_ok());
    let details = result.unwrap();
    assert_eq!(details.get_server_address().unwrap(), "http://test.lightstreamer.com");
    assert_eq!(details.get_adapter_set().unwrap(), "DEMO");
    assert_eq!(details.get_user().unwrap(), "user1");
    assert_eq!(details.get_password().unwrap(), "pass1");

    // only the mandatory values
    let result = ConnectionDetails::new(Some("http://test.lightstreamer.com"), None, None, None);
    assert!(result.is_ok());
    let details = result.unwrap();
    assert_eq!(details.get_server_address().unwrap(), "http://test.lightstreamer.com");
    assert_eq!(details.get_adapter_set().unwrap(), "DEFAULT");
    assert_eq!(details.get_user(), None);
    assert_eq!(details.get_password(), None);

    // an invalid server address
    let result = ConnectionDetails::new(Some("invalid-url"), None, None, None);
    assert!(result.is_err());
}

#[test]
fn test_set_server_address() {
    let mut details = ConnectionDetails::default();

    assert!(details.set_server_address(Some("http://test.lightstreamer.com".to_string())).is_ok());
    assert_eq!(details.get_server_address().unwrap(), "http://test.lightstreamer.com");

    assert!(details.set_server_address(Some("https://test.lightstreamer.com".to_string())).is_ok());
    assert_eq!(details.get_server_address().unwrap(), "https://test.lightstreamer.com");

    assert!(
        details.set_server_address(Some("https://test.lightstreamer.com:8080".to_string())).is_ok()
    );
    assert_eq!(details.get_server_address().unwrap(), "https://test.lightstreamer.com:8080");

    assert!(details.set_server_address(Some("test.lightstreamer.com".to_string())).is_err());

    assert!(details.set_server_address(None).is_ok());
    assert_eq!(details.get_server_address(), None);
}

#[test]
fn test_set_adapter_set() {
    let mut details = ConnectionDetails::default();

    details.set_adapter_set(Some("TEST_ADAPTER".to_string()));
    assert_eq!(details.get_adapter_set().unwrap(), "TEST_ADAPTER");

    // a missing adapter set falls back to DEFAULT
    details.set_adapter_set(None);
    assert_eq!(details.get_adapter_set().unwrap(), "DEFAULT");
}

#[test]
fn test_set_user_and_password() {
    let mut details = ConnectionDetails::default();

    details.set_user(Some("test_user".to_string()));
    assert_eq!(details.get_user().unwrap(), "test_user");

    details.set_user(None);
    assert_eq!(details.get_user(), None);

    details.set_password(Some("test_password".to_string()));
    assert_eq!(details.get_password().unwrap(), "test_password");

    details.set_password(None);
    assert_eq!(details.get_password(), None);
}

#[test]
fn test_property_change_notifications() {
    let mut details = ConnectionDetails::default();
    let changes: Rc<RefCell<Vec<String>>> = Rc::new(RefCell::new(Vec::new()));
    let listener = Box::new(MockClientListener { property_changes: Rc::clone(&changes) });

    details.add_listener(listener);

    assert!(details.set_server_address(Some("http://test.lightstreamer.com".to_string())).is_ok());
    details.set_adapter_set(Some("TEST_ADAPTER".to_string()));
    details.set_user(Some("test_user".to_string()));
    details.set_password(Some("test_password".to_string()));

    let seen = changes.borrow().clone();
    assert!(seen.contains(&"serverAddress".to_string()));
    assert!(seen.contains(&"adapterSet".to_string()));
    assert!(seen.contains(&"user".to_string()));
    assert!(seen.contains(&"password".to_string()));
}

#[test]
fn test_default_connection_details() {
    let details = ConnectionDetails::default();

    assert_eq!(details.get_server_address(), None);
    assert_eq!(details.get_adapter_set(), None);
    assert_eq!(details.get_user(), None);
    assert_eq!(details.get_password(), None);
    assert_eq!(details.get_client_ip(), None);
    assert_eq!(details.get_server_instance_address(), None);
    assert_eq!(details.get_server_socket_name(), None);
    assert_eq!(details.get_session_id(), None);
}
