use lightstreamer_client::subscription::{
    MaxFrequency, Snapshot, Subscription, SubscriptionMode,
};

fn items(names: &[&str]) -> Option<Vec<String>> {
    Some(names.iter().map(|s| s.to_string()).collect())
}

#[test]
fn test_new_subscription_requires_items_and_fields() {
    assert!(Subscription::new(SubscriptionMode::Merge, None, items(&["f"])).is_err());
    assert!(Subscription::new(SubscriptionMode::Merge, items(&["item1"]), None).is_err());

    let sub = Subscription::new(SubscriptionMode::Merge, items(&["item1"]), items(&["f"])).unwrap();
    assert!(!sub.is_active());
    assert!(!sub.is_subscribed());
    assert_eq!(*sub.get_mode(), SubscriptionMode::Merge);
    assert_eq!(sub.get_items().unwrap(), &vec!["item1".to_string()]);
    assert_eq!(sub.get_fields().unwrap(), &vec!["f".to_string()]);
}

#[test]
fn test_set_items_validation() {
    let mut sub =
        Subscription::new(SubscriptionMode::Merge, items(&["item1"]), items(&["f"])).unwrap();

    // a name with a space, a number, or an empty name is refused
    assert!(sub.set_items(vec!["has space".to_string()]).is_err());
    assert!(sub.set_items(vec!["42".to_string()]).is_err());
    assert!(sub.set_items(vec!["".to_string()]).is_err());

    assert!(sub.set_items(vec!["item2".to_string(), "item3".to_string()]).is_ok());
    assert_eq!(sub.get_items().unwrap().len(), 2);

    // an item group overrides the item list
    assert!(sub.set_item_group("G1".to_string()).is_ok());
    assert_eq!(sub.get_item_group().unwrap(), "G1");
    assert_eq!(sub.get_items(), None);
}

#[test]
fn test_set_fields_validation() {
    let mut sub =
        Subscription::new(SubscriptionMode::Merge, items(&["item1"]), items(&["f"])).unwrap();

    assert!(sub.set_fields(vec!["bad field".to_string()]).is_err());
    assert!(sub.set_fields(vec!["".to_string()]).is_err());

    assert!(sub.set_fields(vec!["a".to_string(), "b".to_string()]).is_ok());
    assert_eq!(sub.get_fields().unwrap().len(), 2);

    assert!(sub.set_field_schema("S1".to_string()).is_ok());
    assert_eq!(sub.get_field_schema().unwrap(), "S1");
    assert_eq!(sub.get_fields(), None);
}

#[test]
fn test_setters_refused_while_active() {
    let mut sub =
        Subscription::new(SubscriptionMode::Merge, items(&["item1"]), items(&["f"])).unwrap();
    sub.activate().unwrap();
    assert!(sub.is_active());

    assert!(sub.set_items(vec!["item2".to_string()]).is_err());
    assert!(sub.set_fields(vec!["g".to_string()]).is_err());
    assert!(sub.set_item_group("G".to_string()).is_err());
    assert!(sub.set_field_schema("S".to_string()).is_err());
    assert!(sub.set_data_adapter(Some("A".to_string())).is_err());
    assert!(sub.set_requested_buffer_size(Some(10)).is_err());
    assert!(sub.set_requested_snapshot(Some(Snapshot::Yes)).is_err());
    assert!(sub.set_selector(Some("sel".to_string())).is_err());

    // a second activation is refused too
    assert!(sub.activate().is_err());

    // the refused calls changed nothing
    assert_eq!(sub.get_items().unwrap(), &vec!["item1".to_string()]);
    assert_eq!(sub.get_fields().unwrap(), &vec!["f".to_string()]);
    assert_eq!(sub.get_data_adapter(), None);
}

#[test]
fn test_second_level_setters_demand_command_mode() {
    let mut merge =
        Subscription::new(SubscriptionMode::Merge, items(&["item1"]), items(&["f"])).unwrap();
    assert!(merge.set_command_second_level_fields(Some(vec!["x".to_string()])).is_err());
    assert!(merge.set_command_second_level_field_schema(Some("S".to_string())).is_err());
    assert!(merge.set_command_second_level_data_adapter(Some("A".to_string())).is_err());
    assert_eq!(merge.get_command_second_level_fields(), None);
    assert_eq!(merge.get_command_second_level_field_schema(), None);
    assert_eq!(merge.get_command_second_level_data_adapter(), None);

    let mut cmd = Subscription::new(
        SubscriptionMode::Command,
        items(&["item1"]),
        items(&["key", "command", "data"]),
    )
    .unwrap();
    assert!(cmd.set_command_second_level_fields(Some(vec!["x".to_string()])).is_ok());
    assert_eq!(cmd.get_command_second_level_fields().unwrap(), &vec!["x".to_string()]);
    assert!(cmd.set_command_second_level_fields(Some(vec!["bad name".to_string()])).is_err());
    assert!(cmd.set_command_second_level_field_schema(Some("S2".to_string())).is_ok());
    assert_eq!(cmd.get_command_second_level_field_schema().unwrap(), "S2");
    assert!(cmd.set_command_second_level_data_adapter(Some("A2".to_string())).is_ok());
    assert_eq!(cmd.get_command_second_level_data_adapter().unwrap(), "A2");
}

#[test]
fn test_set_requested_snapshot_validation() {
    let mut raw =
        Subscription::new(SubscriptionMode::Raw, items(&["item1"]), items(&["f"])).unwrap();
    // RAW admits only the no-preference form
    assert!(raw.set_requested_snapshot(Some(Snapshot::Yes)).is_err());
    assert!(raw.set_requested_snapshot(Some(Snapshot::No)).is_err());
    assert!(raw.set_requested_snapshot(Some(Snapshot::Number(3))).is_err());
    assert!(raw.set_requested_snapshot(Some(Snapshot::Unset)).is_ok());

    let mut merge =
        Subscription::new(SubscriptionMode::Merge, items(&["item1"]), items(&["f"])).unwrap();
    assert!(merge.set_requested_snapshot(Some(Snapshot::Yes)).is_ok());
    assert_eq!(merge.get_requested_snapshot(), Some(Snapshot::Yes));
    // a snapshot length is for DISTINCT only
    assert!(merge.set_requested_snapshot(Some(Snapshot::Number(5))).is_err());

    let mut distinct =
        Subscription::new(SubscriptionMode::Distinct, items(&["item1"]), items(&["f"])).unwrap();
    assert!(distinct.set_requested_snapshot(Some(Snapshot::Number(5))).is_ok());
    assert_eq!(distinct.get_requested_snapshot(), Some(Snapshot::Number(5)));
}

#[test]
fn test_set_requested_max_frequency_validation() {
    let mut sub =
        Subscription::new(SubscriptionMode::Merge, items(&["item1"]), items(&["f"])).unwrap();

    assert!(sub.set_requested_max_frequency(Some(MaxFrequency::Limited(0))).is_err());
    assert!(sub.set_requested_max_frequency(Some(MaxFrequency::Limited(500))).is_ok());
    assert_eq!(sub.get_requested_max_frequency(), Some(MaxFrequency::Limited(500)));

    sub.activate().unwrap();
    // while active the limit can still move, but not into or out of
    // unfiltered dispatching
    assert!(sub.set_requested_max_frequency(Some(MaxFrequency::Limited(1000))).is_ok());
    assert!(sub.set_requested_max_frequency(Some(MaxFrequency::Unfiltered)).is_err());
    assert!(sub.set_requested_max_frequency(None).is_err());

    let mut unfiltered =
        Subscription::new(SubscriptionMode::Merge, items(&["item1"]), items(&["f"])).unwrap();
    assert!(unfiltered.set_requested_max_frequency(Some(MaxFrequency::Unfiltered)).is_ok());
    unfiltered.activate().unwrap();
    assert!(unfiltered.set_requested_max_frequency(Some(MaxFrequency::Limited(100))).is_err());
}

#[test]
fn test_mode_and_snapshot_strings() {
    assert_eq!(SubscriptionMode::Merge.to_string(), "MERGE");
    assert_eq!(SubscriptionMode::Distinct.to_string(), "DISTINCT");
    assert_eq!(SubscriptionMode::Raw.to_string(), "RAW");
    assert_eq!(SubscriptionMode::Command.to_string(), "COMMAND");

    assert_eq!(Snapshot::Yes.to_string(), "true");
    assert_eq!(Snapshot::No.to_string(), "false");
    assert_eq!(Snapshot::Number(33).to_string(), "33");
    assert_eq!(Snapshot::Unset.to_string(), "none");
}

#[test]
fn test_key_and_command_positions() {
    let mut sub = Subscription::new(
        SubscriptionMode::Command,
        items(&["item1"]),
        items(&["key", "command", "data"]),
    )
    .unwrap();

    // before the server establishes the subscription nothing is known
    assert_eq!(sub.get_key_position(), None);
    assert_eq!(sub.get_command_position(), None);

    sub.activate().unwrap();
    sub.on_subscribed(3, Some(1), Some(2));
    assert_eq!(sub.get_key_position(), Some(1));
    assert_eq!(sub.get_command_position(), Some(2));

    // in any other mode the positions stay unknown
    let mut merge =
        Subscription::new(SubscriptionMode::Merge, items(&["item1"]), items(&["f"])).unwrap();
    merge.activate().unwrap();
    merge.on_subscribed(1, Some(1), Some(1));
    assert_eq!(merge.get_key_position(), None);
    assert_eq!(merge.get_command_position(), None);
}

#[test]
fn test_positions_from_field_schema() {
    let mut sub = Subscription::new(
        SubscriptionMode::Command,
        items(&["item1"]),
        items(&["f0"]),
    )
    .unwrap();
    sub.set_field_schema("key, command, value".to_string()).unwrap();
    sub.activate().unwrap();
    // the server announced no positions, so the schema names them
    sub.on_subscribed(3, None, None);
    assert_eq!(sub.get_key_position(), Some(1));
    assert_eq!(sub.get_command_position(), Some(2));
}

#[test]
fn test_unsubscribe_clears_caches() {
    let mut sub = Subscription::new(
        SubscriptionMode::Command,
        items(&["item1"]),
        items(&["key", "command", "data"]),
    )
    .unwrap();
    sub.activate().unwrap();
    sub.on_subscribed(3, Some(1), Some(2));

    sub.apply_update(None, 1, "k1|ADD|v1", false).unwrap();
    assert_eq!(sub.get_value(1, 3).unwrap(), "v1");
    assert_eq!(sub.get_command_value(1, "k1", 3).unwrap(), "v1");

    sub.on_unsubscribed();
    assert!(!sub.is_active());
    assert!(!sub.is_subscribed());
    assert_eq!(sub.get_value(1, 3), None);
    assert_eq!(sub.get_command_value(1, "k1", 3), None);
}
