use lightstreamer_client::codec::{decode_field_tokens, FieldToken};
use lightstreamer_client::item_update::ItemUpdate;

fn strings(names: &[&str]) -> Vec<String> {
    names.iter().map(|s| s.to_string()).collect()
}

#[test]
fn test_decode_field_tokens_forms() {
    // the five token forms: literal, unchanged, null, empty string, skip
    let tokens = decode_field_tokens("ACME||#|$|^2").unwrap();
    assert_eq!(
        tokens,
        vec![
            FieldToken::Value("ACME".to_string()),
            FieldToken::Unchanged,
            FieldToken::SetNull,
            FieldToken::SetEmpty,
            FieldToken::Skip(2),
        ]
    );
}

#[test]
fn test_decode_field_tokens_unescapes() {
    let tokens = decode_field_tokens("a\\|b|c\\\\d").unwrap();
    assert_eq!(
        tokens,
        vec![FieldToken::Value("a|b".to_string()), FieldToken::Value("c\\d".to_string())]
    );
}

#[test]
fn test_decode_field_tokens_refuses_unknown_delta() {
    // a caret piece that carries no plain count is a delta form the library
    // does not speak
    assert_eq!(decode_field_tokens("^Pfoo|x"), None);
}

#[test]
fn test_item_update_accessors() {
    let update = ItemUpdate::new(
        Some("item1".to_string()),
        1,
        strings(&["stock_name", "last_price"]),
        vec![Some("ACME".to_string()), None],
        vec![true, false],
        vec![None, None],
        true,
    )
    .unwrap();

    assert_eq!(update.get_item_name(), Some("item1"));
    assert_eq!(update.get_item_pos(), 1);
    assert!(update.is_snapshot());

    // addressing by name and by 1-based position agree
    assert_eq!(update.get_value("stock_name").unwrap(), "ACME");
    assert_eq!(update.get_value("1").unwrap(), "ACME");
    assert_eq!(update.get_value("last_price"), None);
    assert_eq!(update.get_value("2"), None);
    assert_eq!(update.get_value("no_such_field"), None);

    assert!(update.is_value_changed("stock_name"));
    assert!(update.is_value_changed("1"));
    assert!(!update.is_value_changed("last_price"));
    assert!(!update.is_value_changed("missing"));

    assert_eq!(update.get_field_position("last_price").unwrap(), 2);
    assert!(update.get_field_position("missing").is_err());

    assert_eq!(update.get_value_as_json_patch_if_available("stock_name"), None);

    let fields = update.get_fields();
    assert_eq!(
        fields,
        vec![
            ("stock_name".to_string(), Some("ACME".to_string())),
            ("last_price".to_string(), None),
        ]
    );
    let by_pos = update.get_fields_by_position();
    assert_eq!(by_pos, vec![(1, Some("ACME".to_string())), (2, None)]);

    let changed = update.get_changed_fields();
    assert_eq!(changed, vec![("stock_name".to_string(), Some("ACME".to_string()))]);
    let changed_by_pos = update.get_changed_fields_by_position();
    assert_eq!(changed_by_pos, vec![(1, Some("ACME".to_string()))]);
}

#[test]
fn test_item_update_refuses_ragged_columns() {
    let r = ItemUpdate::new(
        None,
        1,
        strings(&["a", "b"]),
        vec![None],
        vec![false, false],
        vec![None, None],
        false,
    );
    assert!(r.is_err());
}
