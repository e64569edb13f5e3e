//! Attribute list construction and lookup.

use sax::{Attribute, Attributes};

fn get_mock_atts() -> Attributes {
    Attributes(vec![
        Attribute { name: "foo".to_string(), value: "0".to_string() },
        Attribute { name: "bar".to_string(), value: "1".to_string() },
        Attribute { name: "baz".to_string(), value: "2".to_string() },
    ])
}

#[test]
fn sax_test_att_get() {
    let atts = get_mock_atts();
    assert_eq!(atts.get("foo"), "0");
    assert_eq!(atts.get("bar"), "1");
    assert_eq!(atts.get("baz"), "2");
}

#[test]
fn sax_test_att_find() {
    let atts = get_mock_atts();
    assert_eq!(atts.find("foo"), Some("0"));
    assert_eq!(atts.find("bar"), Some("1"));
    assert_eq!(atts.find("baz"), Some("2"));
}

#[test]
fn lib_test_att_get() {
    let atts = get_mock_atts();
    assert_eq!(atts.get("foo"), "0");
    assert_eq!(atts.get("bar"), "1");
    assert_eq!(atts.get("baz"), "2");
}

#[test]
fn lib_test_att_find() {
    let atts = get_mock_atts();
    assert_eq!(atts.find("foo"), Some("0"));
    assert_eq!(atts.find("bar"), Some("1"));
    assert_eq!(atts.find("baz"), Some("2"));
}

#[test]
fn find_missing_yields_none() {
    let atts = get_mock_atts();
    assert_eq!(atts.find("qux"), None);
    assert_eq!(atts.find_clone("qux"), None);
}

#[test]
fn find_clone_copies_the_value() {
    let atts = get_mock_atts();
    assert_eq!(atts.find_clone("foo"), Some("0".to_string()));
    assert_eq!(atts.get_clone("baz"), "2".to_string());
}

#[test]
fn find_on_duplicates_takes_the_first() {
    let atts = Attributes(vec![
        Attribute { name: "k".to_string(), value: "first".to_string() },
        Attribute { name: "other".to_string(), value: "x".to_string() },
        Attribute { name: "k".to_string(), value: "second".to_string() },
    ]);
    assert_eq!(atts.find("k"), Some("first"));
    // The duplicate is preserved in the list, not collapsed.
    assert_eq!(atts.0.len(), 3);
}

#[test]
fn from_buf_decodes_pairs_in_order() {
    let entries = vec![
        Some("foo".to_string()),
        Some("0".to_string()),
        Some("bar".to_string()),
        Some("1".to_string()),
    ];
    let atts = Attributes::from_buf(&entries);
    assert_eq!(
        atts,
        Attributes(vec![
            Attribute { name: "foo".to_string(), value: "0".to_string() },
            Attribute { name: "bar".to_string(), value: "1".to_string() },
        ])
    );
}

#[test]
fn from_buf_of_empty_buffer_is_empty() {
    let atts = Attributes::from_buf(&Vec::new());
    assert_eq!(atts, Attributes(Vec::new()));
}

#[test]
fn from_buf_stops_at_absent_name() {
    let entries = vec![
        Some("foo".to_string()),
        Some("0".to_string()),
        None,
        Some("ignored".to_string()),
        Some("bar".to_string()),
        Some("1".to_string()),
    ];
    let atts = Attributes::from_buf(&entries);
    assert_eq!(
        atts,
        Attributes(vec![Attribute { name: "foo".to_string(), value: "0".to_string() }])
    );
}

#[test]
fn from_buf_stops_at_truncated_pair() {
    let entries = vec![
        Some("foo".to_string()),
        Some("0".to_string()),
        Some("dangling".to_string()),
    ];
    let atts = Attributes::from_buf(&entries);
    assert_eq!(
        atts,
        Attributes(vec![Attribute { name: "foo".to_string(), value: "0".to_string() }])
    );
}

#[test]
fn attributes_render_as_tag_segments() {
    let atts = get_mock_atts();
    assert_eq!(atts.to_text(), " foo=\"0\" bar=\"1\" baz=\"2\"");
}
