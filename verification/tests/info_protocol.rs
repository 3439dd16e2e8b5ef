use sparrow_core::info::{parse_namespace_list, parse_set_stats_list, SetStats};

#[test]
fn namespace_list_two_entries() {
    assert_eq!(parse_namespace_list("test;bar"), vec!["test".to_string(), "bar".to_string()]);
}

#[test]
fn namespace_list_empty_input_yields_no_namespaces() {
    assert_eq!(parse_namespace_list(""), Vec::<String>::new());
}

#[test]
fn namespace_list_single_entry() {
    assert_eq!(parse_namespace_list("test"), vec!["test".to_string()]);
}

#[test]
fn set_stats_one_record_per_complete_entry() {
    let got = parse_set_stats_list("set=a:objects=3;set=b:objects=5:memory_data_bytes=100");
    assert_eq!(
        got,
        vec![
            SetStats { set: "a".to_string(), objects: "3".to_string(), size_bytes: None },
            SetStats {
                set: "b".to_string(),
                objects: "5".to_string(),
                size_bytes: Some("100".to_string()),
            },
        ]
    );
}

#[test]
fn set_stats_entry_missing_required_key_is_dropped() {
    let got = parse_set_stats_list("set=x;set=y:objects=2");
    assert_eq!(
        got,
        vec![SetStats { set: "y".to_string(), objects: "2".to_string(), size_bytes: None }]
    );
    let got = parse_set_stats_list("objects=9:memory_data_bytes=1");
    assert_eq!(got, Vec::<SetStats>::new());
}

#[test]
fn set_stats_empty_input_yields_no_records() {
    assert_eq!(parse_set_stats_list(""), Vec::<SetStats>::new());
}

#[test]
fn set_stats_unknown_keys_are_ignored() {
    let got = parse_set_stats_list("ns=test:set=users:objects=1024:stop-writes-count=0");
    assert_eq!(
        got,
        vec![SetStats { set: "users".to_string(), objects: "1024".to_string(), size_bytes: None }]
    );
}

#[test]
fn set_stats_field_order_does_not_matter() {
    let got = parse_set_stats_list("memory_data_bytes=65536:objects=7:set=orders");
    assert_eq!(
        got,
        vec![SetStats {
            set: "orders".to_string(),
            objects: "7".to_string(),
            size_bytes: Some("65536".to_string()),
        }]
    );
}

#[test]
fn set_stats_value_keeps_everything_after_first_equals() {
    let got = parse_set_stats_list("set=a=b:objects=3");
    assert_eq!(
        got,
        vec![SetStats { set: "a=b".to_string(), objects: "3".to_string(), size_bytes: None }]
    );
}

#[test]
fn namespace_list_keeps_empty_tokens() {
    assert_eq!(parse_namespace_list("a;"), vec!["a".to_string(), String::new()]);
    assert_eq!(parse_namespace_list(";"), vec![String::new(), String::new()]);
}

#[test]
fn bare_word_is_no_key_value_field() {
    // `set` without an `=` does not count as the required `set=` field.
    assert_eq!(parse_set_stats_list("set:objects=3"), Vec::<SetStats>::new());
    let got = parse_set_stats_list("set=:objects=3");
    assert_eq!(
        got,
        vec![SetStats { set: String::new(), objects: "3".to_string(), size_bytes: None }]
    );
}

#[test]
fn set_stats_later_repetition_of_a_key_wins() {
    let got = parse_set_stats_list("set=a:objects=1:objects=2");
    assert_eq!(
        got,
        vec![SetStats { set: "a".to_string(), objects: "2".to_string(), size_bytes: None }]
    );
}
