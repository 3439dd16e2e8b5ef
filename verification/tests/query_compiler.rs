use sparrow_core::query::{
    compile, compile_scan, EqualityPredicate, ExecutionPlan, FilterScalar, FilterValue, Query,
    QueryError, Strategy, SCAN_SOCKET_TIMEOUT_MS,
};

fn base_query() -> Query {
    Query {
        namespace: "test".to_string(),
        set: "users".to_string(),
        projection: None,
        keys: None,
        filters: None,
        include_ttl: None,
    }
}

#[test]
fn filters_present_select_indexed_scan() {
    let q = Query {
        filters: Some(vec![("age".to_string(), FilterValue::Int(30))]),
        ..base_query()
    };
    let plan = compile(q).unwrap();
    assert_eq!(
        plan.strategy,
        Strategy::IndexedScan {
            predicates: vec![EqualityPredicate {
                field: "age".to_string(),
                value: FilterScalar::Int(30),
            }],
        }
    );
}

#[test]
fn filters_win_over_keys() {
    let q = Query {
        keys: Some(vec!["k1".to_string()]),
        filters: Some(vec![("active".to_string(), FilterValue::Bool(true))]),
        ..base_query()
    };
    let plan = compile(q).unwrap();
    assert!(matches!(plan.strategy, Strategy::IndexedScan { .. }));
}

#[test]
fn keys_without_filters_select_point_lookup() {
    let q = Query { keys: Some(vec!["k1".to_string(), "k2".to_string()]), ..base_query() };
    let plan = compile(q).unwrap();
    assert_eq!(
        plan.strategy,
        Strategy::PointLookup { keys: vec!["k1".to_string(), "k2".to_string()] }
    );
}

#[test]
fn empty_filters_fall_back_to_keys() {
    let q = Query { keys: Some(vec!["k1".to_string()]), filters: Some(vec![]), ..base_query() };
    let plan = compile(q).unwrap();
    assert_eq!(plan.strategy, Strategy::PointLookup { keys: vec!["k1".to_string()] });
}

#[test]
fn explicitly_empty_key_list_is_rejected() {
    let q = Query { keys: Some(vec![]), ..base_query() };
    assert_eq!(compile(q), Err(QueryError::EmptyKeySet));
}

#[test]
fn neither_keys_nor_filters_is_rejected() {
    assert_eq!(compile(base_query()), Err(QueryError::NothingToExecute));
}

#[test]
fn projection_alone_never_scans_implicitly() {
    let q = Query { projection: Some(vec!["name".to_string()]), ..base_query() };
    assert_eq!(compile(q), Err(QueryError::NothingToExecute));
}

#[test]
fn non_scalar_filter_values_are_skipped() {
    let q = Query {
        filters: Some(vec![
            ("a".to_string(), FilterValue::Null),
            ("b".to_string(), FilterValue::Bool(false)),
            ("c".to_string(), FilterValue::Array),
            ("d".to_string(), FilterValue::Str("x".to_string())),
            ("e".to_string(), FilterValue::Object),
            ("f".to_string(), FilterValue::OtherNumber),
            ("g".to_string(), FilterValue::Int(-4)),
        ]),
        ..base_query()
    };
    let plan = compile(q).unwrap();
    assert_eq!(
        plan.strategy,
        Strategy::IndexedScan {
            predicates: vec![
                EqualityPredicate { field: "b".to_string(), value: FilterScalar::Bool(false) },
                EqualityPredicate {
                    field: "d".to_string(),
                    value: FilterScalar::Str("x".to_string()),
                },
                EqualityPredicate { field: "g".to_string(), value: FilterScalar::Int(-4) },
            ],
        }
    );
}

#[test]
fn plan_keeps_namespace_set_and_projection() {
    let q = Query {
        projection: Some(vec!["name".to_string(), "age".to_string()]),
        keys: Some(vec!["k".to_string()]),
        ..base_query()
    };
    let plan = compile(q).unwrap();
    assert_eq!(plan.namespace, "test".to_string());
    assert_eq!(plan.set, "users".to_string());
    assert_eq!(plan.projection, Some(vec!["name".to_string(), "age".to_string()]));
    assert!(!plan.ttl_filter);
}

#[test]
fn ttl_flag_is_carried_into_the_plan() {
    let q = Query {
        keys: Some(vec!["k".to_string()]),
        include_ttl: Some(true),
        ..base_query()
    };
    assert!(compile(q).unwrap().ttl_filter);
    let q = Query {
        keys: Some(vec!["k".to_string()]),
        include_ttl: Some(false),
        ..base_query()
    };
    assert!(!compile(q).unwrap().ttl_filter);
}

#[test]
fn explicit_scan_is_always_a_bounded_full_scan() {
    let plan: ExecutionPlan = compile_scan("test".to_string(), "users".to_string());
    assert_eq!(plan.namespace, "test".to_string());
    assert_eq!(plan.set, "users".to_string());
    assert_eq!(plan.projection, None);
    assert_eq!(plan.strategy, Strategy::FullScan { socket_timeout_ms: SCAN_SOCKET_TIMEOUT_MS });
    assert!(!plan.ttl_filter);
}
