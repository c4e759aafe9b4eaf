use colony_merge::{
    choose_colony, csv_rows, load_document, merge_sets, Colony, ColonySet, DataError, Field,
    JsonValue, Num, Status, Timestamp,
};

fn colony(id: u32, secs: i64, active: bool) -> Colony {
    Colony {
        id,
        x: Num::Int(0),
        y: Num::Int(0),
        visited: true,
        active,
        updated: Timestamp { secs, nanos: 0 },
    }
}

fn set_of(colonies: Vec<Colony>) -> ColonySet {
    let mut s = ColonySet::new();
    for c in colonies {
        s.insert(c);
    }
    s
}

#[test]
fn choose_keeps_id_and_later_wins() {
    let a = colony(7, 100, true);
    let b = colony(7, 200, false);
    assert_eq!(choose_colony(a, b).id, 7);
    assert_eq!(choose_colony(a, b), b);
    assert_eq!(choose_colony(b, a), b);

    // Nanoseconds break a seconds tie.
    let c = Colony { updated: Timestamp { secs: 100, nanos: 5 }, ..a };
    assert_eq!(choose_colony(a, c), c);
}

#[test]
fn choose_tie_prefers_active_then_first() {
    let inactive = colony(3, 50, false);
    let active = colony(3, 50, true);
    assert_eq!(choose_colony(inactive, active), active);
    assert_eq!(choose_colony(active, inactive), active);

    // Full tie: the first argument is kept, the same one every time.
    let other = Colony { x: Num::Int(9), ..inactive };
    assert_eq!(choose_colony(inactive, other), inactive);
    assert_eq!(choose_colony(inactive, other), choose_colony(inactive, other));
}

#[test]
fn merge_disjoint_is_union() {
    let s1 = set_of(vec![colony(1, 10, true), colony(2, 20, false)]);
    let s2 = set_of(vec![colony(3, 30, true)]);
    let merged = merge_sets(s1, s2);
    assert_eq!(merged.len(), 3);
    assert_eq!(*merged.get(1).unwrap(), colony(1, 10, true));
    assert_eq!(*merged.get(2).unwrap(), colony(2, 20, false));
    assert_eq!(*merged.get(3).unwrap(), colony(3, 30, true));
}

#[test]
fn merge_with_self_is_idempotent() {
    let build = || set_of(vec![colony(1, 10, true), colony(2, 20, false)]);
    let once = merge_sets(build(), build());
    let twice = merge_sets(merge_sets(build(), build()), build());
    assert_eq!(once.len(), 2);
    assert_eq!(twice.len(), 2);
    for id in [1u32, 2u32] {
        assert_eq!(once.get(id), twice.get(id));
        assert_eq!(*once.get(id).unwrap(), *build().get(id).unwrap());
    }
}

#[test]
fn merge_collision_later_timestamp_wins() {
    let older = colony(5, 100, true);
    let newer = colony(5, 300, false);
    let merged = merge_sets(set_of(vec![older]), set_of(vec![newer]));
    assert_eq!(merged.len(), 1);
    assert_eq!(*merged.get(5).unwrap(), newer);
}

fn record(id: i64, x: f64, y: f64, visited: bool, active: bool, modified: &str) -> JsonValue {
    JsonValue::Object(vec![
        ("id".to_string(), JsonValue::Int(id)),
        ("x".to_string(), JsonValue::Float(x.to_bits())),
        ("y".to_string(), JsonValue::Float(y.to_bits())),
        ("visited".to_string(), JsonValue::Bool(visited)),
        ("active".to_string(), JsonValue::Bool(active)),
        ("modified".to_string(), JsonValue::Str(modified.to_string())),
    ])
}

fn document(records: Vec<JsonValue>) -> JsonValue {
    JsonValue::Object(vec![("colonies".to_string(), JsonValue::Array(records))])
}

#[test]
fn two_sources_reconcile_to_csv_row() {
    let doc_a = document(vec![record(1, 1.0, 2.0, true, true, "2020-01-01T00:00:00Z")]);
    let doc_b = document(vec![record(1, 9.0, 9.0, true, false, "2021-01-01T00:00:00Z")]);
    let (set_a, errs_a) = load_document(&doc_a).unwrap();
    let (set_b, errs_b) = load_document(&doc_b).unwrap();
    assert!(errs_a.is_empty());
    assert!(errs_b.is_empty());
    let merged = merge_sets(set_a, set_b);
    let b = *merged.get(1).unwrap();
    assert!(!b.active);
    assert_eq!(b.x, Num::Float((9.0f64).to_bits()));
    let rows = csv_rows(&merged);
    assert_eq!(rows.len(), 1);
    assert_eq!(rows[0].id, 1);
    assert_eq!(rows[0].x, 9);
    assert_eq!(rows[0].y, 9);
    assert_eq!(rows[0].status, Status::NotActive);
    assert_eq!(rows[0].status.text(), "NA");
}

#[test]
fn missing_colonies_key_fails_load() {
    let doc = JsonValue::Object(vec![("other".to_string(), JsonValue::Int(1))]);
    assert_eq!(load_document(&doc).unwrap_err(), DataError::MissingColoniesArray);

    let doc = JsonValue::Object(vec![("colonies".to_string(), JsonValue::Int(1))]);
    assert_eq!(load_document(&doc).unwrap_err(), DataError::MissingColoniesArray);
}

#[test]
fn non_object_root_fails_load() {
    let doc = JsonValue::Array(vec![]);
    assert_eq!(load_document(&doc).unwrap_err(), DataError::RootNotObject);
}

#[test]
fn bad_records_skipped_and_reported() {
    let bad = vec![
        ("id".to_string(), JsonValue::Int(2)),
        ("y".to_string(), JsonValue::Int(0)),
        ("visited".to_string(), JsonValue::Bool(false)),
        ("active".to_string(), JsonValue::Bool(false)),
        ("modified".to_string(), JsonValue::Null),
    ];
    let doc = document(vec![
        record(1, 0.0, 0.0, false, false, "2020-01-01T00:00:00Z"),
        JsonValue::Object(bad),
    ]);
    let (set, errors) = load_document(&doc).unwrap();
    assert_eq!(set.len(), 1);
    assert!(set.contains(1));
    assert!(!set.contains(2));
    assert_eq!(errors, vec![DataError::MissingField(Field::X)]);
}

#[test]
fn duplicate_id_in_one_source_last_wins() {
    let doc = document(vec![
        record(4, 1.0, 1.0, true, true, "2020-01-01T00:00:00Z"),
        record(4, 2.0, 2.0, false, false, "1990-01-01T00:00:00Z"),
    ]);
    let (set, errors) = load_document(&doc).unwrap();
    assert!(errors.is_empty());
    assert_eq!(set.len(), 1);
    let kept = *set.get(4).unwrap();
    assert_eq!(kept.x, Num::Float((2.0f64).to_bits()));
    assert!(!kept.visited);
}

#[test]
fn empty_document_loads_empty_set() {
    let (set, errors) = load_document(&document(vec![])).unwrap();
    assert_eq!(set.len(), 0);
    assert!(errors.is_empty());
    assert_eq!(csv_rows(&set).len(), 0);
}

#[test]
fn status_column_per_state() {
    let unvisited = Colony { visited: false, active: true, ..colony(1, 0, true) };
    let active = colony(2, 0, true);
    let not_active = colony(3, 0, false);
    let set = set_of(vec![unvisited, active, not_active]);
    let rows = csv_rows(&set);
    assert_eq!(rows.len(), 3);
    for row in rows {
        match row.id {
            1 => {
                assert_eq!(row.status, Status::Unvisited);
                assert_eq!(row.status.text(), "");
            }
            2 => assert_eq!(row.status.text(), "A"),
            3 => assert_eq!(row.status.text(), "NA"),
            _ => panic!("unexpected id"),
        }
    }
}

#[test]
fn timestamp_order_is_lexicographic() {
    let early = Timestamp { secs: 10, nanos: 999 };
    let later_secs = Timestamp { secs: 11, nanos: 0 };
    let later_nanos = Timestamp { secs: 10, nanos: 1000 };
    assert!(early.is_before(&later_secs));
    assert!(early.is_before(&later_nanos));
    assert!(!later_secs.is_before(&early));
    assert!(!early.is_before(&early));
}

#[test]
fn insert_replaces_same_id() {
    let mut set = ColonySet::new();
    set.insert(colony(9, 1, true));
    set.insert(colony(9, 2, false));
    assert_eq!(set.len(), 1);
    assert_eq!(*set.get(9).unwrap(), colony(9, 2, false));
    assert!(set.get(8).is_none());
}
