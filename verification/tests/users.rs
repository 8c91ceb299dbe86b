use reactive_engine::dto::UsersDto;
use reactive_engine::latency::Latency;
use reactive_engine::dto::UsersDtoDataStore;
use reactive_engine::keyed::KeyedStore;
use reactive_engine::runtime::Runtime;
use reactive_engine::value::Value;

fn s(v: &str) -> String {
    String::from(v)
}

#[test]
fn users_dto_new_sets_every_field() {
    let u = UsersDto::new(
        Some(7),
        s("Ada Lovelace"),
        s("ada@example.com"),
        Some(s("1815-12-10")),
        3,
    );
    assert_eq!(u.id, Some(7));
    assert_eq!(u.fullname, "Ada Lovelace");
    assert_eq!(u.email, "ada@example.com");
    assert_eq!(u.create_at, Some(s("1815-12-10")));
    assert_eq!(u.ws_id, 3);
}

#[test]
fn users_dto_default_is_the_placeholder_record() {
    let u = UsersDto::default();
    assert_eq!(u.id, Some(-1));
    assert_eq!(u.fullname, "");
    assert_eq!(u.email, "");
    assert_eq!(u.create_at, None);
    assert_eq!(u.ws_id, 0);
}

#[test]
fn user_rows_reconcile_keyed_by_id() {
    let store_rows = UsersDtoDataStore {
        rows: vec![
            UsersDto::new(Some(1), s("A"), s("a@x"), None, 0),
            UsersDto::new(Some(2), s("B"), s("b@x"), Some(s("2024-01-01")), 0),
        ],
    };
    let items = store_rows.row_inputs();
    assert_eq!(items.len(), 2);
    assert!(matches!(items[0].key, Value::Int(1)));
    assert!(matches!(items[1].key, Value::Int(2)));
    assert_eq!(items[0].fields.len(), 4);

    let mut rt = Runtime::new();
    let mut store = KeyedStore::new(4);
    store.reconcile(&mut rt, &items).unwrap();
    assert_eq!(store.len(), 2);
    // renaming user 2 touches only user 2's name cell
    let name_cell_1 = store.cell_at(0, 0);
    let name_cell_2 = store.cell_at(1, 0);
    let v1_before = rt.version(name_cell_1);
    let updated = UsersDtoDataStore {
        rows: vec![
            UsersDto::new(Some(1), s("A"), s("a@x"), None, 0),
            UsersDto::new(Some(2), s("Bea"), s("b@x"), Some(s("2024-01-01")), 0),
        ],
    };
    store.reconcile(&mut rt, &updated.row_inputs()).unwrap();
    assert_eq!(rt.version(name_cell_1), v1_before);
    match rt.peek(name_cell_2) {
        Value::Text(name) => assert_eq!(name, "Bea"),
        other => panic!("expected a text field, got {:?}", other),
    }
}

#[test]
fn value_equality_is_structural() {
    assert!(Value::Int(3).eq_value(&Value::Int(3)));
    assert!(!Value::Int(3).eq_value(&Value::Int(4)));
    assert!(Value::Text(s("ab")).eq_value(&Value::Text(s("ab"))));
    assert!(!Value::Text(s("ab")).eq_value(&Value::Text(s("ba"))));
    assert!(!Value::Int(0).eq_value(&Value::Unit));
    assert!(Value::Unit.eq_value(&Value::Unit));
    assert!(Value::Bool(true).eq_value(&Value::Bool(true)));
    assert!(!Value::Bool(true).eq_value(&Value::Bool(false)));
}

#[test]
fn latency_reports_millis_once_there_is_one() {
    assert_eq!(Latency::new(0).figure(), (0, false));
    assert_eq!(Latency::new(999).figure(), (999, false));
    assert_eq!(Latency::new(1000).figure(), (1, true));
    assert_eq!(Latency::new(2500).figure(), (2, true));
}
