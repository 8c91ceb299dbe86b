use reactive_engine::keyed::KeyedStore;
use reactive_engine::keyed::RowInput;
use reactive_engine::runtime::Runtime;
use reactive_engine::sched::FlushStep;
use reactive_engine::value::Value;
use reactive_engine::EngineError;

fn val(s: &str) -> Value {
    Value::Text(String::from(s))
}

fn row1(key: &str, field: &str) -> RowInput {
    RowInput { key: val(key), fields: vec![val(field)] }
}

fn text_of(v: Value) -> String {
    match v {
        Value::Text(s) => s,
        _ => panic!("expected a text value"),
    }
}

#[test]
fn identity_is_preserved_and_only_the_changed_field_written() {
    let mut rt = Runtime::new();
    let mut store = KeyedStore::new(2);
    let items = vec![RowInput { key: val("1"), fields: vec![val("A"), val("x")] }];
    store.reconcile(&mut rt, &items).unwrap();
    // capture the field-cell identities before the update
    let name_cell = store.cell_at(0, 0);
    let other_cell = store.cell_at(0, 1);
    let other_version = rt.version(other_cell);

    let items2 = vec![RowInput { key: val("1"), fields: vec![val("B"), val("x")] }];
    store.reconcile(&mut rt, &items2).unwrap();
    assert_eq!(store.len(), 1);
    // the same cells back the row: no new row identity was constructed
    assert_eq!(store.cell_at(0, 0), name_cell);
    assert_eq!(store.cell_at(0, 1), other_cell);
    assert_eq!(text_of(rt.peek(name_cell)), "B");
    // the untouched field cell was not even written
    assert_eq!(rt.version(other_cell), other_version);
}

#[test]
fn untouched_field_does_not_rerun_its_subscriber() {
    let mut rt = Runtime::new();
    let mut store = KeyedStore::new(2);
    let items = vec![RowInput { key: val("1"), fields: vec![val("A"), val("x")] }];
    store.reconcile(&mut rt, &items).unwrap();
    let name_cell = store.cell_at(0, 0);
    let other_cell = store.cell_at(0, 1);
    // one effect per field
    let e_name = rt.new_effect(false);
    rt.begin_run(e_name);
    let _ = rt.read(name_cell);
    rt.end_effect_run(e_name);
    let e_other = rt.new_effect(false);
    rt.begin_run(e_other);
    let _ = rt.read(other_cell);
    rt.end_effect_run(e_other);

    let items2 = vec![RowInput { key: val("1"), fields: vec![val("B"), val("x")] }];
    store.reconcile(&mut rt, &items2).unwrap();
    rt.flush_start();
    let mut ran = Vec::new();
    loop {
        match rt.flush_next().unwrap() {
            FlushStep::RunEffect(e) => {
                rt.begin_run(e);
                let _ = rt.read(if e == e_name { name_cell } else { other_cell });
                rt.end_effect_run(e);
                ran.push(e);
            }
            FlushStep::RunMemo(_) => panic!("no memo exists"),
            FlushStep::Done => break,
        }
    }
    assert_eq!(ran, vec![e_name], "only the changed field's subscriber runs");
}

#[test]
fn structural_diff_removes_retains_and_appends() {
    let mut rt = Runtime::new();
    let mut store = KeyedStore::new(1);
    let items = vec![row1("1", "one"), row1("2", "two")];
    store.reconcile(&mut rt, &items).unwrap();
    let cell_row1 = store.cell_at(0, 0);
    let cell_row2 = store.cell_at(1, 0);

    let items2 = vec![row1("2", "two"), row1("3", "three")];
    store.reconcile(&mut rt, &items2).unwrap();
    // final order follows the new items
    assert_eq!(store.len(), 2);
    assert_eq!(text_of(store.key_at(0)), "2");
    assert_eq!(text_of(store.key_at(1)), "3");
    // row "2" kept its cell identity
    assert_eq!(store.cell_at(0, 0), cell_row2);
    // row "3" is new: a fresh cell, not a reused one
    assert_ne!(store.cell_at(1, 0), cell_row1);
    assert_ne!(store.cell_at(1, 0), cell_row2);
    assert_eq!(text_of(rt.peek(store.cell_at(1, 0))), "three");
}

#[test]
fn duplicate_key_fails_without_partial_mutation() {
    let mut rt = Runtime::new();
    let mut store = KeyedStore::new(1);
    let items = vec![row1("1", "one"), row1("2", "two")];
    store.reconcile(&mut rt, &items).unwrap();
    let cell_a = store.cell_at(0, 0);
    let cell_b = store.cell_at(1, 0);
    let ver_a = rt.version(cell_a);
    let ver_b = rt.version(cell_b);

    let bad = vec![row1("1", "changed"), row1("1", "also changed")];
    let err = store.reconcile(&mut rt, &bad).unwrap_err();
    assert_eq!(err, EngineError::DuplicateKey);
    // the store is exactly as before the failed call
    assert_eq!(store.len(), 2);
    assert_eq!(text_of(store.key_at(0)), "1");
    assert_eq!(text_of(store.key_at(1)), "2");
    assert_eq!(store.cell_at(0, 0), cell_a);
    assert_eq!(store.cell_at(1, 0), cell_b);
    assert_eq!(text_of(rt.peek(cell_a)), "one");
    assert_eq!(text_of(rt.peek(cell_b)), "two");
    assert_eq!(rt.version(cell_a), ver_a);
    assert_eq!(rt.version(cell_b), ver_b);
}

#[test]
fn reconcile_from_empty_and_to_empty() {
    let mut rt = Runtime::new();
    let mut store = KeyedStore::new(1);
    assert_eq!(store.len(), 0);
    let items = vec![row1("a", "1")];
    store.reconcile(&mut rt, &items).unwrap();
    assert_eq!(store.len(), 1);
    let empty: Vec<RowInput> = Vec::new();
    store.reconcile(&mut rt, &empty).unwrap();
    assert_eq!(store.len(), 0);
}

#[test]
fn integer_keys_work_like_text_keys() {
    let mut rt = Runtime::new();
    let mut store = KeyedStore::new(1);
    let items = vec![
        RowInput { key: Value::Int(10), fields: vec![val("ten")] },
        RowInput { key: Value::Int(20), fields: vec![val("twenty")] },
    ];
    store.reconcile(&mut rt, &items).unwrap();
    let cell_20 = store.cell_at(1, 0);
    let items2 = vec![RowInput { key: Value::Int(20), fields: vec![val("TWENTY")] }];
    store.reconcile(&mut rt, &items2).unwrap();
    assert_eq!(store.len(), 1);
    assert_eq!(store.cell_at(0, 0), cell_20);
    assert_eq!(text_of(rt.peek(cell_20)), "TWENTY");
}

#[test]
fn iterate_unkeyed_exposes_every_row_for_bulk_writes() {
    let mut rt = Runtime::new();
    let mut store = KeyedStore::new(1);
    let items = vec![row1("1", "a"), row1("2", "b"), row1("3", "c")];
    store.reconcile(&mut rt, &items).unwrap();
    // a bulk transform over every row's field, without key tracking
    for row in store.iterate_unkeyed() {
        let cur = text_of(rt.peek(row[0]));
        let mut upper = cur.to_uppercase();
        upper.push('!');
        rt.write(row[0], Value::Text(upper));
    }
    assert_eq!(text_of(rt.peek(store.cell_at(0, 0))), "A!");
    assert_eq!(text_of(rt.peek(store.cell_at(1, 0))), "B!");
    assert_eq!(text_of(rt.peek(store.cell_at(2, 0))), "C!");
}

#[test]
fn removed_row_cells_are_released() {
    let mut rt = Runtime::new();
    let mut store = KeyedStore::new(1);
    let items = vec![row1("1", "one"), row1("2", "two")];
    store.reconcile(&mut rt, &items).unwrap();
    let removed_cell = store.cell_at(0, 0);
    let items2 = vec![row1("2", "two")];
    store.reconcile(&mut rt, &items2).unwrap();
    // the disposed cell keeps its last value but is no longer live;
    // it is never handed out again as a row cell
    assert_eq!(text_of(rt.peek(removed_cell)), "one");
    assert_eq!(store.len(), 1);
    assert_ne!(store.cell_at(0, 0), removed_cell);
}
