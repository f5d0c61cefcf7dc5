use patates::elastic::{plan, Action, Call, IndexMapping, IndexStore};
use patates::oplog::Operation;
use patates::types::Error;
use patates::value::{Doc, Val};

fn s(x: &str) -> String {
    x.to_string()
}

fn order_doc(id: &str, total: i64) -> Doc {
    let mut d = Doc::new();
    d.set(s("_id"), Val::Str(s(id)));
    d.set(s("total"), Val::Int(total));
    d
}

fn insert_op(ns: &str, id: &str, total: i64) -> Operation {
    Operation::Insert { namespace: s(ns), document: order_doc(id, total) }
}

fn update_op(ns: &str, id: &str, field: &str, value: i64) -> Operation {
    let mut patch = Doc::new();
    patch.set(s(field), Val::Int(value));
    Operation::Update { namespace: s(ns), partial_document: patch, target_key: s(id) }
}

#[test]
fn example_insert_reaches_its_index_id_and_body() {
    // Raw entry {op:"i", ns:"shop.orders", o:{_id:"42", total:10}}: index
    // shop.orders, document id "42", body {total:10}.
    let mut e = Doc::new();
    e.set(s("op"), Val::Str(s("i")));
    e.set(s("ns"), Val::Str(s("shop.orders")));
    e.set(s("o"), Val::Obj(order_doc("42", 10)));
    let op = Operation::new(e).expect("the entry decodes");

    let mapping = IndexMapping::identity();
    let mut store = IndexStore::new();
    store.dispatch(op, &mapping).expect("the insert applies");

    let doc = store.fetch(&s("shop.orders"), &s("42")).expect("the document exists");
    assert_eq!(doc.get(&s("total")), Some(&Val::Int(10)));
    assert_eq!(doc.get(&s("_id")), None);
    assert_eq!(doc.entries().len(), 1);
}

#[test]
fn insert_strips_key_and_duplicate_insert_fails() {
    let mapping = IndexMapping::identity();
    let mut store = IndexStore::new();

    assert_eq!(store.dispatch(insert_op("shop.orders", "1", 5), &mapping), Ok(()));
    let written = store.fetch(&s("shop.orders"), &s("1")).expect("written");
    assert_eq!(written.get(&s("_id")), None);
    assert_eq!(written.get(&s("total")), Some(&Val::Int(5)));

    // Create-only: the same id again must surface DuplicateInsert, not
    // silently overwrite.
    assert_eq!(
        store.dispatch(insert_op("shop.orders", "1", 99), &mapping),
        Err(Error::DuplicateInsert)
    );
    let kept = store.fetch(&s("shop.orders"), &s("1")).expect("still there");
    assert_eq!(kept.get(&s("total")), Some(&Val::Int(5)));
}

#[test]
fn insert_without_primary_key_is_malformed_and_makes_no_call() {
    let mapping = IndexMapping::identity();
    let mut store = IndexStore::new();
    let mut doc = Doc::new();
    doc.set(s("total"), Val::Int(7));
    let op = Operation::Insert { namespace: s("shop.orders"), document: doc };
    assert_eq!(store.dispatch(op, &mapping), Err(Error::MalformedEntry));
    assert_eq!(store.observed_calls().len(), 0);
}

#[test]
fn update_patches_fields_and_is_idempotent() {
    let mapping = IndexMapping::identity();
    let mut store = IndexStore::new();
    store.dispatch(insert_op("shop.orders", "1", 5), &mapping).unwrap();

    assert_eq!(store.dispatch(update_op("shop.orders", "1", "total", 6), &mapping), Ok(()));
    let once = store.fetch(&s("shop.orders"), &s("1")).unwrap();
    assert_eq!(once.get(&s("total")), Some(&Val::Int(6)));
    assert_eq!(once.entries().len(), 1);

    // The same patch again leaves the same final state.
    assert_eq!(store.dispatch(update_op("shop.orders", "1", "total", 6), &mapping), Ok(()));
    let twice = store.fetch(&s("shop.orders"), &s("1")).unwrap();
    assert_eq!(twice.get(&s("total")), Some(&Val::Int(6)));
    assert_eq!(twice.entries().len(), 1);

    // A patch only merges: a new field arrives, the others stay.
    assert_eq!(store.dispatch(update_op("shop.orders", "1", "state", 3), &mapping), Ok(()));
    let merged = store.fetch(&s("shop.orders"), &s("1")).unwrap();
    assert_eq!(merged.get(&s("total")), Some(&Val::Int(6)));
    assert_eq!(merged.get(&s("state")), Some(&Val::Int(3)));
}

#[test]
fn update_of_absent_target_is_reported() {
    let mapping = IndexMapping::identity();
    let mut store = IndexStore::new();
    assert_eq!(
        store.dispatch(update_op("shop.orders", "9", "total", 1), &mapping),
        Err(Error::MissingTargetForUpdate)
    );
}

#[test]
fn noop_and_unknown_cause_no_downstream_call() {
    let mapping = IndexMapping::identity();
    let mut store = IndexStore::new();
    assert_eq!(store.dispatch(Operation::Unknown, &mapping), Ok(()));
    assert_eq!(store.dispatch(Operation::NoOp { message: s("hb") }, &mapping), Ok(()));
    assert_eq!(store.observed_calls().len(), 0);
    assert!(!store.check_index_is_exist(&s("shop.orders")));
}

#[test]
fn delete_of_absent_id_succeeds() {
    let mapping = IndexMapping::identity();
    let mut store = IndexStore::new();
    let op = Operation::Delete { namespace: s("shop.orders"), key: s("404") };
    assert_eq!(store.dispatch(op, &mapping), Ok(()));
    assert_eq!(store.delete_index_data(s("shop.orders"), s("404")), Ok(false));
}

#[test]
fn events_for_one_id_apply_in_log_order() {
    let mapping = IndexMapping::identity();
    let mut store = IndexStore::new();

    // insert/update/delete for id 1, interleaved with unrelated entries for
    // id 2 and events that dispatch nothing.
    store
        .dispatch(Operation::CreateCollection { namespace: s("shop.orders") }, &mapping)
        .unwrap();
    store.dispatch(insert_op("shop.orders", "1", 5), &mapping).unwrap();
    store.dispatch(insert_op("shop.orders", "2", 8), &mapping).unwrap();
    store.dispatch(Operation::Unknown, &mapping).unwrap();
    store.dispatch(update_op("shop.orders", "1", "total", 6), &mapping).unwrap();
    store.dispatch(Operation::NoOp { message: String::new() }, &mapping).unwrap();
    store
        .dispatch(Operation::Delete { namespace: s("shop.orders"), key: s("1") }, &mapping)
        .unwrap();

    // Final state: id 1 absent, id 2 untouched.
    assert!(store.fetch(&s("shop.orders"), &s("1")).is_none());
    assert_eq!(
        store.fetch(&s("shop.orders"), &s("2")).unwrap().get(&s("total")),
        Some(&Val::Int(8))
    );

    // The index observed exactly create -> insert -> insert -> update ->
    // delete, never reordered; id 1's calls are insert, update, delete in
    // that order.
    let calls = store.observed_calls();
    assert_eq!(calls.len(), 5);
    assert_eq!(calls[0], Call::EnsureIndex { index: s("shop.orders") });
    assert_eq!(calls[1], Call::Insert { index: s("shop.orders"), id: s("1") });
    assert_eq!(calls[2], Call::Insert { index: s("shop.orders"), id: s("2") });
    assert_eq!(calls[3], Call::Update { index: s("shop.orders"), id: s("1") });
    assert_eq!(calls[4], Call::Delete { index: s("shop.orders"), id: s("1") });
}

#[test]
fn create_index_is_idempotent() {
    let mut store = IndexStore::new();
    assert_eq!(store.create_index_if_not_exists(s("shop.orders")), Ok(false));
    assert!(store.check_index_is_exist(&s("shop.orders")));
    assert_eq!(store.create_index_if_not_exists(s("shop.orders")), Ok(true));
    assert!(store.check_index_is_exist(&s("shop.orders")));
}

#[test]
fn planning_derives_index_id_and_stripped_body() {
    let mapping = IndexMapping::identity();
    match plan(insert_op("shop.orders", "42", 10), &mapping) {
        Ok(Some(Action::InsertDoc { index, id, body })) => {
            assert_eq!(index, s("shop.orders"));
            assert_eq!(id, s("42"));
            assert_eq!(body.get(&s("_id")), None);
            assert_eq!(body.get(&s("total")), Some(&Val::Int(10)));
        }
        other => panic!("expected an insert plan, got {other:?}"),
    }
    assert_eq!(plan(Operation::Unknown, &mapping), Ok(None));
    assert_eq!(plan(Operation::NoOp { message: s("x") }, &mapping), Ok(None));
}

#[test]
fn injected_route_renames_the_index() {
    let mut mapping = IndexMapping::identity();
    mapping.with_route(s("shop.orders"), s("orders-v2"));
    let mut store = IndexStore::new();
    store
        .dispatch(Operation::CreateCollection { namespace: s("shop.orders") }, &mapping)
        .unwrap();
    assert!(store.check_index_is_exist(&s("orders-v2")));
    assert!(!store.check_index_is_exist(&s("shop.orders")));

    store.dispatch(insert_op("shop.orders", "1", 5), &mapping).unwrap();
    assert!(store.fetch(&s("orders-v2"), &s("1")).is_some());

    // Other namespaces keep mapping to themselves.
    store
        .dispatch(Operation::CreateCollection { namespace: s("shop.users") }, &mapping)
        .unwrap();
    assert!(store.check_index_is_exist(&s("shop.users")));
}
