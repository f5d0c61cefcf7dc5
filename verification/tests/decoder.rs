use patates::oplog::Operation;
use patates::types::Error;
use patates::value::{Doc, Val};

fn s(x: &str) -> String {
    x.to_string()
}

fn str_entry(pairs: &[(&str, &str)]) -> Doc {
    let mut d = Doc::new();
    for (k, v) in pairs {
        d.set(s(k), Val::Str(s(v)));
    }
    d
}

#[test]
fn insert_entry_decodes_namespace_and_document() {
    let mut o = Doc::new();
    o.set(s("_id"), Val::Str(s("42")));
    o.set(s("total"), Val::Int(10));
    let mut e = str_entry(&[("op", "i"), ("ns", "shop.orders")]);
    e.set(s("o"), Val::Obj(o));

    match Operation::new(e) {
        Ok(Operation::Insert { namespace, document }) => {
            assert_eq!(namespace, s("shop.orders"));
            assert_eq!(document.get(&s("_id")), Some(&Val::Str(s("42"))));
            assert_eq!(document.get(&s("total")), Some(&Val::Int(10)));
        }
        other => panic!("expected an insert event, got {other:?}"),
    }
}

#[test]
fn namespace_is_lowercased_at_decode() {
    let mut e = str_entry(&[("op", "c"), ("ns", "SHOP.Orders")]);
    match Operation::new(e) {
        Ok(Operation::CreateCollection { namespace }) => {
            assert_eq!(namespace, s("shop.orders"));
        }
        other => panic!("expected a create event, got {other:?}"),
    }
    e = str_entry(&[("op", "i"), ("ns", "Shop.ORDERS")]);
    let mut o = Doc::new();
    o.set(s("_id"), Val::Str(s("1")));
    e.set(s("o"), Val::Obj(o));
    match Operation::new(e) {
        Ok(Operation::Insert { namespace, .. }) => assert_eq!(namespace, s("shop.orders")),
        other => panic!("expected an insert event, got {other:?}"),
    }
}

#[test]
fn unknown_operation_code_decodes_to_unknown() {
    let e = str_entry(&[("op", "x"), ("ns", "shop.orders")]);
    assert_eq!(Operation::new(e), Ok(Operation::Unknown));
    let e2 = str_entry(&[("op", "abort")]);
    assert_eq!(Operation::new(e2), Ok(Operation::Unknown));
}

#[test]
fn missing_operation_code_is_malformed() {
    let e = str_entry(&[("ns", "shop.orders")]);
    assert_eq!(Operation::new(e), Err(Error::MalformedEntry));
    let mut e2 = Doc::new();
    e2.set(s("op"), Val::Int(3));
    assert_eq!(Operation::new(e2), Err(Error::MalformedEntry));
}

#[test]
fn create_without_namespace_is_malformed() {
    let e = str_entry(&[("op", "c")]);
    assert_eq!(Operation::new(e), Err(Error::MalformedEntry));
}

#[test]
fn insert_without_payload_is_malformed() {
    let e = str_entry(&[("op", "i"), ("ns", "shop.orders")]);
    assert_eq!(Operation::new(e), Err(Error::MalformedEntry));
    let mut e2 = str_entry(&[("op", "i"), ("ns", "shop.orders")]);
    e2.set(s("o"), Val::Str(s("not a document")));
    assert_eq!(Operation::new(e2), Err(Error::MalformedEntry));
}

fn update_entry(ns: &str, diff_fields: &[(&str, Val)], target_id: Option<&str>) -> Doc {
    let mut u = Doc::new();
    for (k, v) in diff_fields {
        u.set(s(k), v.clone_for_test());
    }
    let mut diff = Doc::new();
    diff.set(s("u"), Val::Obj(u));
    let mut o = Doc::new();
    o.set(s("diff"), Val::Obj(diff));
    let mut e = str_entry(&[("op", "u"), ("ns", ns)]);
    e.set(s("o"), Val::Obj(o));
    let mut o2 = Doc::new();
    if let Some(id) = target_id {
        o2.set(s("_id"), Val::Str(s(id)));
    }
    e.set(s("o2"), Val::Obj(o2));
    e
}

trait CloneForTest {
    fn clone_for_test(&self) -> Val;
}

impl CloneForTest for Val {
    fn clone_for_test(&self) -> Val {
        match self {
            Val::Null => Val::Null,
            Val::Bool(b) => Val::Bool(*b),
            Val::Int(i) => Val::Int(*i),
            Val::Str(t) => Val::Str(t.clone()),
            _ => panic!("only scalars are cloned in tests"),
        }
    }
}

#[test]
fn update_decodes_exactly_the_diff_fields() {
    let e = update_entry("shop.orders", &[("total", Val::Int(20))], Some("42"));
    match Operation::new(e) {
        Ok(Operation::Update { namespace, partial_document, target_key }) => {
            assert_eq!(namespace, s("shop.orders"));
            assert_eq!(target_key, s("42"));
            assert_eq!(partial_document.get(&s("total")), Some(&Val::Int(20)));
            assert_eq!(partial_document.entries().len(), 1);
        }
        other => panic!("expected an update event, got {other:?}"),
    }
}

#[test]
fn update_without_target_identity_is_malformed() {
    let e = update_entry("shop.orders", &[("total", Val::Int(20))], None);
    assert_eq!(Operation::new(e), Err(Error::MalformedEntry));

    let mut no_o2 = str_entry(&[("op", "u"), ("ns", "shop.orders")]);
    let mut diff = Doc::new();
    diff.set(s("u"), Val::Obj(Doc::new()));
    let mut o = Doc::new();
    o.set(s("diff"), Val::Obj(diff));
    no_o2.set(s("o"), Val::Obj(o));
    assert_eq!(Operation::new(no_o2), Err(Error::MalformedEntry));
}

#[test]
fn update_without_diff_is_malformed() {
    let mut e = str_entry(&[("op", "u"), ("ns", "shop.orders")]);
    e.set(s("o"), Val::Obj(Doc::new()));
    let mut o2 = Doc::new();
    o2.set(s("_id"), Val::Str(s("42")));
    e.set(s("o2"), Val::Obj(o2));
    assert_eq!(Operation::new(e), Err(Error::MalformedEntry));

    let mut e2 = str_entry(&[("op", "u"), ("ns", "shop.orders")]);
    let mut o = Doc::new();
    o.set(s("diff"), Val::Obj(Doc::new()));
    e2.set(s("o"), Val::Obj(o));
    let mut o2b = Doc::new();
    o2b.set(s("_id"), Val::Str(s("42")));
    e2.set(s("o2"), Val::Obj(o2b));
    assert_eq!(Operation::new(e2), Err(Error::MalformedEntry));
}

#[test]
fn delete_decodes_its_key_and_requires_it() {
    let mut e = str_entry(&[("op", "d"), ("ns", "shop.orders")]);
    let mut o = Doc::new();
    o.set(s("_id"), Val::Str(s("42")));
    e.set(s("o"), Val::Obj(o));
    match Operation::new(e) {
        Ok(Operation::Delete { namespace, key }) => {
            assert_eq!(namespace, s("shop.orders"));
            assert_eq!(key, s("42"));
        }
        other => panic!("expected a delete event, got {other:?}"),
    }

    let mut no_key = str_entry(&[("op", "d"), ("ns", "shop.orders")]);
    no_key.set(s("o"), Val::Obj(Doc::new()));
    assert_eq!(Operation::new(no_key), Err(Error::MalformedEntry));
}

#[test]
fn noop_message_defaults_to_empty_and_never_fails() {
    let bare = str_entry(&[("op", "n")]);
    assert_eq!(Operation::new(bare), Ok(Operation::NoOp { message: String::new() }));

    let mut with_msg = str_entry(&[("op", "n")]);
    let mut o = Doc::new();
    o.set(s("msg"), Val::Str(s("periodic noop")));
    with_msg.set(s("o"), Val::Obj(o));
    assert_eq!(Operation::new(with_msg), Ok(Operation::NoOp { message: s("periodic noop") }));
}

#[test]
fn document_rebinding_keeps_the_last_value() {
    let mut d = Doc::new();
    d.set(s("a"), Val::Int(1));
    d.set(s("a"), Val::Int(2));
    assert_eq!(d.get(&s("a")), Some(&Val::Int(2)));
    assert_eq!(d.entries().len(), 1);
    assert!(d.contains_key(&s("a")));
    let gone = d.without(&s("a"));
    assert_eq!(gone.get(&s("a")), None);
    assert!(!gone.contains_key(&s("a")));
}
