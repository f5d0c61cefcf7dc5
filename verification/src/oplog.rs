//! The operation decoder: a deterministic, side-effect-free mapping from a
//! raw replication-log entry to a typed change event.
//!
//! A raw entry is a [`Doc`] with an operation code under `op`, a source
//! namespace under `ns`, a payload under `o`, and, for updates, a target
//! identity under `o2` together with a diff under `o.diff.u` that holds only
//! the fields that changed. An unrecognized operation code is not an error;
//! a missing required field is.

use vstd::prelude::*;

use crate::types::Error;
use crate::value::{doc_at, field_doc, field_str, str_at, Doc, Val};

verus! {

/// What `str::to_lowercase` returns: a function of the input characters
/// alone.
pub uninterp spec fn lower_of(s: Seq<char>) -> Seq<char>;

/// Relies on str::to_lowercase: the result depends only on the characters of
/// the input, and an empty string stays empty.
#[verifier::external_body]
fn lowercase(s: &String) -> (r: String)
    ensures
        r@ == lower_of(s@),
        s@.len() == 0 ==> r@.len() == 0,
{
    s.to_lowercase()
}

/// A decoded change event. Namespaces are lower-cased at decode time so that
/// the downstream index name is deterministic regardless of source casing.
#[derive(Debug, PartialEq)]
pub enum Operation {
    /// A collection was created; an index of the same (case-normalized) name
    /// is to exist downstream.
    CreateCollection { namespace: String },
    /// A full document was written; its primary key under `_id` stays in the
    /// document until the dispatcher derives the downstream id from it.
    Insert { namespace: String, document: Doc },
    /// Only the fields of `partial_document` changed; they are applied as a
    /// field-level patch to the entry identified by `target_key`.
    Update { namespace: String, partial_document: Doc, target_key: String },
    /// The document with primary key `key` was removed.
    Delete { namespace: String, key: String },
    /// An administrative heartbeat; nothing is dispatched.
    NoOp { message: String },
    /// An operation code this pipeline does not act on; nothing is
    /// dispatched.
    Unknown,
}

/// The fields a create entry must carry.
pub open spec fn create_fields_ok(m: Map<Seq<char>, Val>) -> bool {
    field_str(m, "ns"@)
}

/// How a create entry decodes.
pub open spec fn decodes_create(m: Map<Seq<char>, Val>, r: Result<Operation, Error>) -> bool {
    if create_fields_ok(m) {
        r matches Ok(op) && (op matches Operation::CreateCollection { namespace } && namespace@
            == lower_of(str_at(m, "ns"@)))
    } else {
        r == Err::<Operation, Error>(Error::MalformedEntry)
    }
}

/// The fields an insert entry must carry.
pub open spec fn insert_fields_ok(m: Map<Seq<char>, Val>) -> bool {
    field_str(m, "ns"@) && field_doc(m, "o"@)
}

/// How an insert entry decodes: the document is carried whole, the primary
/// key still inside it.
pub open spec fn decodes_insert(m: Map<Seq<char>, Val>, r: Result<Operation, Error>) -> bool {
    if insert_fields_ok(m) {
        r matches Ok(op) && (op matches Operation::Insert { namespace, document } && namespace@
            == lower_of(str_at(m, "ns"@)) && document.wf() && document@ == doc_at(m, "o"@))
    } else {
        r == Err::<Operation, Error>(Error::MalformedEntry)
    }
}

/// The fields an update entry must carry: the diff under `o.diff.u` and the
/// stable primary key under `o2._id`.
pub open spec fn update_fields_ok(m: Map<Seq<char>, Val>) -> bool {
    &&& field_str(m, "ns"@)
    &&& field_doc(m, "o"@)
    &&& field_doc(doc_at(m, "o"@), "diff"@)
    &&& field_doc(doc_at(doc_at(m, "o"@), "diff"@), "u"@)
    &&& field_doc(m, "o2"@)
    &&& field_str(doc_at(m, "o2"@), "_id"@)
}

/// How an update entry decodes: the partial document holds exactly the
/// fields present in the diff, and the target identity comes from `o2`,
/// never from the diff itself.
pub open spec fn decodes_update(m: Map<Seq<char>, Val>, r: Result<Operation, Error>) -> bool {
    if update_fields_ok(m) {
        r matches Ok(op) && (op matches Operation::Update {
            namespace,
            partial_document,
            target_key,
        } && namespace@ == lower_of(str_at(m, "ns"@)) && partial_document.wf()
            && partial_document@ == doc_at(doc_at(doc_at(m, "o"@), "diff"@), "u"@) && target_key@
            == str_at(doc_at(m, "o2"@), "_id"@))
    } else {
        r == Err::<Operation, Error>(Error::MalformedEntry)
    }
}

/// The fields a delete entry must carry: the payload must hold the primary
/// key.
pub open spec fn delete_fields_ok(m: Map<Seq<char>, Val>) -> bool {
    field_str(m, "ns"@) && field_doc(m, "o"@) && field_str(doc_at(m, "o"@), "_id"@)
}

/// How a delete entry decodes.
pub open spec fn decodes_delete(m: Map<Seq<char>, Val>, r: Result<Operation, Error>) -> bool {
    if delete_fields_ok(m) {
        r matches Ok(op) && (op matches Operation::Delete { namespace, key } && namespace@
            == lower_of(str_at(m, "ns"@)) && key@ == str_at(doc_at(m, "o"@), "_id"@))
    } else {
        r == Err::<Operation, Error>(Error::MalformedEntry)
    }
}

/// The message a no-op entry carries under `o.msg`, defaulting to empty; a
/// no-op never fails to decode.
pub open spec fn noop_message(m: Map<Seq<char>, Val>) -> Seq<char> {
    if field_doc(m, "o"@) && field_str(doc_at(m, "o"@), "msg"@) {
        str_at(doc_at(m, "o"@), "msg"@)
    } else {
        Seq::empty()
    }
}

/// How a no-op entry decodes.
pub open spec fn decodes_noop(m: Map<Seq<char>, Val>, r: Result<Operation, Error>) -> bool {
    r matches Ok(op) && (op matches Operation::NoOp { message } && message@ == noop_message(m))
}

/// How any raw entry decodes, by its operation code. An entry without a
/// string operation code is malformed; a code outside the known five decodes
/// to `Unknown` and is not an error.
pub open spec fn decode_spec(m: Map<Seq<char>, Val>, r: Result<Operation, Error>) -> bool {
    if !field_str(m, "op"@) {
        r == Err::<Operation, Error>(Error::MalformedEntry)
    } else {
        let code = str_at(m, "op"@);
        if code == "c"@ {
            decodes_create(m, r)
        } else if code == "i"@ {
            decodes_insert(m, r)
        } else if code == "u"@ {
            decodes_update(m, r)
        } else if code == "d"@ {
            decodes_delete(m, r)
        } else if code == "n"@ {
            decodes_noop(m, r)
        } else {
            r == Ok::<Operation, Error>(Operation::Unknown)
        }
    }
}

impl Operation {
    /// Decodes one raw log entry, dispatching on its operation code. The
    /// entry is consumed; decoding is total and never touches anything
    /// outside the entry.
    pub fn new(entry: Doc) -> (r: Result<Operation, Error>)
        ensures
            decode_spec(entry@, r),
    {
        let entry = entry.normalized();
        let code = match entry.get_str(&"op".to_owned()) {
            Some(c) => c.clone(),
            None => {
                return Err(Error::MalformedEntry);
            },
        };
        if code == "c".to_owned() {
            Operation::from_create(entry)
        } else if code == "i".to_owned() {
            Operation::from_insert(entry)
        } else if code == "u".to_owned() {
            Operation::from_update(entry)
        } else if code == "d".to_owned() {
            Operation::from_delete(entry)
        } else if code == "n".to_owned() {
            Operation::from_noop(entry)
        } else {
            Ok(Operation::Unknown)
        }
    }

    /// Decodes a create entry.
    pub fn from_create(entry: Doc) -> (r: Result<Operation, Error>)
        requires
            entry.wf(),
        ensures
            decodes_create(entry@, r),
    {
        let ns = match entry.get_str(&"ns".to_owned()) {
            Some(s) => s.clone(),
            None => {
                return Err(Error::MalformedEntry);
            },
        };
        let namespace = lowercase(&ns);
        Ok(Operation::CreateCollection { namespace })
    }

    /// Decodes an insert entry.
    pub fn from_insert(entry: Doc) -> (r: Result<Operation, Error>)
        requires
            entry.wf(),
        ensures
            decodes_insert(entry@, r),
    {
        let mut entry = entry;
        let ns = match entry.get_str(&"ns".to_owned()) {
            Some(s) => s.clone(),
            None => {
                return Err(Error::MalformedEntry);
            },
        };
        let document = match entry.take(&"o".to_owned()) {
            Some(Val::Obj(d)) => d.normalized(),
            _ => {
                return Err(Error::MalformedEntry);
            },
        };
        let namespace = lowercase(&ns);
        Ok(Operation::Insert { namespace, document })
    }

    /// Decodes an update entry: the diff fields become the partial document,
    /// and the target identity is read from `o2`.
    pub fn from_update(entry: Doc) -> (r: Result<Operation, Error>)
        requires
            entry.wf(),
        ensures
            decodes_update(entry@, r),
    {
        proof {
            reveal_strlit("o");
            reveal_strlit("o2");
            assert("o"@.len() == 1);
            assert("o2"@.len() == 2);
            assert("o"@ != "o2"@);
        }
        let mut entry = entry;
        let ns = match entry.get_str(&"ns".to_owned()) {
            Some(s) => s.clone(),
            None => {
                return Err(Error::MalformedEntry);
            },
        };
        let mut o = match entry.take(&"o".to_owned()) {
            Some(Val::Obj(d)) => d.normalized(),
            _ => {
                return Err(Error::MalformedEntry);
            },
        };
        let o2 = match entry.take(&"o2".to_owned()) {
            Some(Val::Obj(d)) => d.normalized(),
            _ => {
                return Err(Error::MalformedEntry);
            },
        };
        let mut diff = match o.take(&"diff".to_owned()) {
            Some(Val::Obj(d)) => d.normalized(),
            _ => {
                return Err(Error::MalformedEntry);
            },
        };
        let partial_document = match diff.take(&"u".to_owned()) {
            Some(Val::Obj(d)) => d.normalized(),
            _ => {
                return Err(Error::MalformedEntry);
            },
        };
        let target_key = match o2.get_str(&"_id".to_owned()) {
            Some(s) => s.clone(),
            None => {
                return Err(Error::MalformedEntry);
            },
        };
        let namespace = lowercase(&ns);
        Ok(Operation::Update { namespace, partial_document, target_key })
    }

    /// Decodes a delete entry: the payload must carry the primary key.
    pub fn from_delete(entry: Doc) -> (r: Result<Operation, Error>)
        requires
            entry.wf(),
        ensures
            decodes_delete(entry@, r),
    {
        let mut entry = entry;
        let ns = match entry.get_str(&"ns".to_owned()) {
            Some(s) => s.clone(),
            None => {
                return Err(Error::MalformedEntry);
            },
        };
        let o = match entry.take(&"o".to_owned()) {
            Some(Val::Obj(d)) => d.normalized(),
            _ => {
                return Err(Error::MalformedEntry);
            },
        };
        let key = match o.get_str(&"_id".to_owned()) {
            Some(s) => s.clone(),
            None => {
                return Err(Error::MalformedEntry);
            },
        };
        let namespace = lowercase(&ns);
        Ok(Operation::Delete { namespace, key })
    }

    /// Decodes a no-op entry; never fails, the message defaults to empty.
    pub fn from_noop(entry: Doc) -> (r: Result<Operation, Error>)
        requires
            entry.wf(),
        ensures
            decodes_noop(entry@, r),
    {
        let mut entry = entry;
        let message = match entry.take(&"o".to_owned()) {
            Some(Val::Obj(d)) => {
                let d = d.normalized();
                match d.get_str(&"msg".to_owned()) {
                    Some(s) => s.clone(),
                    None => String::new(),
                }
            },
            _ => String::new(),
        };
        Ok(Operation::NoOp { message })
    }
}

} // verus!
