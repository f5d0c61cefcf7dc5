//! The propagation dispatcher: given one decoded change event, derive the one
//! downstream call it stands for, and the semantics of that call against the
//! downstream index.
//!
//! [`plan`] is the pure decision: event in, at most one [`Action`] out.
//! [`IndexStore`] is the downstream index modelled exactly — create-only
//! inserts, field-level merge updates, idempotent deletes — with a log of
//! every call issued. The surrounding program performs each `Action` against
//! the real index; tests and proofs run them against the model.

use vstd::prelude::*;
use vstd::assert_seqs_equal;
use vstd::map::*;

use crate::oplog::Operation;
use crate::types::Error;
use crate::value::{
    assoc_map, field_str, lemma_assoc_contains, lemma_assoc_index, lemma_assoc_remove_at,
    lemma_unique_remove, str_at, unique_keys, Doc, Val,
};

verus! {

/// The namespace-to-index-name mapping: the case-normalized namespace itself,
/// unless a route was injected for it.
pub struct IndexMapping {
    overrides: Doc,
}

impl IndexMapping {
    /// Well-formedness of the injected route table.
    pub closed spec fn wf(&self) -> bool {
        self.overrides.wf()
    }

    /// The index name a namespace maps to.
    pub closed spec fn maps_to(&self, ns: Seq<char>) -> Seq<char> {
        if field_str(self.overrides@, ns) {
            str_at(self.overrides@, ns)
        } else {
            ns
        }
    }

    /// The default mapping: every namespace names its own index.
    pub fn identity() -> (m: IndexMapping)
        ensures
            m.wf(),
            forall|ns: Seq<char>| m.maps_to(ns) == ns,
    {
        IndexMapping { overrides: Doc::new() }
    }

    /// Routes one namespace to a chosen index name, leaving every other
    /// namespace as it was.
    pub fn with_route(&mut self, ns: String, index: String)
        requires
            old(self).wf(),
        ensures
            final(self).wf(),
            final(self).maps_to(ns@) == index@,
            forall|n2: Seq<char>| n2 != ns@ ==> final(self).maps_to(n2) == old(self).maps_to(n2),
    {
        self.overrides.set(ns, Val::Str(index));
    }

    /// The index name for a namespace.
    pub fn index_for(&self, ns: &String) -> (r: String)
        requires
            self.wf(),
        ensures
            r@ == self.maps_to(ns@),
    {
        match self.overrides.get_str(ns) {
            Some(s) => s.clone(),
            None => ns.clone(),
        }
    }
}

/// The one downstream call an event stands for.
#[derive(Debug, PartialEq)]
pub enum Action {
    /// Make the index exist; a pre-existing index is not an error.
    EnsureIndex { index: String },
    /// Write a new document under `id`; must fail if `id` already exists.
    InsertDoc { index: String, id: String, body: Doc },
    /// Patch the fields of `patch` into the document under `id`.
    UpdateDoc { index: String, id: String, patch: Doc },
    /// Remove the document under `id`; removing an absent one is not an
    /// error.
    DeleteDoc { index: String, id: String },
}

/// The documents an action carries are well-formed.
pub open spec fn action_wf(a: Action) -> bool {
    match a {
        Action::InsertDoc { body, .. } => body.wf(),
        Action::UpdateDoc { patch, .. } => patch.wf(),
        _ => true,
    }
}

/// The documents an event carries are well-formed.
pub open spec fn op_docs_wf(op: Operation) -> bool {
    match op {
        Operation::Insert { document, .. } => document.wf(),
        Operation::Update { partial_document, .. } => partial_document.wf(),
        _ => true,
    }
}

/// What `plan` returns for each event: the downstream document id is derived
/// from the primary key — for an insert from `_id` inside the document, which
/// is then stripped from the body; for an update from the target key; for a
/// delete from the key — and the index name from the namespace mapping. A
/// no-op or unknown event plans no call at all.
pub open spec fn plan_spec(
    op: Operation,
    mapping: IndexMapping,
    r: Result<Option<Action>, Error>,
) -> bool {
    match op {
        Operation::CreateCollection { namespace } => r matches Ok(Some(a)) && (
        a matches Action::EnsureIndex { index } && index@ == mapping.maps_to(namespace@)),
        Operation::Insert { namespace, document } => {
            if field_str(document@, "_id"@) {
                r matches Ok(Some(a)) && (a matches Action::InsertDoc { index, id, body }
                    && index@ == mapping.maps_to(namespace@) && id@ == str_at(document@, "_id"@)
                    && body.wf() && body@ == document@.remove("_id"@) && !body@.contains_key(
                    "_id"@,
                ))
            } else {
                r == Err::<Option<Action>, Error>(Error::MalformedEntry)
            }
        },
        Operation::Update { namespace, partial_document, target_key } => r matches Ok(Some(a))
            && (a matches Action::UpdateDoc { index, id, patch } && index@ == mapping.maps_to(
            namespace@,
        ) && id == target_key && patch == partial_document),
        Operation::Delete { namespace, key } => r matches Ok(Some(a)) && (
        a matches Action::DeleteDoc { index, id } && index@ == mapping.maps_to(namespace@) && id
            == key),
        Operation::NoOp { .. } => r == Ok::<Option<Action>, Error>(None),
        Operation::Unknown => r == Ok::<Option<Action>, Error>(None),
    }
}

/// Derives the at-most-one downstream call for one decoded event. Pure: the
/// event is consumed, nothing else is read or written.
pub fn plan(op: Operation, mapping: &IndexMapping) -> (r: Result<Option<Action>, Error>)
    requires
        mapping.wf(),
        op_docs_wf(op),
    ensures
        plan_spec(op, *mapping, r),
{
    match op {
        Operation::CreateCollection { namespace } => Ok(
            Some(Action::EnsureIndex { index: mapping.index_for(&namespace) }),
        ),
        Operation::Insert { namespace, document } => {
            let id = match document.get_str(&"_id".to_owned()) {
                Some(s) => s.clone(),
                None => {
                    return Err(Error::MalformedEntry);
                },
            };
            let body = document.without(&"_id".to_owned());
            Ok(Some(Action::InsertDoc { index: mapping.index_for(&namespace), id, body }))
        },
        Operation::Update { namespace, partial_document, target_key } => Ok(
            Some(
                Action::UpdateDoc {
                    index: mapping.index_for(&namespace),
                    id: target_key,
                    patch: partial_document,
                },
            ),
        ),
        Operation::Delete { namespace, key } => Ok(
            Some(Action::DeleteDoc { index: mapping.index_for(&namespace), id: key }),
        ),
        Operation::NoOp { .. } => Ok(None),
        Operation::Unknown => Ok(None),
    }
}

/// One downstream call as the index observed it.
#[derive(Debug, PartialEq)]
pub enum Call {
    EnsureIndex { index: String },
    Insert { index: String, id: String },
    Update { index: String, id: String },
    Delete { index: String, id: String },
}

/// The downstream index, modelled exactly: which indexes exist, which
/// document lives under each `(index, id)` pair, and the sequence of calls
/// it has observed. The real index behaves like this model; tests substitute
/// it for the real one.
pub struct IndexStore {
    index_names: Vec<String>,
    docs: Vec<((String, String), Doc)>,
    calls: Vec<Call>,
}

impl IndexStore {
    /// The set of index names that exist.
    pub closed spec fn indexes(&self) -> Set<Seq<char>> {
        Set::new(
            |k: Seq<char>|
                exists|i: int| 0 <= i < self.index_names@.len() && self.index_names@[i]@ == k,
        )
    }

    /// The documents, keyed by `(index name, document id)`.
    pub closed spec fn docs(&self) -> Map<(Seq<char>, Seq<char>), Doc> {
        assoc_map(self.docs@)
    }

    /// Every downstream call observed so far, oldest first.
    pub closed spec fn calls(&self) -> Seq<Call> {
        self.calls@
    }

    /// Well-formedness: one document per `(index, id)` pair, each one
    /// well-formed.
    pub closed spec fn wf(&self) -> bool {
        unique_keys(self.docs@) && (forall|i: int|
            0 <= i < self.docs@.len() ==> (#[trigger] self.docs@[i]).1.wf())
    }

    /// An empty downstream: no indexes, no documents, no calls observed.
    pub fn new() -> (s: IndexStore)
        ensures
            s.wf(),
            s.indexes() == Set::<Seq<char>>::empty(),
            s.docs() == Map::<(Seq<char>, Seq<char>), Doc>::empty(),
            s.calls() == Seq::<Call>::empty(),
    {
        let s = IndexStore { index_names: Vec::new(), docs: Vec::new(), calls: Vec::new() };
        proof {
            assert(s.indexes() =~= Set::<Seq<char>>::empty());
        }
        s
    }

    /// Whether an index of this name exists.
    pub fn check_index_is_exist(&self, index: &String) -> (r: bool)
        ensures
            r == self.indexes().contains(index@),
    {
        let n = self.index_names.len();
        let mut i: usize = 0;
        while i < n
            invariant
                n == self.index_names.len(),
                i <= n,
                forall|j: int| 0 <= j < i ==> #[trigger] self.index_names@[j]@ != index@,
            decreases n - i,
        {
            if self.index_names[i] == *index {
                return true;
            }
            i = i + 1;
        }
        false
    }

    /// The position of the document under `(index, id)`, if any.
    fn find_doc(&self, index: &String, id: &String) -> (r: Option<usize>)
        requires
            self.wf(),
        ensures
            match r {
                Some(i) => i < self.docs@.len() && self.docs@[i as int].0.0@ == index@
                    && self.docs@[i as int].0.1@ == id@ && self.docs().contains_key(
                    (index@, id@),
                ) && self.docs()[(index@, id@)] == self.docs@[i as int].1,
                None => !self.docs().contains_key((index@, id@)),
            },
    {
        let n = self.docs.len();
        let mut i: usize = 0;
        while i < n
            invariant
                n == self.docs.len(),
                i <= n,
                self.wf(),
                forall|j: int| 0 <= j < i ==> (#[trigger] self.docs@[j]).0@ != (index@, id@),
            decreases n - i,
        {
            let p = &self.docs[i];
            if p.0.0 == *index && p.0.1 == *id {
                proof {
                    lemma_assoc_index(self.docs@, i as int);
                }
                return Some(i);
            }
            proof {
                assert(self.docs@[i as int].0@ != (index@, id@));
            }
            i = i + 1;
        }
        proof {
            lemma_assoc_contains(self.docs@, (index@, id@));
        }
        None
    }

    /// The document under `(index, id)`, if one exists.
    pub fn fetch(&self, index: &String, id: &String) -> (r: Option<&Doc>)
        requires
            self.wf(),
        ensures
            match r {
                Some(d) => self.docs().contains_key((index@, id@)) && *d == self.docs()[
                    (index@, id@)
                ],
                None => !self.docs().contains_key((index@, id@)),
            },
    {
        match self.find_doc(index, id) {
            Some(i) => Some(&self.docs[i].1),
            None => None,
        }
    }

    /// Every call this downstream has observed, oldest first.
    pub fn observed_calls(&self) -> (r: &Vec<Call>)
        ensures
            r@ == self.calls(),
    {
        &self.calls
    }

    /// Makes the index of this name exist. Idempotent: a pre-existing index
    /// is reported, not an error.
    pub fn create_index_if_not_exists(&mut self, index: String) -> (r: Result<bool, Error>)
        requires
            old(self).wf(),
        ensures
            final(self).wf(),
            final(self).indexes() == old(self).indexes().insert(index@),
            final(self).docs() == old(self).docs(),
            final(self).calls() == old(self).calls().push(Call::EnsureIndex { index }),
            r == Ok::<bool, Error>(old(self).indexes().contains(index@)),
    {
        let existed = self.check_index_is_exist(&index);
        if !existed {
            self.index_names.push(index.clone());
            proof {
                let pre = old(self).index_names@;
                assert forall|k: Seq<char>|
                    old(self).indexes().insert(index@).contains(k) implies self.indexes().contains(
                    k,
                ) by {
                    if k == index@ {
                        assert(self.index_names@[pre.len() as int]@ == k);
                    } else {
                        let i = choose|i: int| 0 <= i < pre.len() && pre[i]@ == k;
                        assert(self.index_names@[i]@ == k);
                    }
                }
                assert(self.indexes() =~= old(self).indexes().insert(index@));
            }
        } else {
            proof {
                assert(self.indexes() =~= old(self).indexes().insert(index@));
            }
        }
        self.calls.push(Call::EnsureIndex { index });
        Ok(existed)
    }

    /// Writes a new document under `(index, data's id)`. Create-only: when
    /// the id is already present downstream the write fails with
    /// `DuplicateInsert` and nothing is overwritten.
    pub fn insert_index_data(&mut self, index: String, data: Doc, id: String) -> (r: Result<
        (),
        Error,
    >)
        requires
            old(self).wf(),
            data.wf(),
        ensures
            final(self).wf(),
            final(self).indexes() == old(self).indexes(),
            final(self).calls() == old(self).calls().push(Call::Insert { index, id }),
            old(self).docs().contains_key((index@, id@)) ==> r == Err::<(), Error>(
                Error::DuplicateInsert,
            ) && final(self).docs() == old(self).docs(),
            !old(self).docs().contains_key((index@, id@)) ==> r == Ok::<(), Error>(())
                && final(self).docs() == old(self).docs().insert((index@, id@), data),
    {
        match self.find_doc(&index, &id) {
            Some(_) => {
                self.calls.push(Call::Insert { index, id });
                Err(Error::DuplicateInsert)
            },
            None => {
                let ghost s0 = self.docs@;
                proof {
                    lemma_assoc_contains(s0, (index@, id@));
                }
                self.docs.push(((index.clone(), id.clone()), data));
                proof {
                    assert_seqs_equal!(self.docs@.drop_last() == s0);
                    assert(self.docs@.last().0@ == (index@, id@));
                    assert forall|a: int, b: int|
                        0 <= a < b < self.docs@.len() implies (#[trigger] self.docs@[a]).0@ != (
                    #[trigger] self.docs@[b]).0@ by {
                        if b < s0.len() {
                            assert(self.docs@[a] == s0[a]);
                            assert(self.docs@[b] == s0[b]);
                        } else {
                            assert(self.docs@[a] == s0[a]);
                            assert(self.docs@[b].0@ == (index@, id@));
                        }
                    }
                    assert forall|j: int|
                        0 <= j < self.docs@.len() implies (#[trigger] self.docs@[j]).1.wf() by {
                        if j < s0.len() {
                            assert(self.docs@[j] == s0[j]);
                        }
                    }
                }
                self.calls.push(Call::Insert { index, id });
                Ok(())
            },
        }
    }

    /// Patches the document under `(index, id)` field by field with the
    /// fields of `data`. An absent target is a reportable inconsistency, not
    /// a silent no-op.
    pub fn update_index_data(&mut self, index: String, data: Doc, id: String) -> (r: Result<
        (),
        Error,
    >)
        requires
            old(self).wf(),
            data.wf(),
        ensures
            final(self).wf(),
            final(self).indexes() == old(self).indexes(),
            final(self).calls() == old(self).calls().push(Call::Update { index, id }),
            !old(self).docs().contains_key((index@, id@)) ==> r == Err::<(), Error>(
                Error::MissingTargetForUpdate,
            ) && final(self).docs() == old(self).docs(),
            old(self).docs().contains_key((index@, id@)) ==> {
                &&& r == Ok::<(), Error>(())
                &&& final(self).docs().dom() == old(self).docs().dom()
                &&& (forall|k2: (Seq<char>, Seq<char>)|
                    k2 != (index@, id@) && old(self).docs().contains_key(k2)
                        ==> final(self).docs()[k2] == old(self).docs()[k2])
                &&& final(self).docs()[(index@, id@)].wf()
                &&& final(self).docs()[(index@, id@)]@ == old(self).docs()[(
                    index@,
                    id@,
                )]@.union_prefer_right(data@)
            },
    {
        match self.find_doc(&index, &id) {
            Some(i) => {
                let ghost s0 = self.docs@;
                proof {
                    lemma_assoc_remove_at(s0, i as int);
                    lemma_unique_remove(s0, i as int);
                }
                let pair = self.docs.remove(i);
                let (key, mut doc) = pair;
                proof {
                    assert forall|j: int|
                        0 <= j < self.docs@.len() implies (#[trigger] self.docs@[j]).1.wf() by {
                        if j < i {
                            assert(self.docs@[j] == s0[j]);
                        } else {
                            assert(self.docs@[j] == s0[j + 1]);
                        }
                    }
                }
                doc.merge_from(data);
                let ghost s1 = self.docs@;
                proof {
                    lemma_assoc_contains(s1, (index@, id@));
                }
                self.docs.push((key, doc));
                proof {
                    assert_seqs_equal!(self.docs@.drop_last() == s1);
                    assert(self.docs@.last().0@ == (index@, id@));
                    assert forall|a: int, b: int|
                        0 <= a < b < self.docs@.len() implies (#[trigger] self.docs@[a]).0@ != (
                    #[trigger] self.docs@[b]).0@ by {
                        if b < s1.len() {
                            assert(self.docs@[a] == s1[a]);
                            assert(self.docs@[b] == s1[b]);
                        } else {
                            assert(self.docs@[a] == s1[a]);
                            assert(self.docs@[b].0@ == (index@, id@));
                        }
                    }
                    assert forall|j: int|
                        0 <= j < self.docs@.len() implies (#[trigger] self.docs@[j]).1.wf() by {
                        if j < s1.len() {
                            assert(self.docs@[j] == s1[j]);
                        }
                    }
                    assert(self.docs().dom() =~= old(self).docs().dom());
                }
                self.calls.push(Call::Update { index, id });
                Ok(())
            },
            None => {
                self.calls.push(Call::Update { index, id });
                Err(Error::MissingTargetForUpdate)
            },
        }
    }

    /// Removes the document under `(index, id)`. Idempotent: removing an
    /// absent document succeeds, reporting only whether it was there.
    pub fn delete_index_data(&mut self, index: String, id: String) -> (r: Result<bool, Error>)
        requires
            old(self).wf(),
        ensures
            final(self).wf(),
            final(self).indexes() == old(self).indexes(),
            final(self).calls() == old(self).calls().push(Call::Delete { index, id }),
            final(self).docs() == old(self).docs().remove((index@, id@)),
            r == Ok::<bool, Error>(old(self).docs().contains_key((index@, id@))),
    {
        match self.find_doc(&index, &id) {
            Some(i) => {
                let ghost s0 = self.docs@;
                proof {
                    lemma_assoc_remove_at(s0, i as int);
                    lemma_unique_remove(s0, i as int);
                }
                let _ = self.docs.remove(i);
                proof {
                    assert forall|j: int|
                        0 <= j < self.docs@.len() implies (#[trigger] self.docs@[j]).1.wf() by {
                        if j < i {
                            assert(self.docs@[j] == s0[j]);
                        } else {
                            assert(self.docs@[j] == s0[j + 1]);
                        }
                    }
                }
                self.calls.push(Call::Delete { index, id });
                Ok(true)
            },
            None => {
                proof {
                    assert(old(self).docs().remove((index@, id@)) =~= old(self).docs());
                }
                self.calls.push(Call::Delete { index, id });
                Ok(false)
            },
        }
    }

    /// Performs one planned call against this downstream.
    pub fn apply(&mut self, action: Action) -> (r: Result<(), Error>)
        requires
            old(self).wf(),
            action_wf(action),
        ensures
            final(self).wf(),
            apply_spec(*old(self), action, *final(self), r),
    {
        match action {
            Action::EnsureIndex { index } => {
                let _ = self.create_index_if_not_exists(index);
                Ok(())
            },
            Action::InsertDoc { index, id, body } => self.insert_index_data(index, body, id),
            Action::UpdateDoc { index, id, patch } => self.update_index_data(index, patch, id),
            Action::DeleteDoc { index, id } => {
                let _ = self.delete_index_data(index, id);
                Ok(())
            },
        }
    }

    /// Dispatches one decoded event: plans its downstream call and performs
    /// it. A no-op or unknown event leaves the downstream — and its call log
    /// — entirely untouched.
    pub fn dispatch(&mut self, op: Operation, mapping: &IndexMapping) -> (r: Result<(), Error>)
        requires
            old(self).wf(),
            mapping.wf(),
            op_docs_wf(op),
        ensures
            final(self).wf(),
            dispatch_spec(*old(self), op, *mapping, *final(self), r),
    {
        match plan(op, mapping) {
            Ok(Some(action)) => self.apply(action),
            Ok(None) => Ok(()),
            Err(e) => Err(e),
        }
    }
}

/// What one performed call does to the downstream: exactly the contracts of
/// the four index operations, named by the action carried out.
pub open spec fn apply_spec(
    pre: IndexStore,
    action: Action,
    post: IndexStore,
    r: Result<(), Error>,
) -> bool {
    match action {
        Action::EnsureIndex { index } => {
            &&& post.indexes() == pre.indexes().insert(index@)
            &&& post.docs() == pre.docs()
            &&& post.calls() == pre.calls().push(Call::EnsureIndex { index })
            &&& r == Ok::<(), Error>(())
        },
        Action::InsertDoc { index, id, body } => {
            &&& post.indexes() == pre.indexes()
            &&& post.calls() == pre.calls().push(Call::Insert { index, id })
            &&& if pre.docs().contains_key((index@, id@)) {
                post.docs() == pre.docs() && r == Err::<(), Error>(Error::DuplicateInsert)
            } else {
                post.docs() == pre.docs().insert((index@, id@), body) && r == Ok::<(), Error>(())
            }
        },
        Action::UpdateDoc { index, id, patch } => {
            &&& post.indexes() == pre.indexes()
            &&& post.calls() == pre.calls().push(Call::Update { index, id })
            &&& if pre.docs().contains_key((index@, id@)) {
                &&& r == Ok::<(), Error>(())
                &&& post.docs().dom() == pre.docs().dom()
                &&& (forall|k2: (Seq<char>, Seq<char>)|
                    k2 != (index@, id@) && pre.docs().contains_key(k2) ==> post.docs()[k2]
                        == pre.docs()[k2])
                &&& post.docs()[(index@, id@)].wf()
                &&& post.docs()[(index@, id@)]@ == pre.docs()[(index@, id@)]@.union_prefer_right(
                    patch@,
                )
            } else {
                post.docs() == pre.docs() && r == Err::<(), Error>(Error::MissingTargetForUpdate)
            }
        },
        Action::DeleteDoc { index, id } => {
            &&& post.indexes() == pre.indexes()
            &&& post.calls() == pre.calls().push(Call::Delete { index, id })
            &&& post.docs() == pre.docs().remove((index@, id@))
            &&& r == Ok::<(), Error>(())
        },
    }
}

/// The call log grew by exactly one entry, the old log untouched.
pub open spec fn logs_one(pre: Seq<Call>, post: Seq<Call>) -> bool {
    post.len() == pre.len() + 1 && (forall|i: int| 0 <= i < pre.len() ==> post[i] == pre[i])
}

/// What dispatching one event does to the downstream, by event kind. This is
/// the dispatcher's whole behaviour: index names come from the namespace
/// mapping, document ids from the event's primary key, inserts are
/// create-only and never carry the key field in their body, updates are
/// field-level merges that report an absent target, deletes succeed
/// regardless, and a no-op or unknown event causes no downstream call at
/// all.
pub open spec fn dispatch_spec(
    pre: IndexStore,
    op: Operation,
    mapping: IndexMapping,
    post: IndexStore,
    r: Result<(), Error>,
) -> bool {
    match op {
        Operation::NoOp { .. } => post == pre && r == Ok::<(), Error>(()),
        Operation::Unknown => post == pre && r == Ok::<(), Error>(()),
        Operation::CreateCollection { namespace } => {
            &&& post.docs() == pre.docs()
            &&& post.indexes() == pre.indexes().insert(mapping.maps_to(namespace@))
            &&& logs_one(pre.calls(), post.calls())
            &&& (post.calls().last() matches Call::EnsureIndex { index } && index@
                == mapping.maps_to(namespace@))
            &&& r == Ok::<(), Error>(())
        },
        Operation::Insert { namespace, document } => {
            if field_str(document@, "_id"@) {
                let k = (mapping.maps_to(namespace@), str_at(document@, "_id"@));
                &&& post.indexes() == pre.indexes()
                &&& logs_one(pre.calls(), post.calls())
                &&& (post.calls().last() matches Call::Insert { index, id } && index@ == k.0 && id@
                    == k.1)
                &&& if pre.docs().contains_key(k) {
                    post.docs() == pre.docs() && r == Err::<(), Error>(Error::DuplicateInsert)
                } else {
                    &&& r == Ok::<(), Error>(())
                    &&& post.docs().dom() == pre.docs().dom().insert(k)
                    &&& (forall|k2: (Seq<char>, Seq<char>)|
                        k2 != k && pre.docs().contains_key(k2) ==> post.docs()[k2]
                            == pre.docs()[k2])
                    &&& post.docs()[k]@ == document@.remove("_id"@)
                    &&& !post.docs()[k]@.contains_key("_id"@)
                }
            } else {
                post == pre && r == Err::<(), Error>(Error::MalformedEntry)
            }
        },
        Operation::Update { namespace, partial_document, target_key } => {
            let k = (mapping.maps_to(namespace@), target_key@);
            &&& post.indexes() == pre.indexes()
            &&& logs_one(pre.calls(), post.calls())
            &&& (post.calls().last() matches Call::Update { index, id } && index@ == k.0 && id@
                == k.1)
            &&& if pre.docs().contains_key(k) {
                &&& r == Ok::<(), Error>(())
                &&& post.docs().dom() == pre.docs().dom()
                &&& (forall|k2: (Seq<char>, Seq<char>)|
                    k2 != k && pre.docs().contains_key(k2) ==> post.docs()[k2] == pre.docs()[k2])
                &&& post.docs()[k].wf()
                &&& post.docs()[k]@ == pre.docs()[k]@.union_prefer_right(partial_document@)
            } else {
                post.docs() == pre.docs() && r == Err::<(), Error>(Error::MissingTargetForUpdate)
            }
        },
        Operation::Delete { namespace, key } => {
            let k = (mapping.maps_to(namespace@), key@);
            &&& post.indexes() == pre.indexes()
            &&& logs_one(pre.calls(), post.calls())
            &&& (post.calls().last() matches Call::Delete { index, id } && index@ == k.0 && id@
                == k.1)
            &&& post.docs() == pre.docs().remove(k)
            &&& r == Ok::<(), Error>(())
        },
    }
}

/// The `(index, id)` pair an insert event writes to.
pub open spec fn insert_target(op: Operation, mapping: IndexMapping) -> (Seq<char>, Seq<char>)
    recommends
        op is Insert,
{
    (mapping.maps_to(op->Insert_namespace@), str_at(op->Insert_document@, "_id"@))
}

/// The `(index, id)` pair an update event patches.
pub open spec fn update_target(op: Operation, mapping: IndexMapping) -> (Seq<char>, Seq<char>)
    recommends
        op is Update,
{
    (mapping.maps_to(op->Update_namespace@), op->Update_target_key@)
}

/// Inserts are create-only, so duplicates surface instead of being masked:
/// once an insert of a given document id has succeeded, dispatching another
/// insert of the same id raises `DuplicateInsert` and overwrites nothing.
pub proof fn lemma_duplicate_insert(
    pre: IndexStore,
    mid: IndexStore,
    post: IndexStore,
    op1: Operation,
    op2: Operation,
    mapping: IndexMapping,
    r2: Result<(), Error>,
)
    requires
        op1 is Insert,
        op2 is Insert,
        field_str(op1->Insert_document@, "_id"@),
        field_str(op2->Insert_document@, "_id"@),
        insert_target(op1, mapping) == insert_target(op2, mapping),
        dispatch_spec(pre, op1, mapping, mid, Ok::<(), Error>(())),
        dispatch_spec(mid, op2, mapping, post, r2),
    ensures
        r2 == Err::<(), Error>(Error::DuplicateInsert),
        post.docs() == mid.docs(),
{
    let k = insert_target(op1, mapping);
    assert(mid.docs().dom() == pre.docs().dom().insert(k));
    assert(mid.docs().contains_key(k));
}

/// A field-level merge is idempotent: patching the same fields in twice
/// leaves the map that one patch leaves.
pub proof fn lemma_merge_idempotent(base: Map<Seq<char>, Val>, patch: Map<Seq<char>, Val>)
    ensures
        base.union_prefer_right(patch).union_prefer_right(patch) == base.union_prefer_right(patch),
{
    assert_maps_equal!(
        base.union_prefer_right(patch).union_prefer_right(patch),
        base.union_prefer_right(patch),
    );
}

/// Applying one and the same update event a second time changes nothing:
/// after the first dispatch succeeded, a repeat dispatch succeeds and leaves
/// every downstream document as it was.
pub proof fn lemma_update_idempotent(
    pre: IndexStore,
    mid: IndexStore,
    post: IndexStore,
    op: Operation,
    mapping: IndexMapping,
    r2: Result<(), Error>,
)
    requires
        op is Update,
        dispatch_spec(pre, op, mapping, mid, Ok::<(), Error>(())),
        dispatch_spec(mid, op, mapping, post, r2),
    ensures
        r2 == Ok::<(), Error>(()),
        post.docs().dom() == mid.docs().dom(),
        forall|k2: (Seq<char>, Seq<char>)|
            mid.docs().contains_key(k2) ==> post.docs()[k2]@ == mid.docs()[k2]@,
{
    let k = update_target(op, mapping);
    assert(pre.docs().contains_key(k));
    assert(mid.docs().contains_key(k));
    lemma_merge_idempotent(pre.docs()[k]@, op->Update_partial_document@);
    assert(post.docs()[k]@ == mid.docs()[k]@);
}

/// The call log only grows: everything already observed stays, in its order.
pub open spec fn appended(pre: Seq<Call>, post: Seq<Call>) -> bool {
    pre.len() <= post.len() && (forall|i: int| 0 <= i < pre.len() ==> post[i] == pre[i])
}

/// Dispatch never rewrites history: events dispatched in log order appear in
/// the call log in that order, each event's calls after all earlier ones.
pub proof fn lemma_dispatch_appends(
    pre: IndexStore,
    op: Operation,
    mapping: IndexMapping,
    post: IndexStore,
    r: Result<(), Error>,
)
    requires
        dispatch_spec(pre, op, mapping, post, r),
    ensures
        appended(pre.calls(), post.calls()),
{
    match op {
        Operation::NoOp { .. } => {},
        Operation::Unknown => {},
        Operation::CreateCollection { .. } => {},
        Operation::Insert { .. } => {},
        Operation::Update { .. } => {},
        Operation::Delete { .. } => {},
    }
}

} // verus!
