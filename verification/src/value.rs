//! The document model: structured key-value trees mirroring a source record.
//!
//! A [`Doc`] is a flat list of distinct string keys, each bound to a [`Val`];
//! values nest arbitrarily (scalars, arrays, sub-documents). A document's
//! abstract view is the map from key (as a character sequence) to bound value,
//! and every operation is specified against that map.

use vstd::prelude::*;
use vstd::assert_seqs_equal;
use vstd::map::*;

verus! {

/// One value of a document field: a scalar, an array, or a nested document.
#[derive(Debug, PartialEq)]
pub enum Val {
    Null,
    Bool(bool),
    Int(i64),
    Str(String),
    Arr(Vec<Val>),
    Obj(Doc),
}

impl Val {
    /// The string payload, if this value is a string.
    pub fn as_str(&self) -> (r: Option<&String>)
        ensures
            match r {
                Some(s) => self matches Val::Str(t) && t == s,
                None => !(self is Str),
            },
    {
        match self {
            Val::Str(s) => Some(s),
            _ => None,
        }
    }
}

/// `k` is bound to a string value in `m`.
pub open spec fn field_str(m: Map<Seq<char>, Val>, k: Seq<char>) -> bool {
    m.contains_key(k) && m[k] is Str
}

/// `k` is bound to a sub-document in `m`.
pub open spec fn field_doc(m: Map<Seq<char>, Val>, k: Seq<char>) -> bool {
    m.contains_key(k) && m[k] is Obj
}

/// The characters of the string bound to `k`.
pub open spec fn str_at(m: Map<Seq<char>, Val>, k: Seq<char>) -> Seq<char> {
    match m[k] {
        Val::Str(s) => s@,
        _ => Seq::empty(),
    }
}

/// The map of the sub-document bound to `k`.
pub open spec fn doc_at(m: Map<Seq<char>, Val>, k: Seq<char>) -> Map<Seq<char>, Val> {
    match m[k] {
        Val::Obj(d) => d@,
        _ => Map::empty(),
    }
}

/// The map an association list denotes: a later binding of a key shadows an
/// earlier one.
pub open spec fn assoc_map<K: View, V>(s: Seq<(K, V)>) -> Map<<K as View>::V, V>
    decreases s.len(),
{
    if s.len() == 0 {
        Map::empty()
    } else {
        assoc_map(s.drop_last()).insert(s.last().0@, s.last().1)
    }
}

/// No two entries of the list bind the same key.
pub open spec fn unique_keys<K: View, V>(s: Seq<(K, V)>) -> bool {
    forall|i: int, j: int|
        #![trigger s[i], s[j]]
        0 <= i < j < s.len() ==> s[i].0@ != s[j].0@
}

/// A key is in the denoted map exactly when some entry binds it.
pub proof fn lemma_assoc_contains<K: View, V>(s: Seq<(K, V)>, k: <K as View>::V)
    ensures
        assoc_map(s).contains_key(k) <==> exists|i: int| 0 <= i < s.len() && s[i].0@ == k,
    decreases s.len(),
{
    if s.len() > 0 {
        lemma_assoc_contains(s.drop_last(), k);
        if s.last().0@ == k {
            assert(s[s.len() - 1].0@ == k);
        } else {
            if assoc_map(s).contains_key(k) {
                let i = choose|i: int| 0 <= i < s.drop_last().len() && s.drop_last()[i].0@ == k;
                assert(s[i].0@ == k);
            }
            if exists|i: int| 0 <= i < s.len() && s[i].0@ == k {
                let i = choose|i: int| 0 <= i < s.len() && s[i].0@ == k;
                assert(s.drop_last()[i].0@ == k);
            }
        }
    }
}

/// Under distinct keys, each entry's key maps to that entry's value.
pub proof fn lemma_assoc_index<K: View, V>(s: Seq<(K, V)>, i: int)
    requires
        unique_keys(s),
        0 <= i < s.len(),
    ensures
        assoc_map(s).contains_key(s[i].0@),
        assoc_map(s)[s[i].0@] == s[i].1,
    decreases s.len(),
{
    if i < s.len() - 1 {
        lemma_assoc_index(s.drop_last(), i);
        assert(s.drop_last()[i] == s[i]);
    }
}

/// Removing one entry removes exactly its key from the denoted map.
pub proof fn lemma_assoc_remove_at<K: View, V>(s: Seq<(K, V)>, i: int)
    requires
        unique_keys(s),
        0 <= i < s.len(),
    ensures
        assoc_map(s.remove(i)) == assoc_map(s).remove(s[i].0@),
    decreases s.len(),
{
    if i == s.len() - 1 {
        assert_seqs_equal!(s.remove(i) == s.drop_last());
        lemma_assoc_contains(s.drop_last(), s[i].0@);
        assert_maps_equal!(
            assoc_map(s.drop_last()).insert(s[i].0@, s[i].1).remove(s[i].0@),
            assoc_map(s.drop_last()),
        );
    } else {
        lemma_assoc_remove_at(s.drop_last(), i);
        assert_seqs_equal!(s.remove(i).drop_last() == s.drop_last().remove(i));
        assert(s.remove(i).last() == s.last());
        assert(s[i].0@ != s.last().0@);
        assert_maps_equal!(
            assoc_map(s.drop_last()).remove(s[i].0@).insert(s.last().0@, s.last().1),
            assoc_map(s.drop_last()).insert(s.last().0@, s.last().1).remove(s[i].0@),
        );
    }
}

/// Distinct keys survive removing an entry.
pub proof fn lemma_unique_remove<K: View, V>(s: Seq<(K, V)>, i: int)
    requires
        unique_keys(s),
        0 <= i < s.len(),
    ensures
        unique_keys(s.remove(i)),
{
    assert forall|a: int, b: int| 0 <= a < b < s.remove(i).len() implies #[trigger] s.remove(
        i,
    )[a].0@ != #[trigger] s.remove(i)[b].0@ by {
        let a0 = if a < i {
            a
        } else {
            a + 1
        };
        let b0 = if b < i {
            b
        } else {
            b + 1
        };
        assert(s.remove(i)[a] == s[a0]);
        assert(s.remove(i)[b] == s[b0]);
    }
}

/// A structured record: distinct string keys bound to values, abstracted as a
/// map from key to value.
#[derive(Debug, PartialEq)]
pub struct Doc {
    fields: Vec<(String, Val)>,
}

impl View for Doc {
    type V = Map<Seq<char>, Val>;

    closed spec fn view(&self) -> Map<Seq<char>, Val> {
        assoc_map(self.fields@)
    }
}

impl Doc {
    /// Well-formedness: no key is bound twice.
    pub closed spec fn wf(&self) -> bool {
        unique_keys(self.fields@)
    }

    /// The empty document.
    pub fn new() -> (d: Doc)
        ensures
            d.wf(),
            d@ == Map::<Seq<char>, Val>::empty(),
    {
        Doc { fields: Vec::new() }
    }

    /// The value bound to `k`, if any.
    pub fn get(&self, k: &String) -> (r: Option<&Val>)
        requires
            self.wf(),
        ensures
            match r {
                Some(v) => self@.contains_key(k@) && *v == self@[k@],
                None => !self@.contains_key(k@),
            },
    {
        let n = self.fields.len();
        let mut i: usize = 0;
        while i < n
            invariant
                n == self.fields.len(),
                i <= n,
                self.wf(),
                forall|j: int| 0 <= j < i ==> #[trigger] self.fields@[j].0@ != k@,
            decreases n - i,
        {
            let p = &self.fields[i];
            if p.0 == *k {
                proof {
                    lemma_assoc_index(self.fields@, i as int);
                }
                return Some(&p.1);
            }
            i = i + 1;
        }
        proof {
            lemma_assoc_contains(self.fields@, k@);
        }
        None
    }

    /// Whether `k` is bound.
    pub fn contains_key(&self, k: &String) -> (r: bool)
        requires
            self.wf(),
        ensures
            r == self@.contains_key(k@),
    {
        self.get(k).is_some()
    }

    /// Removes the binding of `k`, handing back its value if it was bound.
    pub fn take(&mut self, k: &String) -> (r: Option<Val>)
        requires
            old(self).wf(),
        ensures
            final(self).wf(),
            final(self)@ == old(self)@.remove(k@),
            match r {
                Some(v) => old(self)@.contains_key(k@) && v == old(self)@[k@],
                None => !old(self)@.contains_key(k@),
            },
    {
        let n = self.fields.len();
        let mut i: usize = 0;
        while i < n
            invariant
                n == self.fields.len(),
                i <= n,
                self == old(self),
                self.wf(),
                forall|j: int| 0 <= j < i ==> #[trigger] self.fields@[j].0@ != k@,
            decreases n - i,
        {
            if self.fields[i].0 == *k {
                proof {
                    lemma_assoc_index(self.fields@, i as int);
                    lemma_assoc_remove_at(self.fields@, i as int);
                    lemma_unique_remove(self.fields@, i as int);
                }
                let p = self.fields.remove(i);
                return Some(p.1);
            }
            i = i + 1;
        }
        proof {
            lemma_assoc_contains(self.fields@, k@);
            assert(old(self)@.remove(k@) =~= old(self)@);
        }
        None
    }

    /// Binds `k` to `v`, shadowing nothing: any earlier binding is dropped.
    pub fn set(&mut self, k: String, v: Val)
        requires
            old(self).wf(),
        ensures
            final(self).wf(),
            final(self)@ == old(self)@.insert(k@, v),
    {
        let _prev = self.take(&k);
        proof {
            lemma_assoc_contains(self.fields@, k@);
        }
        let ghost s = self.fields@;
        self.fields.push((k, v));
        proof {
            assert_seqs_equal!(self.fields@.drop_last() == s);
            assert(old(self)@.remove(k@).insert(k@, v) =~= old(self)@.insert(k@, v));
        }
    }

    /// The document without any binding of `k`.
    pub fn without(self, k: &String) -> (d: Doc)
        requires
            self.wf(),
        ensures
            d.wf(),
            d@ == self@.remove(k@),
            !d@.contains_key(k@),
    {
        let mut d = self;
        let _prev = d.take(k);
        d
    }

    /// Merges `patch` into this document field by field: every field of
    /// `patch` replaces or adds its binding, every other field stays.
    pub fn merge_from(&mut self, patch: Doc)
        requires
            old(self).wf(),
            patch.wf(),
        ensures
            final(self).wf(),
            final(self)@ == old(self)@.union_prefer_right(patch@),
    {
        let ghost orig = patch.fields@;
        let mut rest = patch;
        let ghost mut j: int = 0;
        proof {
            assert_seqs_equal!(rest.fields@ == orig.subrange(0, orig.len() as int));
            assert(old(self)@.union_prefer_right(assoc_map(orig.subrange(0, 0))) =~= old(
                self,
            )@);
        }
        while rest.fields.len() > 0
            invariant
                0 <= j <= orig.len(),
                unique_keys(orig),
                rest.fields@ == orig.subrange(j, orig.len() as int),
                rest.wf(),
                self.wf(),
                self@ == old(self)@.union_prefer_right(assoc_map(orig.subrange(0, j))),
            decreases rest.fields.len(),
        {
            let ghost before = rest.fields@;
            let pair = rest.fields.remove(0);
            proof {
                lemma_unique_remove(before, 0);
                assert_seqs_equal!(rest.fields@ == orig.subrange(j + 1, orig.len() as int));
                assert(pair == orig[j]);
            }
            let ghost mid = self@;
            self.set(pair.0, pair.1);
            proof {
                let sub1 = orig.subrange(0, j + 1);
                assert_seqs_equal!(sub1.drop_last() == orig.subrange(0, j));
                assert(sub1.last() == orig[j]);
                assert_maps_equal!(
                    mid.insert(pair.0@, pair.1),
                    old(self)@.union_prefer_right(assoc_map(sub1)),
                );
                j = j + 1;
            }
        }
        proof {
            assert_seqs_equal!(orig.subrange(0, orig.len() as int) == orig);
        }
    }

    /// The same document rebuilt with each key bound once; the denoted map is
    /// untouched. Well-formedness is established for a document of unknown
    /// provenance.
    pub fn normalized(self) -> (d: Doc)
        ensures
            d.wf(),
            d@ == self@,
    {
        let ghost orig = self.fields@;
        let mut rest = self;
        let mut out = Doc::new();
        let ghost mut j: int = 0;
        proof {
            assert_seqs_equal!(rest.fields@ == orig.subrange(0, orig.len() as int));
        }
        while rest.fields.len() > 0
            invariant
                0 <= j <= orig.len(),
                rest.fields@ == orig.subrange(j, orig.len() as int),
                out.wf(),
                out@ == assoc_map(orig.subrange(0, j)),
            decreases rest.fields.len(),
        {
            let pair = rest.fields.remove(0);
            proof {
                assert_seqs_equal!(rest.fields@ == orig.subrange(j + 1, orig.len() as int));
                assert(pair == orig[j]);
            }
            out.set(pair.0, pair.1);
            proof {
                let sub1 = orig.subrange(0, j + 1);
                assert_seqs_equal!(sub1.drop_last() == orig.subrange(0, j));
                assert(sub1.last() == orig[j]);
                j = j + 1;
            }
        }
        proof {
            assert_seqs_equal!(orig.subrange(0, orig.len() as int) == orig);
        }
        out
    }

    /// The bindings as a list: each key once, together denoting exactly this
    /// document's map.
    pub fn entries(&self) -> (r: &Vec<(String, Val)>)
        requires
            self.wf(),
        ensures
            unique_keys(r@),
            assoc_map(r@) == self@,
    {
        &self.fields
    }

    /// The string bound to `k`: present only when `k` is bound to a string
    /// value.
    pub fn get_str(&self, k: &String) -> (r: Option<&String>)
        requires
            self.wf(),
        ensures
            match r {
                Some(s) => self@.contains_key(k@) && (self@[k@] matches Val::Str(t) && t == s),
                None => !(self@.contains_key(k@) && self@[k@] is Str),
            },
    {
        match self.get(k) {
            Some(v) => v.as_str(),
            None => None,
        }
    }
}

} // verus!
