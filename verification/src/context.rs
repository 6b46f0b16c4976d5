//! The context store: an ordered key/value map of JSON-like values merged
//! into every outgoing event. Mutated only through insert/remove/clear and
//! read as a deep-copied snapshot, so readers never share structure with a
//! later mutation.

use vstd::prelude::*;

use crate::value::{
    clone_entries, entries_view, find_entry, find_key, lemma_entries_view_index, lemma_upsert,
    lookup, unique_keys, upsert, JVal, Value,
};

verus! {

/// Ambient metadata attached to every outgoing event.
#[derive(Debug)]
pub struct Context {
    /// The stored entries; each key occurs at most once.
    pub entries: Vec<(String, Value)>,
}

impl Context {
    /// The entries this store denotes.
    pub open spec fn view_entries(&self) -> Seq<(Seq<char>, JVal)> {
        entries_view(self.entries@)
    }

    /// Each key occurs at most once.
    pub open spec fn wf(&self) -> bool {
        unique_keys(entries_view(self.entries@))
    }

    /// An empty store.
    pub fn new() -> (r: Context)
        ensures
            r.entries@.len() == 0,
            r.view_entries() == Seq::<(Seq<char>, JVal)>::empty(),
            r.wf(),
    {
        Context { entries: Vec::new() }
    }

    /// Store `value` under `key`, last write winning, and hand back the value
    /// previously stored under that key, if any.
    pub fn insert(&mut self, key: String, value: Value) -> (r: Option<Value>)
        requires
            old(self).wf(),
        ensures
            final(self).wf(),
            final(self).view_entries() == upsert(old(self).view_entries(), key@, value@),
            match r {
                Some(p) => lookup(old(self).view_entries(), key@) == Some(p@),
                None => lookup(old(self).view_entries(), key@) is None,
            },
    {
        let ghost pre = self.entries@;
        let ghost vpre = entries_view(pre);
        proof {
            lemma_upsert(vpre, key@, value@);
        }
        match find_entry(&self.entries, &key) {
            Some(i) => {
                let prev = self.entries.remove(i);
                self.entries.insert(i, (key, value));
                proof {
                    assert(self.entries@ =~= pre.update(i as int, (key, value)));
                    lemma_entries_view_index(pre);
                    lemma_entries_view_index(self.entries@);
                    assert(self.view_entries() =~= upsert(vpre, key@, value@));
                    assert(prev == pre[i as int]);
                }
                Some(prev.1)
            },
            None => {
                self.entries.push((key, value));
                proof {
                    assert(self.entries@.drop_last() =~= pre);
                    lemma_entries_view_index(pre);
                    lemma_entries_view_index(self.entries@);
                    assert(self.view_entries() =~= upsert(vpre, key@, value@));
                }
                None
            },
        }
    }

    /// Take the value stored under `key` out of the store, if any.
    pub fn remove(&mut self, key: &str) -> (r: Option<Value>)
        requires
            old(self).wf(),
        ensures
            final(self).wf(),
            match r {
                Some(p) => lookup(old(self).view_entries(), key@) == Some(p@)
                    && final(self).view_entries() == old(self).view_entries().remove(
                    find_key(old(self).view_entries(), key@),
                ),
                None => lookup(old(self).view_entries(), key@) is None && *final(self) == *old(
                    self,
                ),
            },
    {
        let ghost pre = self.entries@;
        let ghost vpre = entries_view(pre);
        let owned = key.to_owned();
        match find_entry(&self.entries, &owned) {
            Some(i) => {
                let prev = self.entries.remove(i);
                proof {
                    lemma_entries_view_index(pre);
                    lemma_entries_view_index(self.entries@);
                    assert(self.view_entries() =~= vpre.remove(i as int));
                    assert forall|a: int, b: int|
                        0 <= a < b < self.view_entries().len() implies (
                    #[trigger] self.view_entries()[a].0) != (
                    #[trigger] self.view_entries()[b].0) by {
                        let va = if a < i as int {
                            a
                        } else {
                            a + 1
                        };
                        let vb = if b < i as int {
                            b
                        } else {
                            b + 1
                        };
                        assert(self.view_entries()[a] == vpre[va]);
                        assert(self.view_entries()[b] == vpre[vb]);
                    }
                    assert(prev == pre[i as int]);
                }
                Some(prev.1)
            },
            None => None,
        }
    }

    /// Drop every entry.
    pub fn clear(&mut self)
        ensures
            final(self).entries@.len() == 0,
            final(self).view_entries() == Seq::<(Seq<char>, JVal)>::empty(),
            final(self).wf(),
    {
        self.entries.clear();
    }

    /// The stored entries as one JSON object, deep-copied.
    pub fn snapshot(&self) -> (r: Value)
        ensures
            r@ == JVal::Obj(self.view_entries()),
    {
        Value::Obj(clone_entries(&self.entries))
    }

    /// A deep copy of the whole store.
    pub fn get(&self) -> (r: Context)
        ensures
            r.view_entries() == self.view_entries(),
            self.wf() ==> r.wf(),
    {
        Context { entries: clone_entries(&self.entries) }
    }
}

} // verus!
