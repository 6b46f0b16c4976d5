//! JSON-like values and the recursive deep merge used for context
//! enrichment: object merged into object recurses key by key, any other
//! combination is replaced wholesale by the right-hand value.

use vstd::prelude::*;

verus! {

/// A JSON-like value. Objects keep their entries as a list of key/value
/// pairs with distinct keys; entry order carries no meaning to callers.
#[derive(Debug, PartialEq)]
pub enum Value {
    Null,
    Bool(bool),
    Int(i64),
    Str(String),
    Arr(Vec<Value>),
    Obj(Vec<(String, Value)>),
}

/// The mathematical shape of a `Value`.
pub enum JVal {
    Null,
    Bool(bool),
    Int(int),
    Str(Seq<char>),
    Arr(Seq<JVal>),
    Obj(Seq<(Seq<char>, JVal)>),
}

/// Shape of a sequence of values.
pub open spec fn values_view(s: Seq<Value>) -> Seq<JVal>
    decreases s,
{
    if s.len() == 0 {
        Seq::empty()
    } else {
        values_view(s.drop_last()).push(value_view(s.last()))
    }
}

/// Shape of a sequence of object entries.
pub open spec fn entries_view(es: Seq<(String, Value)>) -> Seq<(Seq<char>, JVal)>
    decreases es,
{
    if es.len() == 0 {
        Seq::empty()
    } else {
        entries_view(es.drop_last()).push((es.last().0@, value_view(es.last().1)))
    }
}

/// Shape of a value.
pub open spec fn value_view(v: Value) -> JVal
    decreases v,
{
    match v {
        Value::Null => JVal::Null,
        Value::Bool(b) => JVal::Bool(b),
        Value::Int(i) => JVal::Int(i as int),
        Value::Str(s) => JVal::Str(s@),
        Value::Arr(items) => JVal::Arr(values_view(items@)),
        Value::Obj(entries) => JVal::Obj(entries_view(entries@)),
    }
}

impl View for Value {
    type V = JVal;

    open spec fn view(&self) -> JVal {
        value_view(*self)
    }
}

impl DeepView for Value {
    type V = JVal;

    open spec fn deep_view(&self) -> JVal {
        value_view(*self)
    }
}

/// `values_view` maps the shape over the sequence, element by element.
pub proof fn lemma_values_view_index(s: Seq<Value>)
    ensures
        values_view(s).len() == s.len(),
        forall|i: int| 0 <= i < s.len() ==> #[trigger] values_view(s)[i] == value_view(s[i]),
    decreases s.len(),
{
    if s.len() > 0 {
        lemma_values_view_index(s.drop_last());
    }
}

/// `entries_view` maps the shape over the entries, entry by entry.
pub proof fn lemma_entries_view_index(es: Seq<(String, Value)>)
    ensures
        entries_view(es).len() == es.len(),
        forall|i: int|
            0 <= i < es.len() ==> #[trigger] entries_view(es)[i] == (
            es[i].0@,
            value_view(es[i].1),
            ),
    decreases es.len(),
{
    if es.len() > 0 {
        lemma_entries_view_index(es.drop_last());
    }
}

/// Index of the first entry carrying key `k`, or -1 when no entry does.
pub open spec fn find_key(es: Seq<(Seq<char>, JVal)>, k: Seq<char>) -> int
    decreases es.len(),
{
    if es.len() == 0 {
        -1
    } else if es[0].0 == k {
        0
    } else {
        let r = find_key(es.drop_first(), k);
        if r == -1 {
            -1
        } else {
            r + 1
        }
    }
}

/// The value stored under key `k`, if any.
pub open spec fn lookup(es: Seq<(Seq<char>, JVal)>, k: Seq<char>) -> Option<JVal> {
    let i = find_key(es, k);
    if i >= 0 {
        Some(es[i].1)
    } else {
        None
    }
}

/// What `find_key` means: -1 exactly when the key is absent, otherwise the
/// first index carrying it.
pub proof fn lemma_find_key(es: Seq<(Seq<char>, JVal)>, k: Seq<char>)
    ensures
        find_key(es, k) == -1 ==> forall|i: int| 0 <= i < es.len() ==> es[i].0 != k,
        find_key(es, k) != -1 ==> 0 <= find_key(es, k) < es.len() && es[find_key(es, k)].0 == k
            && forall|i: int| 0 <= i < find_key(es, k) ==> es[i].0 != k,
    decreases es.len(),
{
    if es.len() > 0 && es[0].0 != k {
        let df = es.drop_first();
        lemma_find_key(df, k);
        let r = find_key(df, k);
        if r == -1 {
            assert forall|i: int| 0 <= i < es.len() implies es[i].0 != k by {
                if i >= 1 {
                    assert(df[i - 1].0 != k);
                    assert(es[i] == df[i - 1]);
                }
            }
        } else {
            assert(find_key(es, k) == r + 1);
            assert(es[r + 1] == df[r]);
            assert forall|i: int| 0 <= i < r + 1 implies es[i].0 != k by {
                if i >= 1 {
                    assert(df[i - 1].0 != k);
                    assert(es[i] == df[i - 1]);
                }
            }
        }
    }
}

/// Replace the value under `k`, or append the pair when `k` is absent.
pub open spec fn upsert(es: Seq<(Seq<char>, JVal)>, k: Seq<char>, v: JVal) -> Seq<
    (Seq<char>, JVal),
> {
    let i = find_key(es, k);
    if i >= 0 {
        es.update(i, (k, v))
    } else {
        es.push((k, v))
    }
}

/// Deep merge of two shapes: two objects merge key by key, recursively; any
/// other combination is replaced wholesale by the right-hand shape.
pub open spec fn merge_jval(a: JVal, b: JVal) -> JVal
    decreases b, 0int,
{
    match (a, b) {
        (JVal::Obj(ea), JVal::Obj(eb)) => JVal::Obj(merge_entries(ea, eb, 0)),
        _ => b,
    }
}

/// Merge the entries of `eb` from index `i` on into `ea`, one at a time: an
/// entry whose key `ea` already carries has the two values merged in place,
/// a new key is appended.
pub open spec fn merge_entries(
    ea: Seq<(Seq<char>, JVal)>,
    eb: Seq<(Seq<char>, JVal)>,
    i: int,
) -> Seq<(Seq<char>, JVal)>
    decreases eb, eb.len() - i,
{
    if i < 0 || i >= eb.len() {
        ea
    } else {
        let k = eb[i].0;
        let v = eb[i].1;
        let m = match lookup(ea, k) {
            Some(w) => merge_jval(w, v),
            None => v,
        };
        merge_entries(upsert(ea, k, m), eb, i + 1)
    }
}

/// Each key occurs at most once among the entries.
pub open spec fn unique_keys(es: Seq<(Seq<char>, JVal)>) -> bool {
    forall|i: int, j: int| 0 <= i < j < es.len() ==> (#[trigger] es[i].0) != (#[trigger] es[j].0)
}

/// Entries from index `i` on hold well-formed values.
pub open spec fn entries_deep_wf(es: Seq<(Seq<char>, JVal)>, i: int) -> bool
    decreases es, es.len() - i,
{
    i < 0 || i >= es.len() || (deep_wf(es[i].1) && entries_deep_wf(es, i + 1))
}

/// Every object reachable inside the shape has distinct keys.
pub open spec fn deep_wf(v: JVal) -> bool
    decreases v, 0int,
{
    match v {
        JVal::Obj(es) => unique_keys(es) && entries_deep_wf(es, 0),
        _ => true,
    }
}

/// When `j` is the first index carrying `k`, `find_key` returns `j`.
pub proof fn lemma_find_key_at(es: Seq<(Seq<char>, JVal)>, k: Seq<char>, j: int)
    requires
        0 <= j < es.len(),
        es[j].0 == k,
        forall|t: int| 0 <= t < j ==> es[t].0 != k,
    ensures
        find_key(es, k) == j,
    decreases es.len(),
{
    if j > 0 {
        let df = es.drop_first();
        assert forall|t: int| 0 <= t < j - 1 implies df[t].0 != k by {
            assert(df[t] == es[t + 1]);
        }
        assert(df[j - 1] == es[j]);
        lemma_find_key_at(df, k, j - 1);
    }
}

/// When no entry carries `k`, `find_key` returns -1.
pub proof fn lemma_find_key_absent(es: Seq<(Seq<char>, JVal)>, k: Seq<char>)
    requires
        forall|t: int| 0 <= t < es.len() ==> es[t].0 != k,
    ensures
        find_key(es, k) == -1,
{
    lemma_find_key(es, k);
}

/// What `upsert` does, key by key: the written key now holds the new value,
/// every other key is untouched, and keys stay unique.
pub proof fn lemma_upsert(es: Seq<(Seq<char>, JVal)>, k: Seq<char>, v: JVal)
    requires
        unique_keys(es),
    ensures
        unique_keys(upsert(es, k, v)),
        lookup(upsert(es, k, v), k) == Some(v),
        forall|k2: Seq<char>| k2 != k ==> #[trigger] lookup(upsert(es, k, v), k2) == lookup(
            es,
            k2,
        ),
{
    lemma_find_key(es, k);
    let i = find_key(es, k);
    let r = upsert(es, k, v);
    if i >= 0 {
        assert(r == es.update(i, (k, v)));
        assert forall|a: int, b: int| 0 <= a < b < r.len() implies (#[trigger] r[a].0) != (
        #[trigger] r[b].0) by {
            assert(r[a].0 == es[a].0);
            assert(r[b].0 == es[b].0);
        }
        assert forall|t: int| 0 <= t < i implies r[t].0 != k by {
            assert(r[t].0 == es[t].0);
        }
        lemma_find_key_at(r, k, i);
        assert(lookup(r, k) == Some(v));
        assert forall|k2: Seq<char>| k2 != k implies #[trigger] lookup(r, k2) == lookup(
            es,
            k2,
        ) by {
            lemma_find_key(es, k2);
            let f2 = find_key(es, k2);
            if f2 == -1 {
                assert forall|t: int| 0 <= t < r.len() implies r[t].0 != k2 by {
                    if t != i {
                        assert(r[t].0 == es[t].0);
                    }
                }
                lemma_find_key_absent(r, k2);
            } else {
                assert(f2 != i);
                assert(r[f2] == es[f2]);
                assert forall|t: int| 0 <= t < f2 implies r[t].0 != k2 by {
                    if t != i {
                        assert(r[t].0 == es[t].0);
                    }
                }
                lemma_find_key_at(r, k2, f2);
            }
        }
    } else {
        assert(r == es.push((k, v)));
        assert forall|a: int, b: int| 0 <= a < b < r.len() implies (#[trigger] r[a].0) != (
        #[trigger] r[b].0) by {
            assert(r[a] == es[a]);
            if b < es.len() {
                assert(r[b] == es[b]);
            } else {
                assert(r[b].0 == k);
                assert(es[a].0 != k);
            }
        }
        assert forall|t: int| 0 <= t < es.len() implies r[t].0 != k by {
            assert(r[t] == es[t]);
        }
        assert(r[es.len() as int].0 == k);
        lemma_find_key_at(r, k, es.len() as int);
        assert(lookup(r, k) == Some(v));
        assert forall|k2: Seq<char>| k2 != k implies #[trigger] lookup(r, k2) == lookup(
            es,
            k2,
        ) by {
            lemma_find_key(es, k2);
            let f2 = find_key(es, k2);
            if f2 == -1 {
                assert forall|t: int| 0 <= t < r.len() implies r[t].0 != k2 by {
                    if t < es.len() {
                        assert(r[t] == es[t]);
                    } else {
                        assert(r[t].0 == k);
                    }
                }
                lemma_find_key_absent(r, k2);
            } else {
                assert(r[f2] == es[f2]);
                assert forall|t: int| 0 <= t < f2 implies r[t].0 != k2 by {
                    assert(r[t] == es[t]);
                }
                lemma_find_key_at(r, k2, f2);
            }
        }
    }
}

/// The merged value stored under any key `k`, stated over the whole merge of
/// `eb` from index `i` on: a key only in `ea` keeps its value, a key only in
/// `eb` takes `eb`'s value, a key in both holds the recursive merge of the
/// two values. Keys stay unique.
pub proof fn lemma_merge_entries_lookup(
    ea: Seq<(Seq<char>, JVal)>,
    eb: Seq<(Seq<char>, JVal)>,
    i: int,
    k: Seq<char>,
)
    requires
        unique_keys(ea),
        unique_keys(eb),
        0 <= i <= eb.len(),
    ensures
        unique_keys(merge_entries(ea, eb, i)),
        (forall|j: int| i <= j < eb.len() ==> (#[trigger] eb[j].0) != k) ==> lookup(
            merge_entries(ea, eb, i),
            k,
        ) == lookup(ea, k),
        forall|j: int|
            i <= j < eb.len() && (#[trigger] eb[j].0) == k ==> lookup(merge_entries(ea, eb, i), k)
                == (match lookup(ea, k) {
                Some(w) => Some(merge_jval(w, eb[j].1)),
                None => Some(eb[j].1),
            }),
    decreases eb.len() - i,
{
    if i < eb.len() {
        let kj = eb[i].0;
        let vj = eb[i].1;
        let m = match lookup(ea, kj) {
            Some(w) => merge_jval(w, vj),
            None => vj,
        };
        let ea2 = upsert(ea, kj, m);
        lemma_upsert(ea, kj, m);
        lemma_merge_entries_lookup(ea2, eb, i + 1, k);
        if k == kj {
            assert(lookup(ea2, k) == Some(m));
            assert forall|j: int| i + 1 <= j < eb.len() implies (#[trigger] eb[j].0) != k by {
                assert(eb[i].0 == eb[j].0 ==> i == j);
            }
            assert(lookup(merge_entries(ea, eb, i), k) == Some(m));
        } else {
            assert(lookup(ea2, k) == lookup(ea, k));
        }
    }
}

/// Law: what the merge of two objects stores under any key `k`. A key only
/// in `a` keeps `a`'s value; a key only in `b` takes `b`'s value; a key in
/// both holds the recursive merge of the two values — in particular, when
/// the two values are not both objects, `b`'s value wins wholesale
/// (right-biased).
pub proof fn lemma_merge_lookup(a: JVal, b: JVal, k: Seq<char>)
    requires
        a is Obj,
        b is Obj,
        unique_keys(a->Obj_0),
        unique_keys(b->Obj_0),
    ensures
        merge_jval(a, b) is Obj,
        unique_keys(merge_jval(a, b)->Obj_0),
        lookup(b->Obj_0, k) is None ==> lookup(merge_jval(a, b)->Obj_0, k) == lookup(
            a->Obj_0,
            k,
        ),
        lookup(b->Obj_0, k) is Some && lookup(a->Obj_0, k) is None ==> lookup(
            merge_jval(a, b)->Obj_0,
            k,
        ) == lookup(b->Obj_0, k),
        lookup(a->Obj_0, k) is Some && lookup(b->Obj_0, k) is Some ==> lookup(
            merge_jval(a, b)->Obj_0,
            k,
        ) == Some(merge_jval(lookup(a->Obj_0, k)->0, lookup(b->Obj_0, k)->0)),
        lookup(a->Obj_0, k) is Some && lookup(b->Obj_0, k) is Some && !(lookup(a->Obj_0, k)->0
            is Obj && lookup(b->Obj_0, k)->0 is Obj) ==> lookup(merge_jval(a, b)->Obj_0, k)
            == lookup(b->Obj_0, k),
{
    let ea = a->Obj_0;
    let eb = b->Obj_0;
    lemma_find_key(eb, k);
    lemma_merge_entries_lookup(ea, eb, 0, k);
    if lookup(eb, k) is Some {
        let j = find_key(eb, k);
        assert(0 <= j < eb.len() && eb[j].0 == k);
    }
}

/// Merging entries whose keys are all new appends them, in order.
pub proof fn lemma_merge_entries_disjoint(
    ea: Seq<(Seq<char>, JVal)>,
    eb: Seq<(Seq<char>, JVal)>,
    i: int,
)
    requires
        unique_keys(ea),
        unique_keys(eb),
        0 <= i <= eb.len(),
        forall|j: int| i <= j < eb.len() ==> find_key(ea, (#[trigger] eb[j]).0) == -1,
    ensures
        merge_entries(ea, eb, i) == ea + eb.subrange(i, eb.len() as int),
    decreases eb.len() - i,
{
    if i == eb.len() {
        assert(ea + eb.subrange(i, eb.len() as int) =~= ea);
    } else {
        let k = eb[i].0;
        let vj = eb[i].1;
        lemma_find_key(ea, k);
        assert(lookup(ea, k) is None);
        let ea2 = upsert(ea, k, vj);
        assert(ea2 == ea.push((k, vj)));
        lemma_upsert(ea, k, vj);
        assert forall|j: int| i + 1 <= j < eb.len() implies find_key(
            ea2,
            (#[trigger] eb[j]).0,
        ) == -1 by {
            lemma_find_key(ea, eb[j].0);
            assert forall|t: int| 0 <= t < ea2.len() implies ea2[t].0 != eb[j].0 by {
                if t < ea.len() {
                    assert(ea2[t] == ea[t]);
                } else {
                    assert(ea2[t].0 == k);
                    assert(eb[i].0 != eb[j].0);
                }
            }
            lemma_find_key_absent(ea2, eb[j].0);
        }
        lemma_merge_entries_disjoint(ea2, eb, i + 1, );
        assert(ea2 + eb.subrange(i + 1, eb.len() as int) =~= ea + eb.subrange(
            i,
            eb.len() as int,
        ));
    }
}

/// Merging a well-formed shape into itself changes nothing.
pub proof fn lemma_merge_jval_self(v: JVal)
    requires
        deep_wf(v),
    ensures
        merge_jval(v, v) == v,
    decreases v, 1int,
{
    match v {
        JVal::Obj(es) => {
            assert forall|j: int| 0 <= j < es.len() implies lookup(es, (#[trigger] es[j]).0)
                == Some(es[j].1) by {
                lemma_find_key_at(es, es[j].0, j);
            }
            lemma_merge_entries_absorb(es, es, 0);
        },
        _ => {},
    }
}

/// Merging entries that are already present, with equal well-formed values,
/// changes nothing.
pub proof fn lemma_merge_entries_absorb(
    e: Seq<(Seq<char>, JVal)>,
    eb: Seq<(Seq<char>, JVal)>,
    i: int,
)
    requires
        unique_keys(e),
        unique_keys(eb),
        entries_deep_wf(eb, i),
        0 <= i <= eb.len(),
        forall|j: int| i <= j < eb.len() ==> lookup(e, (#[trigger] eb[j]).0) == Some(eb[j].1),
    ensures
        merge_entries(e, eb, i) == e,
    decreases eb, eb.len() - i,
{
    if i < eb.len() {
        let k = eb[i].0;
        let vj = eb[i].1;
        assert(lookup(e, k) == Some(vj));
        lemma_merge_jval_self(vj);
        let m = merge_jval(vj, vj);
        assert(m == vj);
        lemma_find_key(e, k);
        let f = find_key(e, k);
        assert(e[f].0 == k && e[f].1 == vj);
        assert(upsert(e, k, m) =~= e);
        lemma_merge_entries_absorb(e, eb, i + 1);
    }
}

/// Law: merging an object with disjoint keys is a plain union of the
/// entries, and doing the same merge again changes nothing more.
pub proof fn lemma_merge_disjoint_idempotent(a: JVal, b: JVal)
    requires
        a is Obj,
        b is Obj,
        unique_keys(a->Obj_0),
        unique_keys(b->Obj_0),
        entries_deep_wf(b->Obj_0, 0),
        forall|j: int|
            0 <= j < (b->Obj_0).len() ==> find_key(a->Obj_0, ((#[trigger] (b->Obj_0)[j])).0)
                == -1,
    ensures
        merge_jval(a, b) == JVal::Obj(a->Obj_0 + b->Obj_0),
        merge_jval(merge_jval(a, b), b) == merge_jval(a, b),
{
    let ea = a->Obj_0;
    let eb = b->Obj_0;
    lemma_merge_entries_disjoint(ea, eb, 0);
    assert(eb.subrange(0, eb.len() as int) =~= eb);
    let u = ea + eb;
    assert forall|s: int, t: int| 0 <= s < t < u.len() implies (#[trigger] u[s].0) != (
    #[trigger] u[t].0) by {
        if t < ea.len() {
        } else if s >= ea.len() {
            assert(u[s] == eb[s - ea.len()]);
            assert(u[t] == eb[t - ea.len()]);
        } else {
            assert(u[s] == ea[s]);
            assert(u[t] == eb[t - ea.len()]);
            lemma_find_key(ea, eb[t - ea.len()].0);
        }
    }
    assert forall|j: int| 0 <= j < eb.len() implies lookup(u, (#[trigger] eb[j]).0) == Some(
        eb[j].1,
    ) by {
        lemma_find_key(ea, eb[j].0);
        assert forall|t: int| 0 <= t < ea.len() + j implies u[t].0 != eb[j].0 by {
            if t < ea.len() {
                assert(u[t] == ea[t]);
            } else {
                assert(u[t] == eb[t - ea.len()]);
            }
        }
        assert(u[ea.len() + j] == eb[j]);
        lemma_find_key_at(u, eb[j].0, ea.len() + j);
    }
    lemma_merge_entries_absorb(u, eb, 0);
}

impl Value {
    /// A deep copy: the result has the same shape.
    pub fn deep_clone(&self) -> (r: Value)
        ensures
            r@ == self@,
        decreases self,
    {
        match self {
            Value::Null => Value::Null,
            Value::Bool(b) => Value::Bool(*b),
            Value::Int(i) => Value::Int(*i),
            Value::Str(s) => Value::Str(s.clone()),
            Value::Arr(items) => Value::Arr(clone_values(items)),
            Value::Obj(entries) => Value::Obj(clone_entries(entries)),
        }
    }
}

impl Clone for Value {
    /// Cloning is a deep copy: the clone has the same shape.
    fn clone(&self) -> (r: Value)
        ensures
            r@ == self@,
    {
        self.deep_clone()
    }
}

/// Deep copy of a vector of values, element by element.
fn clone_values(items: &Vec<Value>) -> (r: Vec<Value>)
    ensures
        values_view(r@) == values_view(items@),
    decreases items,
{
    let mut out: Vec<Value> = Vec::new();
    let mut j: usize = 0;
    proof {
        lemma_values_view_index(items@);
    }
    while j < items.len()
        invariant
            0 <= j <= items.len(),
            values_view(out@) =~= values_view(items@.subrange(0, j as int)),
            values_view(out@).len() == j,
        decreases items.len() - j,
    {
        let ghost pre = out@;
        out.push(items[j].deep_clone());
        proof {
            assert(out@.drop_last() =~= pre);
            lemma_values_view_index(items@);
            lemma_values_view_index(items@.subrange(0, j as int));
            lemma_values_view_index(items@.subrange(0, j + 1 as int));
            lemma_values_view_index(out@);
            assert(values_view(out@) =~= values_view(items@.subrange(0, j + 1 as int)));
        }
        j += 1;
    }
    proof {
        assert(items@.subrange(0, items@.len() as int) =~= items@);
    }
    out
}

/// Deep copy of object entries, entry by entry; keys are kept as they are.
pub(crate) fn clone_entries(entries: &Vec<(String, Value)>) -> (r: Vec<(String, Value)>)
    ensures
        entries_view(r@) == entries_view(entries@),
    decreases entries,
{
    let mut out: Vec<(String, Value)> = Vec::new();
    let mut j: usize = 0;
    while j < entries.len()
        invariant
            0 <= j <= entries.len(),
            entries_view(out@) =~= entries_view(entries@.subrange(0, j as int)),
            entries_view(out@).len() == j,
        decreases entries.len() - j,
    {
        let ghost pre = out@;
        let e = &entries[j];
        out.push((e.0.clone(), e.1.deep_clone()));
        proof {
            assert(out@.drop_last() =~= pre);
            lemma_entries_view_index(entries@);
            lemma_entries_view_index(entries@.subrange(0, j as int));
            lemma_entries_view_index(entries@.subrange(0, j + 1 as int));
            lemma_entries_view_index(out@);
            assert(entries_view(out@) =~= entries_view(entries@.subrange(0, j + 1 as int)));
        }
        j += 1;
    }
    proof {
        assert(entries@.subrange(0, entries@.len() as int) =~= entries@);
    }
    out
}

/// Index of the first entry whose key equals `key`, if any.
pub(crate) fn find_entry(es: &Vec<(String, Value)>, key: &String) -> (r: Option<usize>)
    ensures
        match r {
            Some(i) => i < es.len() && find_key(entries_view(es@), key@) == i as int,
            None => find_key(entries_view(es@), key@) == -1,
        },
{
    let ghost cur = entries_view(es@);
    let mut i: usize = 0;
    while i < es.len()
        invariant
            0 <= i <= es.len(),
            cur == entries_view(es@),
            forall|t: int| 0 <= t < i ==> (#[trigger] es@[t].0@) != key@,
        decreases es.len() - i,
    {
        if es[i].0 == *key {
            proof {
                lemma_entries_view_index(es@);
                lemma_find_key(cur, key@);
                assert forall|t: int| 0 <= t < i implies (#[trigger] cur[t].0) != key@ by {
                    assert(cur[t] == (es@[t].0@, value_view(es@[t].1)));
                }
                assert(cur[i as int].0 == key@);
                assert(find_key(cur, key@) == i as int);
            }
            return Some(i);
        }
        i += 1;
    }
    proof {
        lemma_entries_view_index(es@);
        lemma_find_key(cur, key@);
        assert forall|t: int| 0 <= t < cur.len() implies (#[trigger] cur[t].0) != key@ by {
            assert(cur[t] == (es@[t].0@, value_view(es@[t].1)));
        }
        assert(find_key(cur, key@) == -1);
    }
    None
}

/// Deep merge of two values, leaving both operands untouched.
pub fn merge_value(a: &Value, b: &Value) -> (r: Value)
    ensures
        r@ == merge_jval(a@, b@),
    decreases b,
{
    match b {
        Value::Obj(eb) => match a {
        Value::Obj(ea) => {
            let ghost bea = entries_view(ea@);
            let ghost beb = entries_view(eb@);
            let mut out: Vec<(String, Value)> = clone_entries(ea);
            let mut j: usize = 0;
            while j < eb.len()
                invariant
                    0 <= j <= eb.len(),
                    b is Obj,
                    *eb == b->Obj_0,
                    eb@.len() == eb.len(),
                    beb == entries_view(eb@),
                    merge_entries(bea, beb, 0) == merge_entries(entries_view(out@), beb, j as int),
                decreases eb.len() - j,
            {
                let ghost cur = entries_view(out@);
                let ghost k = eb@[j as int].0@;
                proof {
                    lemma_entries_view_index(eb@);
                    assert(beb[j as int] == (k, value_view(eb@[j as int].1)));
                }
                match find_entry(&out, &eb[j].0) {
                    Some(i) => {
                        proof {
                            lemma_find_key(cur, k);
                            lemma_entries_view_index(out@);
                            assert(decreases_to!(eb@[j as int] => eb@[j as int].1));
                            assert(decreases_to!(eb@ => eb@[j as int]));
                            assert(decreases_to!(b => b->Obj_0));
                            assert(decreases_to!(*eb => eb@));
                        }
                        let m = merge_value(&out[i].1, &eb[j].1);
                        let key = eb[j].0.clone();
                        let ghost pre = out@;
                        out[i] = (key, m);
                        proof {
                            lemma_entries_view_index(pre);
                            lemma_entries_view_index(out@);
                            assert(lookup(cur, k) == Some(cur[i as int].1));
                            assert(entries_view(out@) =~= upsert(
                                cur,
                                k,
                                merge_jval(cur[i as int].1, value_view(eb@[j as int].1)),
                            ));
                        }
                    },
                    None => {
                        let key = eb[j].0.clone();
                        let m = eb[j].1.deep_clone();
                        let ghost pre = out@;
                        out.push((key, m));
                        proof {
                            assert(out@.drop_last() =~= pre);
                            lemma_entries_view_index(pre);
                            lemma_entries_view_index(out@);
                            assert(lookup(cur, k) is None);
                            assert(entries_view(out@) =~= upsert(
                                cur,
                                k,
                                value_view(eb@[j as int].1),
                            ));
                        }
                    },
                }
                j += 1;
            }
            proof {
                lemma_entries_view_index(eb@);
                assert(merge_entries(entries_view(out@), beb, eb@.len() as int) == entries_view(
                    out@,
                ));
                assert(a@ == JVal::Obj(bea));
                assert(b@ == JVal::Obj(beb));
            }
            Value::Obj(out)
        },
        _ => b.deep_clone(),
        },
        _ => b.deep_clone(),
    }
}

} // verus!
