//! The document value: a tree of nulls, booleans, numbers, texts, ordered
//! arrays and key-maps, together with the mathematical document it denotes.

use vstd::prelude::*;
use vstd::std_specs::cmp::PartialEqSpecImpl;

verus! {

/// A document as a mathematical value. An array is a sequence of documents,
/// an object a finite map from key to document, so that two objects are equal
/// exactly when they bind the same keys to equal documents.
pub enum Doc {
    Null,
    Bool(bool),
    Number(int),
    Text(Seq<char>),
    Array(Seq<Doc>),
    Object(Map<Seq<char>, Doc>),
}

/// A document as held in memory. An object is a list of entries; where a key
/// occurs more than once only its first entry counts.
#[derive(Debug)]
pub enum Value {
    Null,
    Bool(bool),
    Number(i64),
    Text(String),
    Array(Vec<Value>),
    Object(Vec<(String, Value)>),
}

/// The position of the first of `keys` that equals `key`, or `keys.len()`
/// where none does.
pub open spec fn index_of(keys: Seq<Seq<char>>, key: Seq<char>) -> int
    decreases keys.len(),
{
    if keys.len() == 0 {
        0
    } else if keys[0] == key {
        0
    } else {
        1 + index_of(keys.drop_first(), key)
    }
}

/// `index_of` is within bounds, lands on `key`, and passes over no `key`.
pub proof fn lemma_index_of(keys: Seq<Seq<char>>, key: Seq<char>)
    ensures
        0 <= index_of(keys, key) <= keys.len(),
        index_of(keys, key) < keys.len() ==> keys[index_of(keys, key)] == key,
        forall|j: int| 0 <= j < index_of(keys, key) ==> keys[j] != key,
    decreases keys.len(),
{
    if keys.len() > 0 && keys[0] != key {
        let rest = keys.drop_first();
        lemma_index_of(rest, key);
        assert forall|j: int| 0 <= j < index_of(keys, key) implies keys[j] != key by {
            if j > 0 {
                assert(keys[j] == rest[j - 1]);
            }
        }
    }
}

/// Any position that lands on `key` (or on the end) and passes over no `key`
/// is the one `index_of` gives.
pub proof fn lemma_index_of_is(keys: Seq<Seq<char>>, key: Seq<char>, i: int)
    requires
        0 <= i <= keys.len(),
        i < keys.len() ==> keys[i] == key,
        forall|j: int| 0 <= j < i ==> keys[j] != key,
    ensures
        index_of(keys, key) == i,
{
    lemma_index_of(keys, key);
}

/// The documents that a list of values denotes, in order.
pub open spec fn docs_of(items: Seq<Value>) -> Seq<Doc>
    decreases items, 0int,
{
    Seq::new(
        items.len(),
        |i: int|
            if 0 <= i < items.len() {
                items[i].view()
            } else {
                Doc::Null
            },
    )
}

/// The keys of a list of entries, in order.
pub open spec fn keys_of(entries: Seq<(String, Value)>) -> Seq<Seq<char>> {
    Seq::new(entries.len(), |i: int| entries[i].0@)
}

/// The map that a list of entries denotes: each key that occurs is bound to
/// the document of its first entry.
pub open spec fn object_of(entries: Seq<(String, Value)>) -> Map<Seq<char>, Doc>
    decreases entries, 0int,
{
    Map::new(
        |k: Seq<char>| index_of(keys_of(entries), k) < entries.len(),
        |k: Seq<char>|
            {
                let i = index_of(keys_of(entries), k);
                if 0 <= i < entries.len() {
                    entries[i].1.view()
                } else {
                    Doc::Null
                }
            },
    )
}

impl View for Value {
    type V = Doc;

    open spec fn view(&self) -> Doc
        decreases self, 1int,
    {
        match self {
            Value::Null => Doc::Null,
            Value::Bool(b) => Doc::Bool(*b),
            Value::Number(n) => Doc::Number(*n as int),
            Value::Text(s) => Doc::Text(s@),
            Value::Array(items) => Doc::Array(docs_of(items@)),
            Value::Object(entries) => Doc::Object(object_of(entries@)),
        }
    }
}

/// The position of the first entry whose key is `key`, or the number of
/// entries where there is none.
pub fn find_key(entries: &Vec<(String, Value)>, key: &String) -> (i: usize)
    ensures
        i == index_of(keys_of(entries@), key@),
        i <= entries.len(),
        i < entries.len() ==> entries[i as int].0@ == key@,
{
    let mut i: usize = 0;
    while i < entries.len()
        invariant
            i <= entries.len(),
            forall|j: int| 0 <= j < i ==> keys_of(entries@)[j] != key@,
        ensures
            i <= entries.len(),
            i < entries.len() ==> keys_of(entries@)[i as int] == key@,
            forall|j: int| 0 <= j < i ==> keys_of(entries@)[j] != key@,
        decreases entries.len() - i,
    {
        if entries[i].0 == *key {
            break;
        }
        i += 1;
    }
    proof {
        lemma_index_of_is(keys_of(entries@), key@, i as int);
    }
    i
}

/// Giving the first entry of a key another value rebinds the key and
/// nothing else.
pub proof fn lemma_object_update(
    before: Seq<(String, Value)>,
    after: Seq<(String, Value)>,
    j: int,
)
    requires
        0 <= j < before.len(),
        j == index_of(keys_of(before), before[j].0@),
        after.len() == before.len(),
        forall|t: int| 0 <= t < before.len() ==> after[t].0@ == before[t].0@,
        forall|t: int| 0 <= t < before.len() && t != j ==> after[t].1@ == before[t].1@,
    ensures
        object_of(after) == object_of(before).insert(before[j].0@, after[j].1@),
{
    assert(keys_of(after) =~= keys_of(before));
    let k = before[j].0@;
    assert forall|q: Seq<char>| #[trigger]
        object_of(after).dom().contains(q) == object_of(before).insert(
            k,
            after[j].1@,
        ).dom().contains(q) by {
        lemma_index_of(keys_of(before), q);
    }
    assert forall|q: Seq<char>| object_of(after).dom().contains(q) implies #[trigger] object_of(
        after,
    )[q] == object_of(before).insert(k, after[j].1@)[q] by {
        lemma_index_of(keys_of(before), q);
    }
    assert(object_of(after) =~= object_of(before).insert(k, after[j].1@));
}

/// Appending an entry whose key is not bound yet binds the key and changes
/// nothing else.
pub proof fn lemma_object_push(before: Seq<(String, Value)>, entry: (String, Value))
    requires
        index_of(keys_of(before), entry.0@) == before.len(),
    ensures
        object_of(before.push(entry)) == object_of(before).insert(entry.0@, entry.1@),
{
    let after = before.push(entry);
    assert forall|q: Seq<char>|
        index_of(keys_of(after), q) == (if q == entry.0@ {
            before.len() as int
        } else if index_of(keys_of(before), q) < before.len() {
            index_of(keys_of(before), q)
        } else {
            after.len() as int
        }) by {
        lemma_index_of(keys_of(before), q);
        let i = index_of(keys_of(before), q);
        assert forall|t: int| 0 <= t < before.len() implies keys_of(after)[t] == keys_of(
            before,
        )[t] by {}
        if q == entry.0@ {
            lemma_index_of_is(keys_of(after), q, before.len() as int);
        } else if i < before.len() {
            lemma_index_of_is(keys_of(after), q, i);
        } else {
            lemma_index_of_is(keys_of(after), q, after.len() as int);
        }
    }
    assert forall|q: Seq<char>| #[trigger]
        object_of(after).dom().contains(q) == object_of(before).insert(
            entry.0@,
            entry.1@,
        ).dom().contains(q) by {}
    assert forall|q: Seq<char>| object_of(after).dom().contains(q) implies #[trigger] object_of(
        after,
    )[q] == object_of(before).insert(entry.0@, entry.1@)[q] by {}
    assert(object_of(after) =~= object_of(before).insert(entry.0@, entry.1@));
}

/// Dropping the first entry of a key leaves every other key bound as it
/// was.
pub proof fn lemma_object_remove(before: Seq<(String, Value)>, i: int)
    requires
        0 <= i < before.len(),
        i == index_of(keys_of(before), before[i].0@),
    ensures
        object_of(before.remove(i)).remove(before[i].0@) == object_of(before).remove(
            before[i].0@,
        ),
{
    let after = before.remove(i);
    let k = before[i].0@;
    assert forall|q: Seq<char>| q != k implies index_of(keys_of(after), q) == (if index_of(
        keys_of(before),
        q,
    ) < i {
        index_of(keys_of(before), q)
    } else {
        index_of(keys_of(before), q) - 1
    }) by {
        lemma_index_of(keys_of(before), q);
        let p = index_of(keys_of(before), q);
        assert forall|t: int| 0 <= t < after.len() implies keys_of(after)[t] == (if t < i {
            keys_of(before)[t]
        } else {
            keys_of(before)[t + 1]
        }) by {}
        if p < i {
            lemma_index_of_is(keys_of(after), q, p);
        } else {
            assert(p != i) by {
                assert(keys_of(before)[i] == k);
            }
            lemma_index_of_is(keys_of(after), q, p - 1);
        }
    }
    let a = object_of(after).remove(k);
    let b = object_of(before).remove(k);
    assert forall|q: Seq<char>| #[trigger] a.dom().contains(q) == b.dom().contains(q) by {}
    assert forall|q: Seq<char>| a.dom().contains(q) implies #[trigger] a[q] == b[q] by {
        lemma_index_of(keys_of(before), q);
        let p = index_of(keys_of(before), q);
        let r = index_of(keys_of(after), q);
        assert(after[r] == before[p]);
    }
    assert(a =~= b);
}

/// Binds `key` to `value` in a list of entries: gives the first entry of
/// the key the new value, or appends an entry where the key has none.
pub fn bind(entries: &mut Vec<(String, Value)>, key: String, value: Value)
    ensures
        object_of(final(entries)@) == object_of(old(entries)@).insert(key@, value@),
{
    let j = find_key(entries, &key);
    let ghost before = entries@;
    if j < entries.len() {
        let entry = &mut entries[j];
        entry.1 = value;
        proof {
            lemma_object_update(before, entries@, j as int);
        }
    } else {
        let entry = (key, value);
        entries.push(entry);
        proof {
            lemma_object_push(before, entry);
        }
    }
}

/// Whether the key of entry `t` of `xs` is bound in both lists to the same
/// document.
pub open spec fn bound_alike(xs: Seq<(String, Value)>, ys: Seq<(String, Value)>, t: int) -> bool {
    let k = xs[t].0@;
    object_of(ys).contains_key(k) && object_of(xs)[k] == object_of(ys)[k]
}

/// Whether the key of entry `t` of `ys` is bound in `xs`.
pub open spec fn bound_in(xs: Seq<(String, Value)>, ys: Seq<(String, Value)>, t: int) -> bool {
    object_of(xs).contains_key(ys[t].0@)
}

/// Under the two conditions of `lemma_object_eq`, any one key is bound
/// alike by both lists.
proof fn lemma_bound(xs: Seq<(String, Value)>, ys: Seq<(String, Value)>, k: Seq<char>)
    requires
        forall|t: int| 0 <= t < xs.len() ==> #[trigger] bound_alike(xs, ys, t),
        forall|t: int| 0 <= t < ys.len() ==> #[trigger] bound_in(xs, ys, t),
    ensures
        object_of(xs).contains_key(k) == object_of(ys).contains_key(k),
        object_of(xs).contains_key(k) ==> object_of(xs)[k] == object_of(ys)[k],
{
    lemma_index_of(keys_of(xs), k);
    lemma_index_of(keys_of(ys), k);
    let i = index_of(keys_of(xs), k);
    let j = index_of(keys_of(ys), k);
    if i < xs.len() {
        assert(keys_of(xs)[i] == xs[i].0@);
        assert(bound_alike(xs, ys, i));
    }
    if j < ys.len() {
        assert(keys_of(ys)[j] == ys[j].0@);
        assert(bound_in(xs, ys, j));
    }
}

/// Two lists of entries denote the same map when each binds every key of the
/// other, to the same document.
pub proof fn lemma_object_eq(xs: Seq<(String, Value)>, ys: Seq<(String, Value)>)
    requires
        forall|t: int| 0 <= t < xs.len() ==> #[trigger] bound_alike(xs, ys, t),
        forall|t: int| 0 <= t < ys.len() ==> #[trigger] bound_in(xs, ys, t),
    ensures
        object_of(xs) == object_of(ys),
{
    assert forall|k: Seq<char>|
        object_of(xs).dom().contains(k) == #[trigger] object_of(ys).dom().contains(k) by {
        lemma_bound(xs, ys, k);
    }
    assert forall|k: Seq<char>| object_of(xs).dom().contains(k) implies #[trigger] object_of(xs)[k]
        == object_of(ys)[k] by {
        lemma_bound(xs, ys, k);
    }
    assert(object_of(xs) =~= object_of(ys));
}

impl Value {
    /// Deep structural equality: whether the two values denote the same
    /// document. Arrays are compared in order; objects by their bindings,
    /// whatever the order of their entries.
    #[verifier::loop_isolation(false)]
    pub fn equal(&self, other: &Value) -> (b: bool)
        ensures
            b == (self@ == other@),
        decreases self,
    {
        match (self, other) {
            (Value::Null, Value::Null) => true,
            (Value::Bool(x), Value::Bool(y)) => *x == *y,
            (Value::Number(x), Value::Number(y)) => *x == *y,
            (Value::Text(x), Value::Text(y)) => *x == *y,
            (Value::Array(xs), Value::Array(ys)) => {
                if xs.len() != ys.len() {
                    assert(docs_of(xs@).len() != docs_of(ys@).len());
                    return false;
                }
                let mut i: usize = 0;
                while i < xs.len()
                    invariant
                        i <= xs.len(),
                        forall|k: int| 0 <= k < i ==> xs@[k]@ == ys@[k]@,
                    decreases xs.len() - i,
                {
                    assert(decreases_to!(xs => xs[i as int]));
                    if !xs[i].equal(&ys[i]) {
                        assert(docs_of(xs@)[i as int] != docs_of(ys@)[i as int]);
                        return false;
                    }
                    i += 1;
                }
                assert(docs_of(xs@) =~= docs_of(ys@));
                true
            },
            (Value::Object(xs), Value::Object(ys)) => {
                let mut i: usize = 0;
                while i < xs.len()
                    invariant
                        i <= xs.len(),
                        forall|t: int| 0 <= t < i ==> #[trigger] bound_alike(xs@, ys@, t),
                    decreases xs.len() - i,
                {
                    let first = find_key(xs, &xs[i].0);
                    let j = find_key(ys, &xs[i].0);
                    proof {
                        lemma_index_of(keys_of(xs@), xs@[i as int].0@);
                        assert(keys_of(xs@)[i as int] == xs@[i as int].0@);
                    }
                    if j == ys.len() {
                        assert(object_of(xs@).contains_key(xs@[i as int].0@));
                        assert(!object_of(ys@).contains_key(xs@[i as int].0@));
                        return false;
                    }
                    assert(decreases_to!(xs => xs[first as int]));
                    assert(decreases_to!(xs[first as int] => xs[first as int].1));
                    if !xs[first].1.equal(&ys[j].1) {
                        assert(object_of(xs@)[xs@[i as int].0@] != object_of(ys@)[xs@[i as int].0@]);
                        return false;
                    }
                    assert(bound_alike(xs@, ys@, i as int));
                    i += 1;
                }
                let mut j: usize = 0;
                while j < ys.len()
                    invariant
                        j <= ys.len(),
                        forall|t: int| 0 <= t < j ==> #[trigger] bound_in(xs@, ys@, t),
                    decreases ys.len() - j,
                {
                    if find_key(xs, &ys[j].0) == xs.len() {
                        assert(object_of(ys@).contains_key(ys@[j as int].0@)) by {
                            lemma_index_of(keys_of(ys@), ys@[j as int].0@);
                            assert(keys_of(ys@)[j as int] == ys@[j as int].0@);
                        }
                        assert(!object_of(xs@).contains_key(ys@[j as int].0@));
                        return false;
                    }
                    assert(bound_in(xs@, ys@, j as int));
                    j += 1;
                }
                proof {
                    lemma_object_eq(xs@, ys@);
                }
                true
            },
            _ => false,
        }
    }
}

impl Clone for Value {
    /// A deep copy: a value of its own that denotes the same document.
    #[verifier::loop_isolation(false)]
    fn clone(&self) -> (copy: Value)
        ensures
            copy@ == self@,
        decreases self,
    {
        match self {
            Value::Null => Value::Null,
            Value::Bool(b) => Value::Bool(*b),
            Value::Number(n) => Value::Number(*n),
            Value::Text(s) => Value::Text(s.clone()),
            Value::Array(items) => {
                let mut out: Vec<Value> = Vec::new();
                let mut i: usize = 0;
                while i < items.len()
                    invariant
                        i <= items.len(),
                        out.len() == i,
                        forall|k: int| 0 <= k < i ==> out@[k]@ == items@[k]@,
                    decreases items.len() - i,
                {
                    assert(decreases_to!(items => items[i as int]));
                    out.push(items[i].clone());
                    i += 1;
                }
                assert(docs_of(out@) =~= docs_of(items@));
                Value::Array(out)
            },
            Value::Object(entries) => {
                let mut out: Vec<(String, Value)> = Vec::new();
                let mut i: usize = 0;
                while i < entries.len()
                    invariant
                        i <= entries.len(),
                        out.len() == i,
                        forall|k: int|
                            0 <= k < i ==> out@[k].0@ == entries@[k].0@ && out@[k].1@
                                == entries@[k].1@,
                    decreases entries.len() - i,
                {
                    assert(decreases_to!(entries => entries[i as int]));
                    assert(decreases_to!(entries[i as int] => entries[i as int].1));
                    out.push((entries[i].0.clone(), entries[i].1.clone()));
                    i += 1;
                }
                assert(keys_of(out@) =~= keys_of(entries@));
                assert(object_of(out@) =~= object_of(entries@)) by {
                    assert forall|k: Seq<char>| object_of(entries@).contains_key(k) implies object_of(
                        out@,
                    )[k] == object_of(entries@)[k] by {
                        lemma_index_of(keys_of(entries@), k);
                    }
                }
                Value::Object(out)
            },
        }
    }
}

impl PartialEq for Value {
    fn eq(&self, other: &Value) -> (b: bool) {
        self.equal(other)
    }
}

impl PartialEqSpecImpl for Value {
    open spec fn obeys_eq_spec() -> bool {
        true
    }

    open spec fn eq_spec(&self, other: &Value) -> bool {
        self@ == other@
    }
}

impl Eq for Value {

}

} // verus!
