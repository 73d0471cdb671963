//! The patch engine: what each operation does to a document, and the
//! all-or-nothing application of a batch of operations.

use vstd::prelude::*;
use crate::sql::idiom::starts_with;
use crate::sql::idiom::Idiom;
use crate::sql::idiom::Part;
use crate::sql::idiom::Step;
use crate::sql::operation::Kind;
use crate::sql::operation::Op;
use crate::sql::operation::Operation;
use crate::sql::value::bind;
use crate::sql::value::docs_of;
use crate::sql::value::find_key;
use crate::sql::value::index_of;
use crate::sql::value::keys_of;
use crate::sql::value::lemma_index_of;
use crate::sql::value::lemma_object_remove;
use crate::sql::value::lemma_object_update;
use crate::sql::value::object_of;
use crate::sql::value::Doc;
use crate::sql::value::Value;

verus! {

/// Where a path leads in a document.
pub enum Reach {
    /// Every step resolves; the path leads to this node.
    Found(Doc),
    /// Every step but the last resolves and leads to an object, and the last
    /// step is a key that the object does not bind: the node is absent.
    Missing,
    /// The path does not resolve: a step before the last is a key that is
    /// not bound, a step is a position past the end of an array, or a step
    /// asks for a key of something that is no object or for a position of
    /// something that is no array.
    Unreachable,
}

/// Why an operation failed.
#[derive(Clone, Copy, Debug, PartialEq, Eq, Hash, Structural)]
pub enum Failure {
    /// A path of the operation does not resolve.
    PathResolution,
    /// The node to replace, remove or move is absent from its object, or the
    /// destination of a move is its source or lies inside it.
    PatchPrecondition,
    /// The node under test differs from the expected document.
    TestMismatch,
}

/// The failure of a batch: the position and kind of the first operation that
/// failed, and why it did.
#[derive(Clone, Copy, Debug, PartialEq, Eq, Hash, Structural)]
pub struct PatchError {
    pub index: usize,
    pub kind: Kind,
    pub failure: Failure,
}

/// The child of `d` that `step` addresses.
pub open spec fn child(d: Doc, step: Step) -> Reach {
    match (d, step) {
        (Doc::Object(m), Step::Key(k)) => if m.contains_key(k) {
            Reach::Found(m[k])
        } else {
            Reach::Missing
        },
        (Doc::Array(s), Step::Index(i)) => if i < s.len() {
            Reach::Found(s[i as int])
        } else {
            Reach::Unreachable
        },
        _ => Reach::Unreachable,
    }
}

/// Where `path` leads in `d`.
pub open spec fn reach(d: Doc, path: Seq<Step>) -> Reach
    decreases path.len(),
{
    if path.len() == 0 {
        Reach::Found(d)
    } else {
        match child(d, path[0]) {
            Reach::Found(c) => reach(c, path.drop_first()),
            Reach::Missing => if path.len() == 1 {
                Reach::Missing
            } else {
                Reach::Unreachable
            },
            Reach::Unreachable => Reach::Unreachable,
        }
    }
}

/// The node that `path` leads to, if it leads to one.
pub open spec fn resolve(d: Doc, path: Seq<Step>) -> Option<Doc> {
    match reach(d, path) {
        Reach::Found(n) => Some(n),
        _ => None,
    }
}

/// `d` with `c` in place of the child that `step` addresses.
pub open spec fn with_child(d: Doc, step: Step, c: Doc) -> Doc {
    match (d, step) {
        (Doc::Object(m), Step::Key(k)) => Doc::Object(m.insert(k, c)),
        (Doc::Array(s), Step::Index(i)) => if i < s.len() {
            Doc::Array(s.update(i as int, c))
        } else {
            d
        },
        _ => d,
    }
}

/// `d` with a new child `c` where `step` points: bound to the key in an
/// object, whatever was bound to it before; in an array inserted before the
/// element at that position, or appended where there is no such element.
pub open spec fn with_new_child(d: Doc, step: Step, c: Doc) -> Doc {
    match (d, step) {
        (Doc::Object(m), Step::Key(k)) => Doc::Object(m.insert(k, c)),
        (Doc::Array(s), Step::Index(i)) => if i < s.len() {
            Doc::Array(s.insert(i as int, c))
        } else {
            Doc::Array(s.push(c))
        },
        _ => d,
    }
}

/// `d` without the child that `step` addresses; the later elements of an
/// array move down by one.
pub open spec fn without_child(d: Doc, step: Step) -> Doc {
    match (d, step) {
        (Doc::Object(m), Step::Key(k)) => Doc::Object(m.remove(k)),
        (Doc::Array(s), Step::Index(i)) => if i < s.len() {
            Doc::Array(s.remove(i as int))
        } else {
            d
        },
        _ => d,
    }
}

/// `d` with `node` in place of the node that `path` leads to; `d` itself
/// where the path leads to none.
pub open spec fn put(d: Doc, path: Seq<Step>, node: Doc) -> Doc
    decreases path.len(),
{
    if path.len() == 0 {
        node
    } else {
        match child(d, path[0]) {
            Reach::Found(c) => with_child(d, path[0], put(c, path.drop_first(), node)),
            _ => d,
        }
    }
}

/// `d` with `node` added at `path`: as a new child of the container that the
/// path without its last step leads to. The empty path puts `node` in place
/// of the whole document. `d` itself where the container is out of reach.
pub open spec fn inserted(d: Doc, path: Seq<Step>, node: Doc) -> Doc
    decreases path.len(),
{
    if path.len() == 0 {
        node
    } else if path.len() == 1 {
        with_new_child(d, path[0], node)
    } else {
        match child(d, path[0]) {
            Reach::Found(c) => with_child(d, path[0], inserted(c, path.drop_first(), node)),
            _ => d,
        }
    }
}

/// `d` without the node that `path` leads to. Removing the whole document
/// leaves null. `d` itself where the path leads to no node.
pub open spec fn cut(d: Doc, path: Seq<Step>) -> Doc
    decreases path.len(),
{
    if path.len() == 0 {
        Doc::Null
    } else if path.len() == 1 {
        without_child(d, path[0])
    } else {
        match child(d, path[0]) {
            Reach::Found(c) => with_child(d, path[0], cut(c, path.drop_first())),
            _ => d,
        }
    }
}

/// `new` merged into `old`. Where both are objects the result binds every
/// key of either: a key of both to the merge of its two documents, any other
/// key to the document it had. In every other case the result is `new`.
pub open spec fn merged(old: Doc, new: Doc) -> Doc
    decreases new,
{
    match (old, new) {
        (Doc::Object(a), Doc::Object(b)) => Doc::Object(
            Map::new(
                |k: Seq<char>| a.contains_key(k) || b.contains_key(k),
                |k: Seq<char>|
                    if b.contains_key(k) {
                        if a.contains_key(k) {
                            merged(a[k], b[k])
                        } else {
                            b[k]
                        }
                    } else {
                        a[k]
                    },
            ),
        ),
        _ => new,
    }
}

/// Whether `d` is a container of the kind that `step` asks for: an object
/// for a key, an array for a position.
pub open spec fn takes(d: Doc, step: Step) -> bool {
    match (d, step) {
        (Doc::Object(_), Step::Key(_)) => true,
        (Doc::Array(_), Step::Index(_)) => true,
        _ => false,
    }
}

/// The document that adding `node` at `path` gives. The path without its
/// last step must lead to a container of the kind that the last step asks
/// for; the node becomes a new child of that container. The empty path puts
/// the node in place of the whole document.
pub open spec fn added(d: Doc, path: Seq<Step>, node: Doc) -> Result<Doc, Failure> {
    if path.len() == 0 {
        Ok(node)
    } else {
        match reach(d, path.drop_last()) {
            Reach::Found(parent) => if takes(parent, path.last()) {
                Ok(inserted(d, path, node))
            } else {
                Err(Failure::PathResolution)
            },
            _ => Err(Failure::PathResolution),
        }
    }
}

/// What one operation makes of a document: the new document, or why the
/// operation fails.
pub open spec fn apply_op(d: Doc, op: Op) -> Result<Doc, Failure> {
    match op {
        Op::Add { path, value } => added(d, path, value),
        Op::Remove { path } => match reach(d, path) {
            Reach::Found(_) => Ok(cut(d, path)),
            Reach::Missing => Err(Failure::PatchPrecondition),
            Reach::Unreachable => Err(Failure::PathResolution),
        },
        Op::Replace { path, value } => match reach(d, path) {
            Reach::Found(_) => Ok(put(d, path, value)),
            Reach::Missing => Err(Failure::PatchPrecondition),
            Reach::Unreachable => Err(Failure::PathResolution),
        },
        Op::Change { path, value } => match reach(d, path) {
            Reach::Found(n) => Ok(put(d, path, merged(n, value))),
            _ => Err(Failure::PathResolution),
        },
        Op::Copy { path, from } => match reach(d, from) {
            Reach::Found(n) => added(d, path, n),
            _ => Err(Failure::PathResolution),
        },
        Op::Move { path, from } => if starts_with(path, from) {
            Err(Failure::PatchPrecondition)
        } else {
            match reach(d, from) {
                Reach::Found(n) => added(cut(d, from), path, n),
                Reach::Missing => Err(Failure::PatchPrecondition),
                Reach::Unreachable => Err(Failure::PathResolution),
            }
        },
        Op::Test { path, value } => match reach(d, path) {
            Reach::Found(n) => if n == value {
                Ok(d)
            } else {
                Err(Failure::TestMismatch)
            },
            Reach::Missing => if value == Doc::Null {
                Ok(d)
            } else {
                Err(Failure::TestMismatch)
            },
            Reach::Unreachable => Err(Failure::PathResolution),
        },
    }
}

/// What the first `n` operations of a batch make of a document, each applied
/// to what the ones before it left: the new document, or the position of the
/// first operation that fails and why it does.
pub open spec fn run(d: Doc, ops: Seq<Op>, n: nat) -> Result<Doc, (nat, Failure)>
    decreases n,
{
    if n == 0 {
        Ok(d)
    } else {
        match run(d, ops, (n - 1) as nat) {
            Ok(before) => match apply_op(before, ops[n - 1]) {
                Ok(after) => Ok(after),
                Err(failure) => Err(((n - 1) as nat, failure)),
            },
            Err(e) => Err(e),
        }
    }
}

/// What a whole batch makes of a document.
pub open spec fn patched(d: Doc, ops: Seq<Op>) -> Result<Doc, (nat, Failure)> {
    run(d, ops, ops.len())
}

/// Where a path leads in a value: `Reach` with the node itself in hand.
pub enum Located<'a> {
    Found(&'a Value),
    Missing,
    Unreachable,
}

impl<'a> View for Located<'a> {
    type V = Reach;

    open spec fn view(&self) -> Reach {
        match self {
            Located::Found(v) => Reach::Found(v@),
            Located::Missing => Reach::Missing,
            Located::Unreachable => Reach::Unreachable,
        }
    }
}

/// The steps of `path` from position `pos` on.
spec fn steps_from(path: &Idiom, pos: int) -> Seq<Step> {
    path@.skip(pos)
}

/// The child of `v` that `part` addresses.
pub fn child_of<'a>(v: &'a Value, part: &Part) -> (r: Located<'a>)
    ensures
        r@ == child(v@, part@),
{
    match (v, part) {
        (Value::Object(entries), Part::Key(k)) => {
            let j = find_key(entries, k);
            if j < entries.len() {
                Located::Found(&entries[j].1)
            } else {
                Located::Missing
            }
        },
        (Value::Array(items), Part::Index(i)) => {
            if *i < items.len() {
                Located::Found(&items[*i])
            } else {
                Located::Unreachable
            }
        },
        _ => Located::Unreachable,
    }
}

/// Where the first `upto` steps of `path` lead in `doc`.
fn locate_upto<'a>(doc: &'a Value, path: &Idiom, upto: usize) -> (r: Located<'a>)
    requires
        upto <= path.0.len(),
    ensures
        r@ == reach(doc@, path@.take(upto as int)),
{
    let mut cur: &Value = doc;
    let mut pos: usize = 0;
    assert(path@.subrange(0, upto as int) =~= path@.take(upto as int));
    while pos < upto
        invariant
            pos <= upto <= path.0.len(),
            reach(doc@, path@.take(upto as int)) == reach(
                cur@,
                path@.subrange(pos as int, upto as int),
            ),
        decreases upto - pos,
    {
        assert(path@.subrange(pos as int, upto as int).drop_first() =~= path@.subrange(
            pos + 1,
            upto as int,
        ));
        assert(path@.subrange(pos as int, upto as int)[0] == path.0@[pos as int]@);
        match child_of(cur, &path.0[pos]) {
            Located::Found(c) => {
                cur = c;
            },
            Located::Missing => {
                if pos + 1 == upto {
                    return Located::Missing;
                } else {
                    return Located::Unreachable;
                }
            },
            Located::Unreachable => {
                return Located::Unreachable;
            },
        }
        pos += 1;
    }
    Located::Found(cur)
}

/// Where `path` leads in `doc`.
pub fn locate<'a>(doc: &'a Value, path: &Idiom) -> (r: Located<'a>)
    ensures
        r@ == reach(doc@, path@),
{
    assert(path@.take(path@.len() as int) =~= path@);
    locate_upto(doc, path, path.0.len())
}

/// Whether `v` is a container of the kind that `part` asks for.
fn takes_part(v: &Value, part: &Part) -> (b: bool)
    ensures
        b == takes(v@, part@),
{
    match (v, part) {
        (Value::Object(_), Part::Key(_)) => true,
        (Value::Array(_), Part::Index(_)) => true,
        _ => false,
    }
}

/// Gives `v` a new child `node` where `part` points.
fn add_child(v: &mut Value, part: &Part, node: Value)
    ensures
        final(v)@ == with_new_child(old(v)@, part@, node@),
{
    match v {
        Value::Object(entries) => {
            if let Part::Key(k) = part {
                bind(entries, k.clone(), node);
            }
        },
        Value::Array(items) => {
            if let Part::Index(i) = part {
                let ghost before = items@;
                if *i < items.len() {
                    items.insert(*i, node);
                    assert(docs_of(items@) =~= docs_of(before).insert(*i as int, node@));
                } else {
                    items.push(node);
                    assert(docs_of(items@) =~= docs_of(before).push(node@));
                }
            }
        },
        _ => {},
    }
}

/// Takes from `v` the child that `part` addresses.
fn drop_child(v: &mut Value, part: &Part)
    ensures
        final(v)@ == without_child(old(v)@, part@),
{
    match v {
        Value::Object(entries) => {
            if let Part::Key(k) = part {
                let ghost before = entries@;
                let mut j = find_key(entries, k);
                while j < entries.len()
                    invariant
                        j == index_of(keys_of(entries@), k@),
                        j < entries.len() ==> entries@[j as int].0@ == k@,
                        object_of(entries@).remove(k@) == object_of(before).remove(k@),
                    decreases entries.len(),
                {
                    proof {
                        lemma_object_remove(entries@, j as int);
                    }
                    entries.remove(j);
                    j = find_key(entries, k);
                }
                assert(object_of(entries@).remove(k@) =~= object_of(entries@));
            }
        },
        Value::Array(items) => {
            if let Part::Index(i) = part {
                if *i < items.len() {
                    let ghost before = items@;
                    items.remove(*i);
                    assert(docs_of(items@) =~= docs_of(before).remove(*i as int));
                }
            }
        },
        _ => {},
    }
}

/// A change to make where a path leads.
enum Edit {
    /// Put this node in place of the node there.
    Put(Value),
    /// Add this node there.
    Add(Value),
    /// Take away the node there.
    Cut,
}

/// What an edit at `path` makes of `d`.
spec fn edited(d: Doc, path: Seq<Step>, edit: Edit) -> Doc {
    match edit {
        Edit::Put(node) => put(d, path, node@),
        Edit::Add(node) => inserted(d, path, node@),
        Edit::Cut => cut(d, path),
    }
}

/// Makes an edit in `v` where the steps of `path` from `pos` on lead; leaves
/// `v` as it is where they lead nowhere.
fn edit_at(v: &mut Value, path: &Idiom, pos: usize, edit: Edit)
    requires
        pos <= path.0.len(),
    ensures
        final(v)@ == edited(old(v)@, steps_from(path, pos as int), edit),
    decreases path.0.len() - pos,
{
    if pos == path.0.len() {
        *v = match edit {
            Edit::Put(node) => node,
            Edit::Add(node) => node,
            Edit::Cut => Value::Null,
        };
        return ;
    }
    assert(steps_from(path, pos as int).drop_first() =~= steps_from(path, pos + 1));
    assert(steps_from(path, pos as int)[0] == path.0@[pos as int]@);
    let last = pos + 1 == path.0.len();
    match edit {
        Edit::Add(node) if last => add_child(v, &path.0[pos], node),
        Edit::Cut if last => drop_child(v, &path.0[pos]),
        edit => match v {
            Value::Object(entries) => {
                if let Part::Key(k) = &path.0[pos] {
                    let j = find_key(entries, k);
                    if j < entries.len() {
                        let ghost before = entries@;
                        let entry = &mut entries[j];
                        edit_at(&mut entry.1, path, pos + 1, edit);
                        proof {
                            lemma_object_update(before, entries@, j as int);
                        }
                    }
                }
            },
            Value::Array(items) => {
                if let Part::Index(i) = &path.0[pos] {
                    if *i < items.len() {
                        let ghost before = items@;
                        edit_at(&mut items[*i], path, pos + 1, edit);
                        assert(docs_of(items@) =~= docs_of(before).update(
                            *i as int,
                            items@[*i as int]@,
                        ));
                    }
                }
            },
            _ => {},
        },
    }
}

/// What merging the entries of `new` before position `t` into the map `old`
/// gives.
spec fn merged_upto(
    old: Map<Seq<char>, Doc>,
    new: Seq<(String, Value)>,
    t: int,
) -> Map<Seq<char>, Doc> {
    Map::new(
        |k: Seq<char>| old.contains_key(k) || index_of(keys_of(new), k) < t,
        |k: Seq<char>|
            if index_of(keys_of(new), k) < t {
                if old.contains_key(k) {
                    merged(old[k], object_of(new)[k])
                } else {
                    object_of(new)[k]
                }
            } else {
                old[k]
            },
    )
}

/// Merges `new` into `v`.
#[verifier::loop_isolation(false)]
fn merge_into(v: &mut Value, new: &Value)
    ensures
        final(v)@ == merged(old(v)@, new@),
    decreases new,
{
    match new {
        Value::Object(fresh) => {
            match v {
                Value::Object(entries) => {
                    let ghost start = object_of(entries@);
                    let mut t: usize = 0;
                    assert(merged_upto(start, fresh@, 0) =~= start) by {
                        assert forall|k: Seq<char>| index_of(keys_of(fresh@), k) >= 0 by {
                            lemma_index_of(keys_of(fresh@), k);
                        }
                    }
                    while t < fresh.len()
                        invariant
                            t <= fresh.len(),
                            object_of(entries@) == merged_upto(start, fresh@, t as int),
                        decreases fresh.len() - t,
                    {
                        let k = &fresh[t].0;
                        let first = find_key(fresh, k);
                        let ghost before = entries@;
                        let ghost before_map = object_of(entries@);
                        proof {
                            lemma_index_of(keys_of(fresh@), k@);
                            assert(keys_of(fresh@)[t as int] == k@);
                        }
                        if first == t {
                            let j = find_key(entries, k);
                            assert(object_of(fresh@)[k@] == fresh@[t as int].1@);
                            assert(before_map.contains_key(k@) == start.contains_key(k@));
                            if j < entries.len() {
                                assert(decreases_to!(fresh => fresh[t as int]));
                                assert(decreases_to!(fresh[t as int] => fresh[t as int].1));
                                assert(before_map[k@] == before[j as int].1@);
                                assert(before_map[k@] == start[k@]);
                                let entry = &mut entries[j];
                                merge_into(&mut entry.1, &fresh[t].1);
                                proof {
                                    lemma_object_update(before, entries@, j as int);
                                }
                                assert(object_of(entries@) == before_map.insert(
                                    k@,
                                    merged(start[k@], fresh@[t as int].1@),
                                ));
                            } else {
                                bind(entries, k.clone(), fresh[t].1.clone());
                                assert(object_of(entries@) == before_map.insert(
                                    k@,
                                    fresh@[t as int].1@,
                                ));
                            }
                        }
                        proof {
                            let a = object_of(entries@);
                            let b = merged_upto(start, fresh@, t + 1);
                            assert forall|q: Seq<char>| #[trigger]
                                a.dom().contains(q) == b.dom().contains(q) by {
                                lemma_index_of(keys_of(fresh@), q);
                            }
                            assert forall|q: Seq<char>| a.dom().contains(q) implies #[trigger] a[q]
                                == b[q] by {
                                lemma_index_of(keys_of(fresh@), q);
                                if q != k@ {
                                    assert(index_of(keys_of(fresh@), q) != t);
                                    assert(a[q] == before_map[q]);
                                } else if first != t {
                                    assert(a[q] == before_map[q]);
                                }
                            }
                            assert(a =~= b);
                        }
                        t += 1;
                    }
                    assert(merged_upto(start, fresh@, fresh@.len() as int) =~= merged(
                        old(v)@,
                        new@,
                    )->Object_0);
                },
                _ => {
                    *v = new.clone();
                },
            }
        },
        _ => {
            *v = new.clone();
        },
    }
}

/// Adds `node` to `doc` at `path`.
fn add_at(doc: &mut Value, path: &Idiom, node: Value) -> (r: Result<(), Failure>)
    ensures
        match added(old(doc)@, path@, node@) {
            Ok(d) => r is Ok && final(doc)@ == d,
            Err(failure) => r == Err::<(), Failure>(failure),
        },
{
    assert(steps_from(path, 0) =~= path@);
    let n = path.0.len();
    if n > 0 {
        assert(path@.take(n - 1) =~= path@.drop_last());
        assert(path@.last() == path.0@[n - 1]@);
        match locate_upto(doc, path, n - 1) {
            Located::Found(parent) => {
                if !takes_part(parent, &path.0[n - 1]) {
                    return Err(Failure::PathResolution);
                }
            },
            _ => {
                return Err(Failure::PathResolution);
            },
        }
    }
    edit_at(doc, path, 0, Edit::Add(node));
    Ok(())
}

/// Applies one operation to `doc`. Where the operation fails, what `doc`
/// holds afterwards is not specified.
fn apply_one(doc: &mut Value, op: &Operation) -> (r: Result<(), Failure>)
    ensures
        match apply_op(old(doc)@, op@) {
            Ok(d) => r is Ok && final(doc)@ == d,
            Err(failure) => r == Err::<(), Failure>(failure),
        },
{
    match op {
        Operation::Add { path, value } => add_at(doc, path, value.clone()),
        Operation::Remove { path } => {
            assert(steps_from(path, 0) =~= path@);
            match locate(doc, path) {
                Located::Found(_) => {
                    edit_at(doc, path, 0, Edit::Cut);
                    Ok(())
                },
                Located::Missing => Err(Failure::PatchPrecondition),
                Located::Unreachable => Err(Failure::PathResolution),
            }
        },
        Operation::Replace { path, value } => {
            assert(steps_from(path, 0) =~= path@);
            match locate(doc, path) {
                Located::Found(_) => {
                    edit_at(doc, path, 0, Edit::Put(value.clone()));
                    Ok(())
                },
                Located::Missing => Err(Failure::PatchPrecondition),
                Located::Unreachable => Err(Failure::PathResolution),
            }
        },
        Operation::Change { path, value } => {
            assert(steps_from(path, 0) =~= path@);
            match locate(doc, path) {
                Located::Found(node) => {
                    let mut merged = node.clone();
                    merge_into(&mut merged, value);
                    edit_at(doc, path, 0, Edit::Put(merged));
                    Ok(())
                },
                _ => Err(Failure::PathResolution),
            }
        },
        Operation::Copy { path, from } => {
            match locate(doc, from) {
                Located::Found(node) => {
                    let copy = node.clone();
                    add_at(doc, path, copy)
                },
                _ => Err(Failure::PathResolution),
            }
        },
        Operation::Move { path, from } => {
            if path.starts_with(from) {
                return Err(Failure::PatchPrecondition);
            }
            assert(steps_from(from, 0) =~= from@);
            match locate(doc, from) {
                Located::Found(node) => {
                    let moved = node.clone();
                    edit_at(doc, from, 0, Edit::Cut);
                    add_at(doc, path, moved)
                },
                Located::Missing => Err(Failure::PatchPrecondition),
                Located::Unreachable => Err(Failure::PathResolution),
            }
        },
        Operation::Test { path, value } => {
            let same = match locate(doc, path) {
                Located::Found(node) => node.equal(value),
                Located::Missing => Value::Null.equal(value),
                Located::Unreachable => {
                    return Err(Failure::PathResolution);
                },
            };
            if same {
                Ok(())
            } else {
                Err(Failure::TestMismatch)
            }
        },
    }
}

/// The operations of a batch as mathematical values, in order.
pub open spec fn ops_of(ops: Seq<Operation>) -> Seq<Op> {
    Seq::new(ops.len(), |i: int| ops[i]@)
}

/// Whether `r` is what applying a batch owes: the document that the batch
/// makes of `d`, or the error naming the first operation that fails.
pub open spec fn outcome_of(
    d: Doc,
    ops: Seq<Op>,
    r: Result<Doc, PatchError>,
) -> bool {
    match patched(d, ops) {
        Ok(after) => r == Ok::<Doc, PatchError>(after),
        Err((i, failure)) => i < ops.len() && r == Err::<Doc, PatchError>(
            PatchError { index: i as usize, kind: ops[i as int].kind(), failure },
        ),
    }
}

/// Applies a batch of operations to a copy of `doc`, in order, each to what
/// the ones before it left. Gives back the new document, or, where an
/// operation fails, the error that names the first one that does; `doc`
/// itself is never touched.
pub fn apply(ops: &[Operation], doc: &Value) -> (r: Result<Value, PatchError>)
    ensures
        match r {
            Ok(after) => outcome_of(doc@, ops_of(ops@), Ok(after@)),
            Err(e) => outcome_of(doc@, ops_of(ops@), Err(e)),
        },
{
    let mut work = doc.clone();
    let mut i: usize = 0;
    while i < ops.len()
        invariant
            i <= ops.len(),
            run(doc@, ops_of(ops@), i as nat) == Ok::<Doc, (nat, Failure)>(work@),
        decreases ops.len() - i,
    {
        assert(ops_of(ops@)[i as int] == ops@[i as int]@);
        match apply_one(&mut work, &ops[i]) {
            Ok(()) => {},
            Err(failure) => {
                proof {
                    lemma_run_stops(doc@, ops_of(ops@), i as nat, ops.len() as nat);
                }
                return Err(PatchError { index: i, kind: ops[i].kind(), failure });
            },
        }
        i += 1;
    }
    Ok(work)
}

/// Once an operation has failed, running more of the batch changes nothing.
proof fn lemma_run_stops(d: Doc, ops: Seq<Op>, n: nat, m: nat)
    requires
        n < m,
        run(d, ops, n + 1) is Err,
    ensures
        run(d, ops, m) == run(d, ops, n + 1),
    decreases m,
{
    if m > n + 1 {
        lemma_run_stops(d, ops, n, (m - 1) as nat);
    }
}

impl Value {
    /// Applies a batch of operations to this document as one atomic unit.
    /// Where every operation succeeds the document becomes what the batch
    /// makes of it; where one fails the document stays exactly as it was.
    pub fn patch(&mut self, ops: &[Operation]) -> (r: Result<(), PatchError>)
        ensures
            match r {
                Ok(()) => outcome_of(old(self)@, ops_of(ops@), Ok(final(self)@)),
                Err(e) => outcome_of(old(self)@, ops_of(ops@), Err(e)) && *final(self) == *old(
                    self,
                ),
            },
    {
        match apply(ops, self) {
            Ok(after) => {
                *self = after;
                Ok(())
            },
            Err(e) => Err(e),
        }
    }

    /// The node that `path` leads to, if it leads to one.
    pub fn pick(&self, path: &Idiom) -> (r: Option<&Value>)
        ensures
            match r {
                Some(node) => resolve(self@, path@) == Some(node@),
                None => resolve(self@, path@) is None,
            },
    {
        match locate(self, path) {
            Located::Found(node) => Some(node),
            _ => None,
        }
    }
}

} // verus!
