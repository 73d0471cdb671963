//! The record form of a patch operation: the document that stands for it
//! where operations are stored or sent. A record is an object that names the
//! kind of the operation under `op` and holds its operands under `path`,
//! `value` and `from`.

use vstd::prelude::*;
use crate::sql::idiom::Idiom;
use crate::sql::idiom::Part;
use crate::sql::idiom::Step;
use crate::sql::operation::Kind;
use crate::sql::operation::Op;
use crate::sql::operation::Operation;
use crate::sql::value::bind;
use crate::sql::value::docs_of;
use crate::sql::value::find_key;
use crate::sql::value::object_of;
use crate::sql::value::Doc;
use crate::sql::value::Value;

verus! {

/// The name that a record gives to a kind of operation.
pub open spec fn tag_of(kind: Kind) -> Seq<char> {
    match kind {
        Kind::Add => "add"@,
        Kind::Remove => "remove"@,
        Kind::Replace => "replace"@,
        Kind::Change => "change"@,
        Kind::Copy => "copy"@,
        Kind::Move => "move"@,
        Kind::Test => "test"@,
    }
}

/// The kind of operation that a name stands for, if it stands for one.
pub open spec fn kind_of(tag: Seq<char>) -> Option<Kind> {
    if tag == "add"@ {
        Some(Kind::Add)
    } else if tag == "remove"@ {
        Some(Kind::Remove)
    } else if tag == "replace"@ {
        Some(Kind::Replace)
    } else if tag == "change"@ {
        Some(Kind::Change)
    } else if tag == "copy"@ {
        Some(Kind::Copy)
    } else if tag == "move"@ {
        Some(Kind::Move)
    } else if tag == "test"@ {
        Some(Kind::Test)
    } else {
        None
    }
}

/// The document that stands for a step: a text for a key, a number for a
/// position.
pub open spec fn step_doc(step: Step) -> Doc {
    match step {
        Step::Key(k) => Doc::Text(k),
        Step::Index(i) => Doc::Number(i as int),
    }
}

/// The step that a document stands for, if it stands for one: a key for a
/// text, a position for a number that can be one.
pub open spec fn doc_step(d: Doc) -> Option<Step> {
    match d {
        Doc::Text(k) => Some(Step::Key(k)),
        Doc::Number(n) => if 0 <= n <= usize::MAX {
            Some(Step::Index(n as nat))
        } else {
            None
        },
        _ => None,
    }
}

/// The document that stands for a path: the array of its steps.
pub open spec fn path_doc(path: Seq<Step>) -> Doc {
    Doc::Array(Seq::new(path.len(), |i: int| step_doc(path[i])))
}

/// The path that a document stands for, if it stands for one.
pub open spec fn doc_path(d: Doc) -> Option<Seq<Step>> {
    match d {
        Doc::Array(steps) => if forall|i: int|
            0 <= i < steps.len() ==> (#[trigger] doc_step(steps[i])) is Some {
            Some(Seq::new(steps.len(), |i: int| doc_step(steps[i])->0))
        } else {
            None
        },
        _ => None,
    }
}

/// A record of a kind and a path, without further operands.
pub open spec fn record_base(kind: Kind, path: Seq<Step>) -> Map<Seq<char>, Doc> {
    Map::<Seq<char>, Doc>::empty()
        .insert("op"@, Doc::Text(tag_of(kind)))
        .insert("path"@, path_doc(path))
}

/// The record of an operation.
pub open spec fn record_of(op: Op) -> Doc {
    match op {
        Op::Add { path, value } => Doc::Object(record_base(Kind::Add, path).insert("value"@, value)),
        Op::Remove { path } => Doc::Object(record_base(Kind::Remove, path)),
        Op::Replace { path, value } => Doc::Object(
            record_base(Kind::Replace, path).insert("value"@, value),
        ),
        Op::Change { path, value } => Doc::Object(
            record_base(Kind::Change, path).insert("value"@, value),
        ),
        Op::Copy { path, from } => Doc::Object(
            record_base(Kind::Copy, path).insert("from"@, path_doc(from)),
        ),
        Op::Move { path, from } => Doc::Object(
            record_base(Kind::Move, path).insert("from"@, path_doc(from)),
        ),
        Op::Test { path, value } => Doc::Object(
            record_base(Kind::Test, path).insert("value"@, value),
        ),
    }
}

/// The document bound to `key` in the object `d`, if `d` is an object that
/// binds the key.
pub open spec fn field(d: Doc, key: Seq<char>) -> Option<Doc> {
    match d {
        Doc::Object(m) => if m.contains_key(key) {
            Some(m[key])
        } else {
            None
        },
        _ => None,
    }
}

/// The path that the object `d` holds under `key`, if it holds one.
pub open spec fn path_field(d: Doc, key: Seq<char>) -> Option<Seq<Step>> {
    match field(d, key) {
        Some(p) => doc_path(p),
        None => None,
    }
}

/// The kind that the object `d` names under `op`, if it names one.
pub open spec fn kind_field(d: Doc) -> Option<Kind> {
    match field(d, "op"@) {
        Some(Doc::Text(tag)) => kind_of(tag),
        _ => None,
    }
}

/// The operation that a document is the record of, if it is the record of
/// one: an object that names a kind and holds the operands of that kind.
/// What else the object binds does not count.
pub open spec fn op_of(d: Doc) -> Option<Op> {
    match (kind_field(d), path_field(d, "path"@)) {
        (Some(kind), Some(path)) => match kind {
            Kind::Add => match field(d, "value"@) {
                Some(value) => Some(Op::Add { path, value }),
                None => None,
            },
            Kind::Remove => Some(Op::Remove { path }),
            Kind::Replace => match field(d, "value"@) {
                Some(value) => Some(Op::Replace { path, value }),
                None => None,
            },
            Kind::Change => match field(d, "value"@) {
                Some(value) => Some(Op::Change { path, value }),
                None => None,
            },
            Kind::Copy => match path_field(d, "from"@) {
                Some(from) => Some(Op::Copy { path, from }),
                None => None,
            },
            Kind::Move => match path_field(d, "from"@) {
                Some(from) => Some(Op::Move { path, from }),
                None => None,
            },
            Kind::Test => match field(d, "value"@) {
                Some(value) => Some(Op::Test { path, value }),
                None => None,
            },
        },
        _ => None,
    }
}

/// Whether every position in the path can be held by a number of a
/// document.
pub open spec fn path_fits(path: Seq<Step>) -> bool {
    forall|i: int|
        0 <= i < path.len() ==> (#[trigger] path[i] matches Step::Index(n) ==> n <= i64::MAX)
}

/// Whether every position in the paths of the operation can be held by a
/// number of a document.
pub open spec fn op_fits(op: Op) -> bool {
    match op {
        Op::Add { path, .. } => path_fits(path),
        Op::Remove { path } => path_fits(path),
        Op::Replace { path, .. } => path_fits(path),
        Op::Change { path, .. } => path_fits(path),
        Op::Copy { path, from } => path_fits(path) && path_fits(from),
        Op::Move { path, from } => path_fits(path) && path_fits(from),
        Op::Test { path, .. } => path_fits(path),
    }
}

/// The names of the seven kinds are seven different names.
pub proof fn lemma_tags_differ(kind: Kind)
    ensures
        kind_of(tag_of(kind)) == Some(kind),
{
    reveal_strlit("add");
    reveal_strlit("remove");
    reveal_strlit("replace");
    reveal_strlit("change");
    reveal_strlit("copy");
    reveal_strlit("move");
    reveal_strlit("test");
    let t = tag_of(kind);
    assert(t.len() > 0);
    assert("add"@[0] == 'a' && "remove"@[0] == 'r' && "replace"@[0] == 'r' && "change"@[0] == 'c'
        && "copy"@[0] == 'c' && "move"@[0] == 'm' && "test"@[0] == 't');
    assert("add"@.len() == 3 && "remove"@.len() == 6 && "replace"@.len() == 7 && "change"@.len()
        == 6 && "copy"@.len() == 4 && "move"@.len() == 4 && "test"@.len() == 4);
}

/// The four keys of a record are four different keys.
pub proof fn lemma_keys_differ()
    ensures
        "op"@ != "path"@,
        "op"@ != "value"@,
        "op"@ != "from"@,
        "path"@ != "value"@,
        "path"@ != "from"@,
        "value"@ != "from"@,
{
    reveal_strlit("op");
    reveal_strlit("path");
    reveal_strlit("value");
    reveal_strlit("from");
    assert("op"@.len() == 2 && "path"@.len() == 4 && "value"@.len() == 5 && "from"@.len() == 4);
    assert("path"@[0] == 'p' && "from"@[0] == 'f');
}

/// A path is the path that its document stands for.
pub proof fn law_path_round_trip(path: Idiom)
    ensures
        doc_path(path_doc(path@)) == Some(path@),
{
    let steps = path_doc(path@)->Array_0;
    assert forall|i: int| 0 <= i < steps.len() implies (#[trigger] doc_step(steps[i]))
        == Some(path@[i]) by {
        assert(path@[i] == path.0@[i]@);
    }
    assert(doc_path(path_doc(path@))->0 =~= path@);
}

/// Writing an operation down and reading it back gives the operation: every
/// operation is the operation that its record is the record of.
pub proof fn law_record_round_trip(op: Operation)
    ensures
        op_of(record_of(op@)) == Some(op@),
{
    lemma_keys_differ();
    lemma_tags_differ(op@.kind());
    match op {
        Operation::Add { path, value } => {
            law_path_round_trip(path);
        },
        Operation::Remove { path } => {
            law_path_round_trip(path);
        },
        Operation::Replace { path, value } => {
            law_path_round_trip(path);
        },
        Operation::Change { path, value } => {
            law_path_round_trip(path);
        },
        Operation::Copy { path, from } => {
            law_path_round_trip(path);
            law_path_round_trip(from);
        },
        Operation::Move { path, from } => {
            law_path_round_trip(path);
            law_path_round_trip(from);
        },
        Operation::Test { path, value } => {
            law_path_round_trip(path);
        },
    }
}

impl Kind {
    /// The name that a record gives to the kind.
    pub fn tag(&self) -> (tag: &'static str)
        ensures
            tag@ == tag_of(*self),
    {
        match self {
            Kind::Add => "add",
            Kind::Remove => "remove",
            Kind::Replace => "replace",
            Kind::Change => "change",
            Kind::Copy => "copy",
            Kind::Move => "move",
            Kind::Test => "test",
        }
    }

    /// The kind that a name stands for, if it stands for one.
    pub fn from_tag(tag: &str) -> (kind: Option<Kind>)
        ensures
            kind == kind_of(tag@),
    {
        let tag = tag.to_owned();
        if tag == "add".to_owned() {
            Some(Kind::Add)
        } else if tag == "remove".to_owned() {
            Some(Kind::Remove)
        } else if tag == "replace".to_owned() {
            Some(Kind::Replace)
        } else if tag == "change".to_owned() {
            Some(Kind::Change)
        } else if tag == "copy".to_owned() {
            Some(Kind::Copy)
        } else if tag == "move".to_owned() {
            Some(Kind::Move)
        } else if tag == "test".to_owned() {
            Some(Kind::Test)
        } else {
            None
        }
    }
}

impl Idiom {
    /// The document that stands for the path: the array of its steps, a text
    /// for each key and a number for each position. There is none where a
    /// position is too large for a number of a document.
    pub fn to_doc(&self) -> (r: Option<Value>)
        ensures
            match r {
                Some(v) => path_fits(self@) && v@ == path_doc(self@),
                None => !path_fits(self@),
            },
    {
        let mut items: Vec<Value> = Vec::new();
        let mut i: usize = 0;
        while i < self.0.len()
            invariant
                i <= self.0.len(),
                items.len() == i,
                forall|k: int| 0 <= k < i ==> items@[k]@ == step_doc(self@[k]),
                forall|k: int|
                    0 <= k < i ==> (#[trigger] self@[k] matches Step::Index(n) ==> n <= i64::MAX),
            decreases self.0.len() - i,
        {
            match &self.0[i] {
                Part::Key(k) => {
                    items.push(Value::Text(k.clone()));
                },
                Part::Index(n) => {
                    if *n as u64 > i64::MAX as u64 {
                        assert(self@[i as int] == Step::Index(*n as nat));
                        return None;
                    }
                    items.push(Value::Number(*n as i64));
                },
            }
            i += 1;
        }
        assert(docs_of(items@) =~= path_doc(self@)->Array_0);
        Some(Value::Array(items))
    }

    /// The path that a document stands for, if it stands for one: an array
    /// of texts and of numbers that can be positions.
    pub fn from_doc(v: &Value) -> (r: Option<Idiom>)
        ensures
            match doc_path(v@) {
                Some(path) => r is Some && r->0@ == path,
                None => r is None,
            },
    {
        match v {
            Value::Array(items) => {
                let mut parts: Vec<Part> = Vec::new();
                let mut i: usize = 0;
                while i < items.len()
                    invariant
                        i <= items.len(),
                        parts.len() == i,
                        v@ == Doc::Array(docs_of(items@)),
                        forall|k: int|
                            0 <= k < i ==> (#[trigger] doc_step(docs_of(items@)[k])) == Some(
                                parts@[k]@,
                            ),
                    decreases items.len() - i,
                {
                    match &items[i] {
                        Value::Text(k) => {
                            parts.push(Part::Key(k.clone()));
                        },
                        Value::Number(n) => {
                            if *n < 0 || *n as u64 > usize::MAX as u64 {
                                assert(doc_step(docs_of(items@)[i as int]) is None);
                                return None;
                            }
                            parts.push(Part::Index(*n as usize));
                        },
                        _ => {
                            assert(doc_step(docs_of(items@)[i as int]) is None);
                            return None;
                        },
                    }
                    i += 1;
                }
                let path = Idiom(parts);
                assert(doc_path(v@)->0 =~= path@);
                Some(path)
            },
            _ => None,
        }
    }
}

/// The value bound to `key` in the object `v`, if `v` is an object that
/// binds the key.
fn field_of<'a>(v: &'a Value, key: &str) -> (r: Option<&'a Value>)
    ensures
        match r {
            Some(found) => field(v@, key@) == Some(found@),
            None => field(v@, key@) is None,
        },
{
    match v {
        Value::Object(entries) => {
            let name = key.to_owned();
            let j = find_key(entries, &name);
            if j < entries.len() {
                Some(&entries[j].1)
            } else {
                None
            }
        },
        _ => None,
    }
}

/// The path that the object `v` holds under `key`, if it holds one.
fn path_of(v: &Value, key: &str) -> (r: Option<Idiom>)
    ensures
        match path_field(v@, key@) {
            Some(path) => r is Some && r->0@ == path,
            None => r is None,
        },
{
    match field_of(v, key) {
        Some(p) => Idiom::from_doc(p),
        None => None,
    }
}

/// The entries of a record of a kind and a path, without further operands.
fn base(kind: Kind, path: &Idiom) -> (r: Option<Vec<(String, Value)>>)
    ensures
        match r {
            Some(entries) => path_fits(path@) && object_of(entries@) == record_base(kind, path@),
            None => !path_fits(path@),
        },
{
    match path.to_doc() {
        Some(steps) => {
            let mut entries: Vec<(String, Value)> = Vec::new();
            assert(object_of(entries@) =~= Map::<Seq<char>, Doc>::empty());
            bind(&mut entries, "op".to_owned(), Value::Text(kind.tag().to_owned()));
            bind(&mut entries, "path".to_owned(), steps);
            Some(entries)
        },
        None => None,
    }
}

/// The record of a kind, a path and a payload.
fn with_value(kind: Kind, path: &Idiom, value: &Value) -> (r: Option<Value>)
    ensures
        match r {
            Some(v) => path_fits(path@) && v@ == Doc::Object(
                record_base(kind, path@).insert("value"@, value@),
            ),
            None => !path_fits(path@),
        },
{
    match base(kind, path) {
        Some(entries) => {
            let mut entries = entries;
            bind(&mut entries, "value".to_owned(), value.clone());
            Some(Value::Object(entries))
        },
        None => None,
    }
}

/// The record of a kind, a path and a path to read from.
fn with_from(kind: Kind, path: &Idiom, from: &Idiom) -> (r: Option<Value>)
    ensures
        match r {
            Some(v) => path_fits(path@) && path_fits(from@) && v@ == Doc::Object(
                record_base(kind, path@).insert("from"@, path_doc(from@)),
            ),
            None => !(path_fits(path@) && path_fits(from@)),
        },
{
    match base(kind, path) {
        Some(entries) => {
            match from.to_doc() {
                Some(steps) => {
                    let mut entries = entries;
                    bind(&mut entries, "from".to_owned(), steps);
                    Some(Value::Object(entries))
                },
                None => None,
            }
        },
        None => None,
    }
}

impl Operation {
    /// The record of the operation: an object that names its kind under `op`
    /// and holds its operands under `path`, `value` and `from`. There is
    /// none where a position in a path is too large for a number of a
    /// document.
    pub fn to_record(&self) -> (r: Option<Value>)
        ensures
            match r {
                Some(v) => op_fits(self@) && v@ == record_of(self@),
                None => !op_fits(self@),
            },
    {
        match self {
            Operation::Add { path, value } => with_value(Kind::Add, path, value),
            Operation::Remove { path } => match base(Kind::Remove, path) {
                Some(entries) => Some(Value::Object(entries)),
                None => None,
            },
            Operation::Replace { path, value } => with_value(Kind::Replace, path, value),
            Operation::Change { path, value } => with_value(Kind::Change, path, value),
            Operation::Copy { path, from } => with_from(Kind::Copy, path, from),
            Operation::Move { path, from } => with_from(Kind::Move, path, from),
            Operation::Test { path, value } => with_value(Kind::Test, path, value),
        }
    }

    /// The operation that `v` is the record of, if it is the record of one.
    pub fn from_record(v: &Value) -> (r: Option<Operation>)
        ensures
            match op_of(v@) {
                Some(op) => r is Some && r->0@ == op,
                None => r is None,
            },
    {
        let kind = match field_of(v, "op") {
            Some(Value::Text(tag)) => match Kind::from_tag(tag.as_str()) {
                Some(kind) => kind,
                None => {
                    return None;
                },
            },
            _ => {
                return None;
            },
        };
        let path = match path_of(v, "path") {
            Some(path) => path,
            None => {
                return None;
            },
        };
        match kind {
            Kind::Add => match field_of(v, "value") {
                Some(value) => Some(Operation::Add { path, value: value.clone() }),
                None => None,
            },
            Kind::Remove => Some(Operation::Remove { path }),
            Kind::Replace => match field_of(v, "value") {
                Some(value) => Some(Operation::Replace { path, value: value.clone() }),
                None => None,
            },
            Kind::Change => match field_of(v, "value") {
                Some(value) => Some(Operation::Change { path, value: value.clone() }),
                None => None,
            },
            Kind::Copy => match path_of(v, "from") {
                Some(from) => Some(Operation::Copy { path, from }),
                None => None,
            },
            Kind::Move => match path_of(v, "from") {
                Some(from) => Some(Operation::Move { path, from }),
                None => None,
            },
            Kind::Test => match field_of(v, "value") {
                Some(value) => Some(Operation::Test { path, value: value.clone() }),
                None => None,
            },
        }
    }
}

} // verus!
