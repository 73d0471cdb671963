use surreal_core::sql::idiom::Idiom;
use surreal_core::sql::idiom::Part;
use surreal_core::sql::operation::Kind;
use surreal_core::sql::operation::Operation;
use surreal_core::sql::value::Value;

fn key(k: &str) -> Part {
    Part::Key(k.to_string())
}

fn text(s: &str) -> Value {
    Value::Text(s.to_string())
}

fn object(entries: Vec<(&str, Value)>) -> Value {
    Value::Object(entries.into_iter().map(|(k, v)| (k.to_string(), v)).collect())
}

fn samples() -> Vec<Operation> {
    let p = Idiom(vec![key("a"), Part::Index(2), key("0")]);
    let q = Idiom(vec![]);
    let v = object(vec![("x", Value::Array(vec![Value::Null, Value::Bool(true), Value::Number(-4)]))]);
    vec![
        Operation::Add { path: p.clone(), value: v.clone() },
        Operation::Remove { path: p.clone() },
        Operation::Replace { path: q.clone(), value: text("t") },
        Operation::Change { path: p.clone(), value: v.clone() },
        Operation::Copy { path: p.clone(), from: q.clone() },
        Operation::Move { path: q.clone(), from: p.clone() },
        Operation::Test { path: p.clone(), value: Value::Null },
    ]
}

#[test]
fn record_round_trip() {
    for op in samples() {
        let record = op.to_record().unwrap();
        assert_eq!(Operation::from_record(&record), Some(op));
    }
}

#[test]
fn record_names_kind_and_operands() {
    let op = Operation::Add { path: Idiom(vec![key("a"), Part::Index(1)]), value: Value::Number(1) };
    assert_eq!(
        op.to_record(),
        Some(object(vec![
            ("op", text("add")),
            ("path", Value::Array(vec![text("a"), Value::Number(1)])),
            ("value", Value::Number(1)),
        ]))
    );
    let op = Operation::Move { path: Idiom(vec![key("b")]), from: Idiom(vec![key("a")]) };
    assert_eq!(
        op.to_record(),
        Some(object(vec![
            ("op", text("move")),
            ("path", Value::Array(vec![text("b")])),
            ("from", Value::Array(vec![text("a")])),
        ]))
    );
    let op = Operation::Remove { path: Idiom(vec![]) };
    assert_eq!(
        op.to_record(),
        Some(object(vec![("op", text("remove")), ("path", Value::Array(vec![]))]))
    );
}

#[test]
fn kinds_have_lowercase_tags() {
    let tags = ["add", "remove", "replace", "change", "copy", "move", "test"];
    let kinds = [
        Kind::Add,
        Kind::Remove,
        Kind::Replace,
        Kind::Change,
        Kind::Copy,
        Kind::Move,
        Kind::Test,
    ];
    for (tag, kind) in tags.iter().zip(kinds.iter()) {
        assert_eq!(kind.tag(), *tag);
        assert_eq!(Kind::from_tag(tag), Some(*kind));
    }
    assert_eq!(Kind::from_tag("Add"), None);
    assert_eq!(Kind::from_tag(""), None);
    assert_eq!(Kind::from_tag("patch"), None);
}

#[test]
fn from_record_reads_whatever_the_order_of_the_keys() {
    let record = object(vec![
        ("value", Value::Number(2)),
        ("note", text("not an operand")),
        ("path", Value::Array(vec![text("a")])),
        ("op", text("test")),
    ]);
    assert_eq!(
        Operation::from_record(&record),
        Some(Operation::Test { path: Idiom(vec![key("a")]), value: Value::Number(2) })
    );
}

#[test]
fn from_record_refuses_what_is_no_record() {
    let path = Value::Array(vec![text("a")]);
    assert_eq!(Operation::from_record(&Value::Null), None);
    assert_eq!(Operation::from_record(&Value::Array(vec![])), None);
    assert_eq!(Operation::from_record(&object(vec![("path", path.clone())])), None);
    assert_eq!(Operation::from_record(&object(vec![("op", text("remove"))])), None);
    assert_eq!(
        Operation::from_record(&object(vec![("op", Value::Number(1)), ("path", path.clone())])),
        None
    );
    assert_eq!(
        Operation::from_record(&object(vec![("op", text("delete")), ("path", path.clone())])),
        None
    );
    assert_eq!(
        Operation::from_record(&object(vec![("op", text("add")), ("path", path.clone())])),
        None
    );
    assert_eq!(
        Operation::from_record(&object(vec![("op", text("copy")), ("path", path.clone())])),
        None
    );
    assert_eq!(
        Operation::from_record(&object(vec![
            ("op", text("move")),
            ("path", path.clone()),
            ("from", text("/a")),
        ])),
        None
    );
    assert_eq!(
        Operation::from_record(&object(vec![("op", text("remove")), ("path", text("/a"))])),
        None
    );
    assert_eq!(
        Operation::from_record(&object(vec![
            ("op", text("remove")),
            ("path", Value::Array(vec![Value::Number(-1)])),
        ])),
        None
    );
    assert_eq!(
        Operation::from_record(&object(vec![
            ("op", text("remove")),
            ("path", Value::Array(vec![Value::Bool(true)])),
        ])),
        None
    );
}

#[test]
fn path_documents() {
    let p = Idiom(vec![key("a"), Part::Index(0)]);
    let d = p.to_doc().unwrap();
    assert_eq!(d, Value::Array(vec![text("a"), Value::Number(0)]));
    assert_eq!(Idiom::from_doc(&d), Some(p));
    assert_eq!(Idiom::from_doc(&Value::Array(vec![])), Some(Idiom(vec![])));
    assert_eq!(Idiom::from_doc(&Value::Null), None);
}

#[test]
fn position_too_large_for_a_number_has_no_record() {
    let big = usize::MAX;
    if big as u128 > i64::MAX as u128 {
        let op = Operation::Remove { path: Idiom(vec![Part::Index(big)]) };
        assert_eq!(op.to_record(), None);
        assert_eq!(Idiom(vec![Part::Index(big)]).to_doc(), None);
    }
    let most = i64::MAX as usize;
    let op = Operation::Remove { path: Idiom(vec![Part::Index(most)]) };
    let record = op.to_record().unwrap();
    assert_eq!(Operation::from_record(&record), Some(op));
}
