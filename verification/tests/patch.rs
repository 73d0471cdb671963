use surreal_core::sql::idiom::Idiom;
use surreal_core::sql::idiom::Part;
use surreal_core::sql::operation::Kind;
use surreal_core::sql::operation::Operation;
use surreal_core::sql::patch::apply;
use surreal_core::sql::patch::Failure;
use surreal_core::sql::patch::PatchError;
use surreal_core::sql::value::Value;

fn key(k: &str) -> Part {
    Part::Key(k.to_string())
}

fn at(i: usize) -> Part {
    Part::Index(i)
}

fn path(parts: Vec<Part>) -> Idiom {
    Idiom(parts)
}

fn num(n: i64) -> Value {
    Value::Number(n)
}

fn text(s: &str) -> Value {
    Value::Text(s.to_string())
}

fn array(items: Vec<Value>) -> Value {
    Value::Array(items)
}

fn object(entries: Vec<(&str, Value)>) -> Value {
    Value::Object(entries.into_iter().map(|(k, v)| (k.to_string(), v)).collect())
}

fn failed(index: usize, kind: Kind, failure: Failure) -> PatchError {
    PatchError { index, kind, failure }
}

#[test]
fn add_to_empty_object() {
    let doc = object(vec![]);
    let ops = vec![Operation::Add { path: path(vec![key("a")]), value: num(1) }];
    let after = apply(&ops, &doc).unwrap();
    assert_eq!(after, object(vec![("a", num(1))]));
    assert_eq!(doc, object(vec![]));
}

#[test]
fn replace_of_missing_key_fails() {
    let mut doc = object(vec![]);
    let ops = vec![Operation::Replace { path: path(vec![key("a")]), value: num(2) }];
    let r = doc.patch(&ops);
    assert_eq!(r, Err(failed(0, Kind::Replace, Failure::PatchPrecondition)));
    assert_eq!(doc, object(vec![]));
}

#[test]
fn failed_test_rolls_back_earlier_add() {
    let mut doc = object(vec![]);
    let ops = vec![
        Operation::Add { path: path(vec![key("a")]), value: num(1) },
        Operation::Test { path: path(vec![key("a")]), value: num(2) },
    ];
    let r = doc.patch(&ops);
    assert_eq!(r, Err(failed(1, Kind::Test, Failure::TestMismatch)));
    assert_eq!(doc, object(vec![]));
    assert_eq!(apply(&ops, &doc), Err(failed(1, Kind::Test, Failure::TestMismatch)));
}

#[test]
fn move_renames_a_key() {
    let mut doc = object(vec![("a", num(1))]);
    let ops = vec![Operation::Move { path: path(vec![key("b")]), from: path(vec![key("a")]) }];
    assert_eq!(doc.patch(&ops), Ok(()));
    assert_eq!(doc, object(vec![("b", num(1))]));
    assert_eq!(doc.pick(&path(vec![key("a")])), None);
    assert_eq!(doc.pick(&path(vec![key("b")])), Some(&num(1)));
}

#[test]
fn move_into_own_subtree_fails() {
    let before = object(vec![("a", object(vec![("x", num(1))]))]);
    let mut doc = before.clone();
    let ops = vec![Operation::Move {
        path: path(vec![key("a"), key("x")]),
        from: path(vec![key("a")]),
    }];
    let r = doc.patch(&ops);
    assert_eq!(r, Err(failed(0, Kind::Move, Failure::PatchPrecondition)));
    assert_eq!(doc, before);
}

#[test]
fn move_onto_itself_fails() {
    let before = object(vec![("a", num(1))]);
    let mut doc = before.clone();
    let ops = vec![Operation::Move { path: path(vec![key("a")]), from: path(vec![key("a")]) }];
    assert_eq!(doc.patch(&ops), Err(failed(0, Kind::Move, Failure::PatchPrecondition)));
    assert_eq!(doc, before);
}

#[test]
fn copy_duplicates_a_subtree() {
    let mut doc = object(vec![("a", object(vec![("n", num(1))]))]);
    let ops = vec![Operation::Copy { path: path(vec![key("b")]), from: path(vec![key("a")]) }];
    assert_eq!(doc.patch(&ops), Ok(()));
    assert_eq!(
        doc,
        object(vec![("a", object(vec![("n", num(1))])), ("b", object(vec![("n", num(1))]))])
    );
    let change =
        vec![Operation::Replace { path: path(vec![key("a"), key("n")]), value: num(7) }];
    assert_eq!(doc.patch(&change), Ok(()));
    assert_eq!(doc.pick(&path(vec![key("a"), key("n")])), Some(&num(7)));
    assert_eq!(doc.pick(&path(vec![key("b"), key("n")])), Some(&num(1)));
    let change = vec![Operation::Replace { path: path(vec![key("b"), key("n")]), value: num(9) }];
    assert_eq!(doc.patch(&change), Ok(()));
    assert_eq!(doc.pick(&path(vec![key("a"), key("n")])), Some(&num(7)));
    assert_eq!(doc.pick(&path(vec![key("b"), key("n")])), Some(&num(9)));
}

#[test]
fn empty_batch_changes_nothing() {
    let doc = object(vec![("a", array(vec![num(1), num(2)]))]);
    assert_eq!(apply(&vec![], &doc), Ok(doc.clone()));
}

#[test]
fn later_operations_see_earlier_ones() {
    let doc = object(vec![]);
    let ops = vec![
        Operation::Add { path: path(vec![key("a")]), value: object(vec![]) },
        Operation::Add { path: path(vec![key("a"), key("b")]), value: array(vec![]) },
        Operation::Add { path: path(vec![key("a"), key("b"), at(0)]), value: num(1) },
        Operation::Test { path: path(vec![key("a"), key("b"), at(0)]), value: num(1) },
        Operation::Copy { path: path(vec![key("c")]), from: path(vec![key("a"), key("b")]) },
    ];
    let after = apply(&ops, &doc).unwrap();
    assert_eq!(
        after,
        object(vec![("a", object(vec![("b", array(vec![num(1)]))])), ("c", array(vec![num(1)]))])
    );
}

#[test]
fn error_names_the_first_failing_operation() {
    let doc = object(vec![("a", num(1))]);
    let ops = vec![
        Operation::Test { path: path(vec![key("a")]), value: num(1) },
        Operation::Remove { path: path(vec![key("a")]) },
        Operation::Remove { path: path(vec![key("a")]) },
        Operation::Test { path: path(vec![key("a")]), value: num(5) },
    ];
    assert_eq!(apply(&ops, &doc), Err(failed(2, Kind::Remove, Failure::PatchPrecondition)));
}

#[test]
fn add_overwrites_an_existing_key() {
    let doc = object(vec![("a", num(1)), ("b", num(2))]);
    let ops = vec![Operation::Add { path: path(vec![key("a")]), value: text("x") }];
    assert_eq!(apply(&ops, &doc), Ok(object(vec![("a", text("x")), ("b", num(2))])));
}

#[test]
fn add_inserts_into_an_array() {
    let doc = array(vec![num(1), num(2), num(3)]);
    let ops = vec![Operation::Add { path: path(vec![at(1)]), value: num(9) }];
    assert_eq!(apply(&ops, &doc), Ok(array(vec![num(1), num(9), num(2), num(3)])));
}

#[test]
fn add_past_the_end_of_an_array_appends() {
    let doc = array(vec![num(1), num(2)]);
    let ops = vec![Operation::Add { path: path(vec![at(2)]), value: num(3) }];
    assert_eq!(apply(&ops, &doc), Ok(array(vec![num(1), num(2), num(3)])));
    let ops = vec![Operation::Add { path: path(vec![at(40)]), value: num(3) }];
    assert_eq!(apply(&ops, &doc), Ok(array(vec![num(1), num(2), num(3)])));
}

#[test]
fn add_below_a_missing_key_fails() {
    let doc = object(vec![("a", object(vec![]))]);
    let ops = vec![Operation::Add { path: path(vec![key("b"), key("c")]), value: num(1) }];
    assert_eq!(apply(&ops, &doc), Err(failed(0, Kind::Add, Failure::PathResolution)));
}

#[test]
fn add_below_a_missing_array_position_fails() {
    let doc = array(vec![object(vec![])]);
    let ops = vec![Operation::Add { path: path(vec![at(1), key("c")]), value: num(1) }];
    assert_eq!(apply(&ops, &doc), Err(failed(0, Kind::Add, Failure::PathResolution)));
}

#[test]
fn add_of_a_key_to_an_array_fails() {
    let doc = array(vec![num(1)]);
    let ops = vec![Operation::Add { path: path(vec![key("a")]), value: num(1) }];
    assert_eq!(apply(&ops, &doc), Err(failed(0, Kind::Add, Failure::PathResolution)));
    let doc = object(vec![]);
    let ops = vec![Operation::Add { path: path(vec![at(0)]), value: num(1) }];
    assert_eq!(apply(&ops, &doc), Err(failed(0, Kind::Add, Failure::PathResolution)));
    let doc = num(3);
    let ops = vec![Operation::Add { path: path(vec![key("a")]), value: num(1) }];
    assert_eq!(apply(&ops, &doc), Err(failed(0, Kind::Add, Failure::PathResolution)));
}

#[test]
fn add_at_the_root_replaces_the_document() {
    let doc = object(vec![("a", num(1))]);
    let ops = vec![Operation::Add { path: path(vec![]), value: array(vec![]) }];
    assert_eq!(apply(&ops, &doc), Ok(array(vec![])));
}

#[test]
fn remove_deletes_a_key() {
    let doc = object(vec![("a", num(1)), ("b", num(2))]);
    let ops = vec![Operation::Remove { path: path(vec![key("a")]) }];
    assert_eq!(apply(&ops, &doc), Ok(object(vec![("b", num(2))])));
}

#[test]
fn remove_deletes_every_entry_of_a_key() {
    let doc = object(vec![("a", num(1)), ("b", num(2)), ("a", num(3))]);
    let ops = vec![Operation::Remove { path: path(vec![key("a")]) }];
    let after = apply(&ops, &doc).unwrap();
    assert_eq!(after, object(vec![("b", num(2))]));
    assert_eq!(after.pick(&path(vec![key("a")])), None);
}

#[test]
fn remove_closes_the_gap_in_an_array() {
    let doc = object(vec![("a", array(vec![num(1), num(2), num(3)]))]);
    let ops = vec![Operation::Remove { path: path(vec![key("a"), at(0)]) }];
    assert_eq!(apply(&ops, &doc), Ok(object(vec![("a", array(vec![num(2), num(3)]))])));
}

#[test]
fn remove_of_a_missing_target_fails() {
    let doc = object(vec![("a", array(vec![num(1)]))]);
    let ops = vec![Operation::Remove { path: path(vec![key("b")]) }];
    assert_eq!(apply(&ops, &doc), Err(failed(0, Kind::Remove, Failure::PatchPrecondition)));
}

#[test]
fn remove_past_the_end_of_an_array_fails() {
    let doc = object(vec![("a", array(vec![num(1)]))]);
    let ops = vec![Operation::Remove { path: path(vec![key("a"), at(1)]) }];
    assert_eq!(apply(&ops, &doc), Err(failed(0, Kind::Remove, Failure::PathResolution)));
}

#[test]
fn remove_through_a_missing_key_fails() {
    let doc = object(vec![("a", array(vec![num(1)]))]);
    let ops = vec![Operation::Remove { path: path(vec![key("b"), key("c")]) }];
    assert_eq!(apply(&ops, &doc), Err(failed(0, Kind::Remove, Failure::PathResolution)));
    let ops = vec![Operation::Remove { path: path(vec![key("a"), key("c")]) }];
    assert_eq!(apply(&ops, &doc), Err(failed(0, Kind::Remove, Failure::PathResolution)));
    let ops = vec![Operation::Remove { path: path(vec![key("a"), at(3), at(0)]) }];
    assert_eq!(apply(&ops, &doc), Err(failed(0, Kind::Remove, Failure::PathResolution)));
}

#[test]
fn remove_of_the_root_leaves_null() {
    let doc = object(vec![("a", num(1))]);
    let ops = vec![Operation::Remove { path: path(vec![]) }];
    assert_eq!(apply(&ops, &doc), Ok(Value::Null));
}

#[test]
fn replace_overwrites_a_node() {
    let doc = object(vec![("a", array(vec![num(1), num(2)]))]);
    let ops = vec![Operation::Replace { path: path(vec![key("a"), at(1)]), value: text("x") }];
    assert_eq!(apply(&ops, &doc), Ok(object(vec![("a", array(vec![num(1), text("x")]))])));
    let ops = vec![Operation::Replace { path: path(vec![key("a")]), value: Value::Bool(true) }];
    assert_eq!(apply(&ops, &doc), Ok(object(vec![("a", Value::Bool(true))])));
}

#[test]
fn replace_where_the_path_does_not_resolve_fails() {
    let doc = array(vec![num(1)]);
    let ops = vec![Operation::Replace { path: path(vec![at(1)]), value: num(2) }];
    assert_eq!(apply(&ops, &doc), Err(failed(0, Kind::Replace, Failure::PathResolution)));
    let ops = vec![Operation::Replace { path: path(vec![key("a")]), value: num(2) }];
    assert_eq!(apply(&ops, &doc), Err(failed(0, Kind::Replace, Failure::PathResolution)));
    let doc = object(vec![("a", object(vec![]))]);
    let ops = vec![Operation::Replace { path: path(vec![key("b"), key("c")]), value: num(2) }];
    assert_eq!(apply(&ops, &doc), Err(failed(0, Kind::Replace, Failure::PathResolution)));
    let ops = vec![Operation::Replace { path: path(vec![key("a"), key("c")]), value: num(2) }];
    assert_eq!(apply(&ops, &doc), Err(failed(0, Kind::Replace, Failure::PatchPrecondition)));
}

#[test]
fn change_merges_objects_key_by_key() {
    let doc = object(vec![(
        "a",
        object(vec![("keep", num(1)), ("deep", object(vec![("x", num(1)), ("y", num(2))]))]),
    )]);
    let ops = vec![Operation::Change {
        path: path(vec![key("a")]),
        value: object(vec![("deep", object(vec![("y", num(20)), ("z", num(30))])), ("new", text("n"))]),
    }];
    assert_eq!(
        apply(&ops, &doc),
        Ok(object(vec![(
            "a",
            object(vec![
                ("keep", num(1)),
                ("deep", object(vec![("x", num(1)), ("y", num(20)), ("z", num(30))])),
                ("new", text("n")),
            ]),
        )]))
    );
}

#[test]
fn change_overwrites_what_is_no_object() {
    let doc = object(vec![("a", array(vec![num(1)])), ("b", object(vec![("x", num(1))]))]);
    let ops = vec![Operation::Change { path: path(vec![key("a")]), value: object(vec![]) }];
    assert_eq!(
        apply(&ops, &doc),
        Ok(object(vec![("a", object(vec![])), ("b", object(vec![("x", num(1))]))]))
    );
    let ops = vec![Operation::Change { path: path(vec![key("b")]), value: array(vec![num(2)]) }];
    assert_eq!(
        apply(&ops, &doc),
        Ok(object(vec![("a", array(vec![num(1)])), ("b", array(vec![num(2)]))]))
    );
    let ops = vec![Operation::Change { path: path(vec![key("b"), key("x")]), value: num(5) }];
    assert_eq!(
        apply(&ops, &doc),
        Ok(object(vec![("a", array(vec![num(1)])), ("b", object(vec![("x", num(5))]))]))
    );
}

#[test]
fn change_of_a_missing_target_fails() {
    let doc = object(vec![("a", num(1))]);
    let ops = vec![Operation::Change { path: path(vec![key("b")]), value: num(1) }];
    assert_eq!(apply(&ops, &doc), Err(failed(0, Kind::Change, Failure::PathResolution)));
}

#[test]
fn copy_from_a_missing_source_fails() {
    let doc = object(vec![("a", num(1))]);
    let ops = vec![Operation::Copy { path: path(vec![key("c")]), from: path(vec![key("b")]) }];
    assert_eq!(apply(&ops, &doc), Err(failed(0, Kind::Copy, Failure::PathResolution)));
}

#[test]
fn copy_to_an_unreachable_place_fails() {
    let doc = object(vec![("a", num(1))]);
    let ops =
        vec![Operation::Copy { path: path(vec![key("c"), key("d")]), from: path(vec![key("a")]) }];
    assert_eq!(apply(&ops, &doc), Err(failed(0, Kind::Copy, Failure::PathResolution)));
}

#[test]
fn copy_into_an_array_inserts() {
    let doc = object(vec![("a", array(vec![num(1), num(2)]))]);
    let ops = vec![Operation::Copy {
        path: path(vec![key("a"), at(0)]),
        from: path(vec![key("a"), at(1)]),
    }];
    assert_eq!(apply(&ops, &doc), Ok(object(vec![("a", array(vec![num(2), num(1), num(2)]))])));
}

#[test]
fn move_from_a_missing_source_fails() {
    let doc = object(vec![("a", num(1))]);
    let ops = vec![Operation::Move { path: path(vec![key("c")]), from: path(vec![key("b")]) }];
    assert_eq!(apply(&ops, &doc), Err(failed(0, Kind::Move, Failure::PatchPrecondition)));
    let ops =
        vec![Operation::Move { path: path(vec![key("c")]), from: path(vec![key("b"), key("x")]) }];
    assert_eq!(apply(&ops, &doc), Err(failed(0, Kind::Move, Failure::PathResolution)));
    let doc = array(vec![num(1)]);
    let ops = vec![Operation::Move { path: path(vec![at(0)]), from: path(vec![at(1)]) }];
    assert_eq!(apply(&ops, &doc), Err(failed(0, Kind::Move, Failure::PathResolution)));
}

#[test]
fn move_within_an_array_removes_first() {
    let doc = array(vec![text("a"), text("b"), text("c")]);
    let ops = vec![Operation::Move { path: path(vec![at(2)]), from: path(vec![at(0)]) }];
    assert_eq!(apply(&ops, &doc), Ok(array(vec![text("b"), text("c"), text("a")])));
    let ops = vec![Operation::Move { path: path(vec![at(0)]), from: path(vec![at(2)]) }];
    assert_eq!(apply(&ops, &doc), Ok(array(vec![text("c"), text("a"), text("b")])));
}

#[test]
fn move_to_an_unreachable_place_fails_and_keeps_the_source() {
    let before = object(vec![("a", num(1))]);
    let mut doc = before.clone();
    let ops =
        vec![Operation::Move { path: path(vec![key("c"), key("d")]), from: path(vec![key("a")]) }];
    assert_eq!(doc.patch(&ops), Err(failed(0, Kind::Move, Failure::PathResolution)));
    assert_eq!(doc, before);
}

#[test]
fn move_of_the_root_fails() {
    let doc = object(vec![("a", num(1))]);
    let ops = vec![Operation::Move { path: path(vec![key("b")]), from: path(vec![]) }];
    assert_eq!(apply(&ops, &doc), Err(failed(0, Kind::Move, Failure::PatchPrecondition)));
}

#[test]
fn test_compares_deeply() {
    let doc = object(vec![("a", object(vec![("x", array(vec![num(1), num(2)])), ("y", text("t"))]))]);
    let same = object(vec![("y", text("t")), ("x", array(vec![num(1), num(2)]))]);
    let ops = vec![Operation::Test { path: path(vec![key("a")]), value: same }];
    assert_eq!(apply(&ops, &doc), Ok(doc.clone()));
    let other = object(vec![("y", text("t")), ("x", array(vec![num(2), num(1)]))]);
    let ops = vec![Operation::Test { path: path(vec![key("a")]), value: other }];
    assert_eq!(apply(&ops, &doc), Err(failed(0, Kind::Test, Failure::TestMismatch)));
}

#[test]
fn test_takes_absent_for_null() {
    let doc = object(vec![("a", Value::Null)]);
    let ops = vec![Operation::Test { path: path(vec![key("a")]), value: Value::Null }];
    assert_eq!(apply(&ops, &doc), Ok(doc.clone()));
    let ops = vec![Operation::Test { path: path(vec![key("b")]), value: Value::Null }];
    assert_eq!(apply(&ops, &doc), Ok(doc.clone()));
    let ops = vec![Operation::Test { path: path(vec![key("b")]), value: num(0) }];
    assert_eq!(apply(&ops, &doc), Err(failed(0, Kind::Test, Failure::TestMismatch)));
}

#[test]
fn test_where_the_path_does_not_resolve_fails() {
    let doc = object(vec![("a", array(vec![num(1)]))]);
    let ops = vec![Operation::Test { path: path(vec![key("b"), key("c")]), value: Value::Null }];
    assert_eq!(apply(&ops, &doc), Err(failed(0, Kind::Test, Failure::PathResolution)));
    let ops = vec![Operation::Test { path: path(vec![key("a"), at(1)]), value: Value::Null }];
    assert_eq!(apply(&ops, &doc), Err(failed(0, Kind::Test, Failure::PathResolution)));
    let ops = vec![Operation::Test { path: path(vec![key("a"), key("x")]), value: Value::Null }];
    assert_eq!(apply(&ops, &doc), Err(failed(0, Kind::Test, Failure::PathResolution)));
    let ops = vec![Operation::Test { path: path(vec![]), value: doc.clone() }];
    assert_eq!(apply(&ops, &doc), Ok(doc.clone()));
}

#[test]
fn patch_in_place_matches_apply() {
    let doc = object(vec![("a", array(vec![num(1)]))]);
    let ops = vec![
        Operation::Add { path: path(vec![key("a"), at(1)]), value: num(2) },
        Operation::Copy { path: path(vec![key("b")]), from: path(vec![key("a")]) },
        Operation::Remove { path: path(vec![key("a"), at(0)]) },
    ];
    let expected =
        object(vec![("a", array(vec![num(2)])), ("b", array(vec![num(1), num(2)]))]);
    assert_eq!(apply(&ops, &doc), Ok(expected.clone()));
    let mut own = doc.clone();
    assert_eq!(own.patch(&ops), Ok(()));
    assert_eq!(own, expected);
}

#[test]
fn operation_reports_its_kind() {
    let p = path(vec![key("a")]);
    assert_eq!(Operation::Add { path: p.clone(), value: num(1) }.kind(), Kind::Add);
    assert_eq!(Operation::Remove { path: p.clone() }.kind(), Kind::Remove);
    assert_eq!(Operation::Replace { path: p.clone(), value: num(1) }.kind(), Kind::Replace);
    assert_eq!(Operation::Change { path: p.clone(), value: num(1) }.kind(), Kind::Change);
    assert_eq!(Operation::Copy { path: p.clone(), from: p.clone() }.kind(), Kind::Copy);
    assert_eq!(Operation::Move { path: p.clone(), from: p.clone() }.kind(), Kind::Move);
    assert_eq!(Operation::Test { path: p.clone(), value: num(1) }.kind(), Kind::Test);
}

#[test]
fn replace_changes_nothing_elsewhere() {
    let doc = object(vec![
        ("a", object(vec![("n", num(1)), ("m", array(vec![num(1), num(2)]))])),
        ("b", array(vec![text("x"), text("y")])),
    ]);
    let ops =
        vec![Operation::Replace { path: path(vec![key("a"), key("m"), at(0)]), value: num(9) }];
    let after = apply(&ops, &doc).unwrap();
    assert_eq!(after.pick(&path(vec![key("a"), key("m"), at(0)])), Some(&num(9)));
    assert_eq!(after.pick(&path(vec![key("a"), key("m"), at(1)])), Some(&num(2)));
    assert_eq!(after.pick(&path(vec![key("a"), key("n")])), Some(&num(1)));
    assert_eq!(
        after.pick(&path(vec![key("b")])),
        doc.pick(&path(vec![key("b")]))
    );
}

#[test]
fn added_node_is_found_where_it_was_added() {
    let doc = object(vec![("a", array(vec![num(1), num(2)]))]);
    for target in [
        path(vec![key("b")]),
        path(vec![key("a")]),
        path(vec![key("a"), at(0)]),
        path(vec![key("a"), at(1)]),
        path(vec![key("a"), at(2)]),
        path(vec![]),
    ] {
        let ops = vec![
            Operation::Add { path: target.clone(), value: text("new") },
            Operation::Test { path: target.clone(), value: text("new") },
        ];
        let after = apply(&ops, &doc).unwrap();
        assert_eq!(after.pick(&target), Some(&text("new")));
    }
}

#[test]
fn batch_in_two_parts() {
    let doc = object(vec![("a", num(1))]);
    let first = vec![
        Operation::Add { path: path(vec![key("b")]), value: num(2) },
        Operation::Remove { path: path(vec![key("a")]) },
    ];
    let rest = vec![
        Operation::Move { path: path(vec![key("c")]), from: path(vec![key("b")]) },
        Operation::Test { path: path(vec![key("a")]), value: num(1) },
    ];
    let whole: Vec<Operation> = first.iter().chain(rest.iter()).cloned().collect();
    let between = apply(&first, &doc).unwrap();
    assert_eq!(between, object(vec![("b", num(2))]));
    assert_eq!(apply(&rest, &between), Err(failed(1, Kind::Test, Failure::TestMismatch)));
    assert_eq!(apply(&whole, &doc), Err(failed(3, Kind::Test, Failure::TestMismatch)));
    assert_eq!(apply(&whole[..3], &doc), Ok(object(vec![("c", num(2))])));
}
