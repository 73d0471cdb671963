use surreal_core::sql::idiom::Idiom;
use surreal_core::sql::idiom::Part;
use surreal_core::sql::value::find_key;
use surreal_core::sql::value::Value;

fn object(entries: Vec<(&str, Value)>) -> Value {
    Value::Object(entries.into_iter().map(|(k, v)| (k.to_string(), v)).collect())
}

#[test]
fn objects_are_equal_whatever_the_order_of_their_keys() {
    let a = object(vec![("x", Value::Number(1)), ("y", Value::Bool(false))]);
    let b = object(vec![("y", Value::Bool(false)), ("x", Value::Number(1))]);
    assert!(a.equal(&b));
    assert_eq!(a, b);
    let c = object(vec![("y", Value::Bool(false)), ("x", Value::Number(2))]);
    assert!(!a.equal(&c));
    assert_ne!(a, c);
    let d = object(vec![("x", Value::Number(1))]);
    assert_ne!(a, d);
    assert_ne!(d, a);
}

#[test]
fn arrays_are_equal_only_in_the_same_order() {
    let a = Value::Array(vec![Value::Number(1), Value::Number(2)]);
    let b = Value::Array(vec![Value::Number(2), Value::Number(1)]);
    assert_ne!(a, b);
    assert_eq!(a, Value::Array(vec![Value::Number(1), Value::Number(2)]));
    assert_ne!(a, Value::Array(vec![Value::Number(1)]));
}

#[test]
fn values_of_different_kinds_differ() {
    assert_ne!(Value::Null, Value::Bool(false));
    assert_ne!(Value::Number(0), Value::Text("0".to_string()));
    assert_ne!(Value::Array(vec![]), object(vec![]));
    assert_eq!(Value::Text("a".to_string()), Value::Text("a".to_string()));
    assert_ne!(Value::Text("a".to_string()), Value::Text("b".to_string()));
    assert_eq!(Value::Null, Value::Null);
}

#[test]
fn first_entry_of_a_key_counts() {
    let a = object(vec![("x", Value::Number(1)), ("x", Value::Number(2))]);
    assert_eq!(a, object(vec![("x", Value::Number(1))]));
    assert_ne!(a, object(vec![("x", Value::Number(2))]));
    assert_eq!(a.pick(&Idiom(vec![Part::Key("x".to_string())])), Some(&Value::Number(1)));
}

#[test]
fn clone_is_deep_and_equal() {
    let a = object(vec![(
        "x",
        Value::Array(vec![object(vec![("n", Value::Number(1))]), Value::Text("t".to_string())]),
    )]);
    let b = a.clone();
    assert_eq!(a, b);
}

#[test]
fn find_key_gives_first_position_or_length() {
    let entries = vec![
        ("a".to_string(), Value::Null),
        ("b".to_string(), Value::Null),
        ("a".to_string(), Value::Null),
    ];
    assert_eq!(find_key(&entries, &"a".to_string()), 0);
    assert_eq!(find_key(&entries, &"b".to_string()), 1);
    assert_eq!(find_key(&entries, &"c".to_string()), 3);
}

#[test]
fn pick_follows_keys_and_positions() {
    let doc = object(vec![(
        "a",
        Value::Array(vec![Value::Number(1), object(vec![("b", Value::Text("t".to_string()))])]),
    )]);
    let p = Idiom(vec![Part::Key("a".to_string()), Part::Index(1), Part::Key("b".to_string())]);
    assert_eq!(doc.pick(&p), Some(&Value::Text("t".to_string())));
    assert_eq!(doc.pick(&Idiom(vec![])), Some(&doc));
    assert_eq!(doc.pick(&Idiom(vec![Part::Key("a".to_string()), Part::Index(2)])), None);
    assert_eq!(doc.pick(&Idiom(vec![Part::Index(0)])), None);
    assert_eq!(doc.pick(&Idiom(vec![Part::Key("a".to_string()), Part::Key("b".to_string())])), None);
}

#[test]
fn path_prefixes() {
    let a = Idiom(vec![Part::Key("a".to_string())]);
    let ab = Idiom(vec![Part::Key("a".to_string()), Part::Index(0)]);
    let b = Idiom(vec![Part::Key("b".to_string()), Part::Index(0)]);
    assert!(ab.starts_with(&a));
    assert!(ab.starts_with(&ab));
    assert!(ab.starts_with(&Idiom(vec![])));
    assert!(!a.starts_with(&ab));
    assert!(!b.starts_with(&a));
    assert_eq!(ab.len(), 2);
    assert!(Part::Index(3).same(&Part::Index(3)));
    assert!(!Part::Index(3).same(&Part::Key("3".to_string())));
}
