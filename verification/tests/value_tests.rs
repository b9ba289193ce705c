use tbd_cfg::value::{merge_variables, obj_get, Value};

fn obj(entries: Vec<(&str, Value)>) -> Value {
    Value::Obj(entries.into_iter().map(|(k, v)| (k.to_string(), v)).collect())
}

fn get<'a>(v: &'a Value, key: &str) -> Option<&'a Value> {
    v.get(&key.to_string())
}

#[test]
fn test_merge_precedence() {
    // file-defined {"a":1,"b":2}, extras {"b":3,"c":4} -> {"a":1,"b":3,"c":4}
    let base = obj(vec![("a", Value::Int(1)), ("b", Value::Int(2))]);
    let extra = obj(vec![("b", Value::Int(3)), ("c", Value::Int(4))]);
    let merged = merge_variables(base, extra);
    assert_eq!(get(&merged, "a"), Some(&Value::Int(1)));
    assert_eq!(get(&merged, "b"), Some(&Value::Int(3)));
    assert_eq!(get(&merged, "c"), Some(&Value::Int(4)));
    match &merged {
        Value::Obj(entries) => assert_eq!(entries.len(), 3),
        _ => panic!("merge of two objects must be an object"),
    }
}

#[test]
fn test_merge_replaces_nested_whole() {
    // nested structures are replaced at the top level, not deep-merged
    let base = obj(vec![("n", obj(vec![("x", Value::Int(1)), ("y", Value::Int(2))]))]);
    let extra = obj(vec![("n", obj(vec![("x", Value::Int(9))]))]);
    let merged = merge_variables(base, extra);
    assert_eq!(get(&merged, "n"), Some(&obj(vec![("x", Value::Int(9))])));
}

#[test]
fn test_merge_keeps_non_object_base() {
    let base = Value::Text("opaque".to_string());
    let extra = obj(vec![("a", Value::Int(1))]);
    let merged = merge_variables(base, extra);
    assert_eq!(merged, Value::Text("opaque".to_string()));
}

#[test]
fn test_merge_with_empty_extra() {
    let base = obj(vec![("a", Value::Int(1))]);
    let merged = merge_variables(base, Value::empty_object());
    assert_eq!(get(&merged, "a"), Some(&Value::Int(1)));
}

#[test]
fn test_clone_is_deep() {
    let v = obj(vec![
        ("s", Value::Text("hello".to_string())),
        ("arr", Value::Arr(vec![Value::Bool(true), Value::Null])),
        ("nested", obj(vec![("k", Value::Int(7))])),
    ]);
    let c = v.clone();
    assert_eq!(c, v);
}

#[test]
fn test_obj_get_first_match_and_absent() {
    let entries: Vec<(String, Value)> =
        vec![("a".to_string(), Value::Int(1)), ("b".to_string(), Value::Int(2))];
    assert_eq!(obj_get(&entries, &"b".to_string()), Some(&Value::Int(2)));
    assert_eq!(obj_get(&entries, &"z".to_string()), None);
    // non-objects hold no keys
    assert_eq!(Value::Int(3).get(&"a".to_string()), None);
}
