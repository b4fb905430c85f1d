use source_cli::json::{flatten_json, JsonValue};
use source_cli::sort::sort_rows;

fn leaf(text: &str) -> JsonValue {
    JsonValue::Leaf(text.to_string())
}

fn obj(members: Vec<(&str, JsonValue)>) -> JsonValue {
    JsonValue::Object(members.into_iter().map(|(k, v)| (k.to_string(), v)).collect())
}

fn flattened_rows(value: JsonValue) -> Vec<(String, String)> {
    flatten_json(value)
        .into_iter()
        .map(|(path, value)| match value {
            JsonValue::Leaf(text) => (path, text),
            JsonValue::Object(_) => panic!("an object survived flattening"),
        })
        .collect()
}

#[test]
fn empty_object_flattens_to_nothing() {
    let entries = flatten_json(obj(vec![]));
    assert_eq!(entries.len(), 0);
}

#[test]
fn scalar_flattens_to_one_entry_with_empty_path() {
    let entries = flatten_json(leaf("42"));
    assert_eq!(entries, vec![(String::new(), leaf("42"))]);
}

#[test]
fn array_is_a_leaf_not_expanded() {
    let entries = flatten_json(obj(vec![("items", leaf("[1,2,3]"))]));
    assert_eq!(entries, vec![("items".to_string(), leaf("[1,2,3]"))]);
}

#[test]
fn one_entry_per_leaf_in_nested_objects() {
    let value = obj(vec![
        ("a", obj(vec![("b", leaf("1")), ("c", leaf("2"))])),
        ("d", leaf("3")),
    ]);
    let mut paths: Vec<String> = flatten_json(value).into_iter().map(|(p, _)| p).collect();
    paths.sort();
    assert_eq!(paths, vec!["a.b".to_string(), "a.c".to_string(), "d".to_string()]);
}

#[test]
fn example_params_flatten_and_sort() {
    let params = obj(vec![
        ("topic", leaf("t1")),
        ("auth", obj(vec![("user", leaf("bob")), ("token", leaf("x"))])),
    ]);
    let rows = sort_rows(flattened_rows(params));
    assert_eq!(
        rows,
        vec![
            ("auth.token".to_string(), "x".to_string()),
            ("auth.user".to_string(), "bob".to_string()),
            ("topic".to_string(), "t1".to_string()),
        ]
    );
}

#[test]
fn sorting_is_idempotent() {
    let rows = vec![
        ("b".to_string(), "2".to_string()),
        ("a".to_string(), "1".to_string()),
        ("c".to_string(), "3".to_string()),
    ];
    let once = sort_rows(rows);
    let twice = sort_rows(once.clone());
    assert_eq!(twice, once);
}

#[test]
fn deeply_nested_paths_are_dotted() {
    let value = obj(vec![("a", obj(vec![("b", obj(vec![("c", leaf("deep"))]))]))]);
    let rows = flattened_rows(value);
    assert_eq!(rows, vec![("a.b.c".to_string(), "deep".to_string())]);
}

#[test]
fn keys_order_bytewise_over_utf8() {
    let rows = vec![
        ("é".to_string(), "accented".to_string()),
        ("z".to_string(), "plain".to_string()),
    ];
    let sorted = sort_rows(rows);
    assert_eq!(
        sorted,
        vec![
            ("z".to_string(), "plain".to_string()),
            ("é".to_string(), "accented".to_string()),
        ]
    );
}
