use gossip_node::json::{copy_fields, distinct, get, position, put, take, Fields, Json};

fn entry(key: &str, value: Json) -> (String, Json) {
    (key.to_string(), value)
}

fn sample() -> Fields {
    vec![
        entry("a", Json::Int(1)),
        entry("b", Json::Text("two".to_string())),
        entry("a", Json::Int(3)),
    ]
}

#[test]
fn as_i64_takes_the_whole_signed_range_and_no_more() {
    assert_eq!(Json::Int(0).as_i64(), Some(0));
    assert_eq!(Json::Int(-7).as_i64(), Some(-7));
    assert_eq!(Json::Int(i64::MAX as i128).as_i64(), Some(i64::MAX));
    assert_eq!(Json::Int(i64::MIN as i128).as_i64(), Some(i64::MIN));
    assert_eq!(Json::Int(i64::MAX as i128 + 1).as_i64(), None);
    assert_eq!(Json::Int(i64::MIN as i128 - 1).as_i64(), None);
    assert_eq!(Json::Text("5".to_string()).as_i64(), None);
    assert_eq!(Json::Real("5.0".to_string()).as_i64(), None);
    assert_eq!(Json::Null.as_i64(), None);
    assert_eq!(Json::Bool(true).as_i64(), None);
}

#[test]
fn as_u64_takes_the_whole_unsigned_range_and_no_more() {
    assert_eq!(Json::Int(0).as_u64(), Some(0));
    assert_eq!(Json::Int(u64::MAX as i128).as_u64(), Some(u64::MAX));
    assert_eq!(Json::Int(u64::MAX as i128 + 1).as_u64(), None);
    assert_eq!(Json::Int(-1).as_u64(), None);
    assert_eq!(Json::Array(vec![]).as_u64(), None);
}

#[test]
fn as_text_array_and_object_tell_the_variants_apart() {
    let text = Json::Text("n0".to_string());
    let array = Json::Array(vec![Json::Int(1)]);
    let object = Json::Object(sample());
    assert_eq!(text.as_text(), Some(&"n0".to_string()));
    assert_eq!(array.as_text(), None);
    assert_eq!(array.as_array(), Some(&vec![Json::Int(1)]));
    assert_eq!(object.as_array(), None);
    assert_eq!(object.as_object(), Some(&sample()));
    assert_eq!(text.as_object(), None);
}

#[test]
fn from_ints_and_as_ints_are_inverse() {
    let values = vec![3, -1, i64::MAX, i64::MIN, 3];
    let json = Json::from_ints(&values);
    assert_eq!(
        json,
        Json::Array(vec![
            Json::Int(3),
            Json::Int(-1),
            Json::Int(i64::MAX as i128),
            Json::Int(i64::MIN as i128),
            Json::Int(3),
        ])
    );
    assert_eq!(json.as_ints(), Some(values));
    assert_eq!(Json::from_ints(&vec![]), Json::Array(vec![]));
    assert_eq!(Json::Array(vec![]).as_ints(), Some(vec![]));
}

#[test]
fn as_ints_wants_an_array_of_integers() {
    assert_eq!(Json::Int(1).as_ints(), None);
    assert_eq!(Json::Array(vec![Json::Int(1), Json::Text("2".to_string())]).as_ints(), None);
    assert_eq!(Json::Array(vec![Json::Int(1), Json::Int(u64::MAX as i128)]).as_ints(), None);
    assert_eq!(Json::Array(vec![Json::Real("1.5".to_string())]).as_ints(), None);
}

#[test]
fn as_texts_wants_an_array_of_strings() {
    let names = Json::Array(vec![Json::Text("n1".to_string()), Json::Text("n2".to_string())]);
    assert_eq!(names.as_texts(), Some(vec!["n1".to_string(), "n2".to_string()]));
    assert_eq!(Json::Array(vec![]).as_texts(), Some(vec![]));
    assert_eq!(Json::Array(vec![Json::Text("n1".to_string()), Json::Int(2)]).as_texts(), None);
    assert_eq!(Json::Text("n1".to_string()).as_texts(), None);
}

#[test]
fn position_and_get_find_the_first_entry() {
    let fields = sample();
    assert_eq!(position(&fields, "a"), Some(0));
    assert_eq!(position(&fields, "b"), Some(1));
    assert_eq!(position(&fields, "c"), None);
    assert_eq!(get(&fields, "a"), Some(&Json::Int(1)));
    assert_eq!(get(&fields, "b"), Some(&Json::Text("two".to_string())));
    assert_eq!(get(&fields, "c"), None);
    assert_eq!(get(&vec![], "a"), None);
}

#[test]
fn put_replaces_in_place_or_appends() {
    let mut fields = sample();
    put(&mut fields, "a", Json::Null);
    assert_eq!(
        fields,
        vec![
            entry("a", Json::Null),
            entry("b", Json::Text("two".to_string())),
            entry("a", Json::Int(3)),
        ]
    );
    put(&mut fields, "c", Json::Bool(false));
    assert_eq!(fields.len(), 4);
    assert_eq!(fields[3], entry("c", Json::Bool(false)));
    let mut empty: Fields = vec![];
    put(&mut empty, "k", Json::Int(9));
    assert_eq!(empty, vec![entry("k", Json::Int(9))]);
}

#[test]
fn take_removes_the_first_entry_only() {
    let mut fields = sample();
    assert_eq!(take(&mut fields, "a"), Some(Json::Int(1)));
    assert_eq!(fields, vec![entry("b", Json::Text("two".to_string())), entry("a", Json::Int(3))]);
    assert_eq!(take(&mut fields, "zz"), None);
    assert_eq!(fields.len(), 2);
    assert_eq!(take(&mut fields, "a"), Some(Json::Int(3)));
    assert_eq!(take(&mut fields, "a"), None);
}

#[test]
fn clone_copies_the_whole_tree() {
    let value = Json::Object(vec![
        entry("list", Json::Array(vec![Json::Int(1), Json::Object(sample()), Json::Null])),
        entry("real", Json::Real("2.5".to_string())),
        entry("flag", Json::Bool(true)),
    ]);
    assert_eq!(value.clone(), value);
    assert_eq!(copy_fields(&sample()), sample());
}

#[test]
fn distinct_tells_whether_a_name_is_repeated() {
    assert!(distinct(&vec![]));
    assert!(distinct(&vec![entry("a", Json::Null)]));
    assert!(distinct(&vec![entry("a", Json::Null), entry("b", Json::Null), entry("", Json::Null)]));
    assert!(!distinct(&sample()));
    assert!(!distinct(&vec![entry("a", Json::Null), entry("b", Json::Null), entry("b", Json::Int(1))]));
}

#[test]
fn names_apart_looks_at_every_depth() {
    assert!(Json::Null.names_apart());
    assert!(Json::Int(1).names_apart());
    assert!(Json::Array(vec![]).names_apart());
    assert!(Json::Object(vec![]).names_apart());
    assert!(!Json::Object(sample()).names_apart());
    assert!(!Json::Array(vec![Json::Int(1), Json::Object(sample())]).names_apart());
    assert!(!Json::Object(vec![entry("x", Json::Array(vec![Json::Object(sample())]))]).names_apart());
    let same_name_in_two_objects = Json::Array(vec![
        Json::Object(vec![entry("a", Json::Int(1))]),
        Json::Object(vec![entry("a", Json::Object(vec![entry("a", Json::Int(2))]))]),
    ]);
    assert!(same_name_in_two_objects.names_apart());
}
