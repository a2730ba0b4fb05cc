use rpc_relay::json::{
    empty_arr, empty_obj, member, null, opt_into_json, present, shadowed, without_member,
    Json, JsonNumber,
};

fn num(n: u64) -> Json {
    Json::Number(JsonNumber::PosInt(n))
}

fn members() -> Vec<(String, Json)> {
    vec![
        ("a".to_string(), num(1)),
        ("b".to_string(), Json::Null),
        ("a".to_string(), num(2)),
        ("c".to_string(), Json::Bool(true)),
    ]
}

#[test]
fn the_shorthands_are_the_empty_values() {
    assert_eq!(null(), Json::Null);
    assert_eq!(empty_arr(), Json::Array(vec![]));
    assert_eq!(empty_obj(), Json::Object(vec![]));
}

#[test]
fn only_null_is_null() {
    assert!(Json::Null.is_null());
    assert!(!Json::Bool(false).is_null());
    assert!(!num(0).is_null());
    assert!(!Json::String(String::new()).is_null());
    assert!(!empty_arr().is_null());
    assert!(!empty_obj().is_null());
}

#[test]
fn integers_are_read_within_their_ranges() {
    assert_eq!(num(5).as_u64(), Some(5));
    assert_eq!(num(5).as_i64(), Some(5));
    assert_eq!(num(u64::MAX).as_u64(), Some(u64::MAX));
    assert_eq!(num(u64::MAX).as_i64(), None);
    assert_eq!(num(i64::MAX as u64).as_i64(), Some(i64::MAX));
    assert_eq!(num(i64::MAX as u64 + 1).as_i64(), None);
    assert_eq!(Json::Number(JsonNumber::NegInt(-1)).as_u64(), None);
    assert_eq!(Json::Number(JsonNumber::NegInt(-1)).as_i64(), Some(-1));
    assert_eq!(Json::Number(JsonNumber::NegInt(7)).as_u64(), Some(7));
    assert_eq!(Json::String("5".to_string()).as_u64(), None);
    assert_eq!(Json::Null.as_i64(), None);
}

#[test]
fn the_other_readers_take_their_own_kind_only() {
    assert_eq!(Json::Bool(true).as_bool(), Some(true));
    assert_eq!(num(1).as_bool(), None);
    assert_eq!(Json::String("x".to_string()).as_str(), Some("x"));
    assert_eq!(Json::Null.as_str(), None);
    assert_eq!(Json::Array(vec![num(1)]).as_array(), Some(&vec![num(1)]));
    assert_eq!(empty_obj().as_array(), None);
    assert_eq!(Json::Object(members()).as_object(), Some(&members()));
    assert_eq!(empty_arr().as_object(), None);
}

#[test]
fn member_finds_the_last_of_a_name() {
    let m = members();
    assert_eq!(member(&m, "a"), Some(&num(2)));
    assert_eq!(member(&m, "b"), Some(&Json::Null));
    assert_eq!(member(&m, "c"), Some(&Json::Bool(true)));
    assert_eq!(member(&m, "d"), None);
    assert_eq!(member(&m, ""), None);
}

#[test]
fn present_takes_null_for_missing() {
    let m = members();
    assert_eq!(present(&m, "a"), Some(&num(2)));
    assert_eq!(present(&m, "b"), None);
    assert_eq!(present(&m, "d"), None);
}

#[test]
fn without_member_takes_every_member_of_the_name() {
    let (rest, found) = without_member(members(), "a");
    assert_eq!(found, Some(num(2)));
    assert_eq!(
        rest,
        vec![("b".to_string(), Json::Null), ("c".to_string(), Json::Bool(true))]
    );
    let (rest, found) = without_member(members(), "z");
    assert_eq!(found, None);
    assert_eq!(rest, members());
}

#[test]
fn shadowed_tells_whether_a_later_member_has_the_name() {
    let m = members();
    assert!(shadowed(&m, 0));
    assert!(!shadowed(&m, 1));
    assert!(!shadowed(&m, 2));
    assert!(!shadowed(&m, 3));
}

#[test]
fn a_clone_is_equal_to_what_was_cloned() {
    let v = Json::Object(vec![
        ("list".to_string(), Json::Array(vec![num(1), Json::Null, Json::Object(members())])),
        ("text".to_string(), Json::String("t".to_string())),
        ("neg".to_string(), Json::Number(JsonNumber::NegInt(-4))),
    ]);
    assert_eq!(v.clone(), v);
}

#[test]
fn an_optional_value_that_is_missing_is_null() {
    assert_eq!(opt_into_json(None), Json::Null);
    assert_eq!(opt_into_json(Some(num(3))), num(3));
    assert_eq!(opt_into_json(Some(Json::Null)), Json::Null);
}
