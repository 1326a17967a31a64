use orion_sec::path::ValueGetter;
use orion_sec::sec::{
    NoSecConv, SecConv, SecFrom, SecString, SecValueType,
};
use orion_sec::types::{UniCaseMap, UniString};
use orion_sec::value::{IpValue, ValueObj, ValueType};

/// Whether a tree node's scalar is tagged secret; structural nodes carry no
/// direct flag.
trait SecretCheck {
    fn is_secret(&self) -> bool;
}

impl SecretCheck for SecValueType {
    fn is_secret(&self) -> bool {
        match self {
            SecValueType::String(v) => v.is_secret,
            SecValueType::Bool(v) => v.is_secret,
            SecValueType::Number(v) => v.is_secret,
            SecValueType::Float(v) => v.is_secret,
            SecValueType::Ip(v) => v.is_secret,
            SecValueType::Obj(_) => false,
            SecValueType::List(_) => false,
        }
    }
}

fn key(text: &str) -> UniString {
    UniString::new(text.to_string())
}

#[test]
fn test_sec_value_display() {
    let secret_str = SecString::sec_from("password".to_string());
    assert_eq!(secret_str.display_text(), "***");

    let public_str = SecString::nor_from("username".to_string());
    assert_eq!(public_str.display_text(), "username");
}

#[test]
fn test_obj_get_with_array() {
    let mut obj: UniCaseMap<SecValueType> = UniCaseMap::new();
    let list = vec![
        SecValueType::nor_from(42u64),
        SecValueType::sec_from("secret".to_string()),
    ];
    obj.insert(key("A"), SecValueType::List(list));

    let mut nested_obj: UniCaseMap<SecValueType> = UniCaseMap::new();
    nested_obj.insert(key("rust"), SecValueType::nor_from("awesome".to_string()));
    obj.insert(key("B"), SecValueType::Obj(nested_obj));

    assert_eq!(obj.value_get("A[0]"), Some(SecValueType::nor_from(42u64)));
    assert_eq!(
        obj.value_get("A[1]"),
        Some(SecValueType::sec_from("secret".to_string()))
    );

    assert_eq!(
        obj.value_get("B.rust"),
        Some(SecValueType::nor_from("awesome".to_string()))
    );
    assert_eq!(obj.value_get("B.rust.not_exists"), None);

    assert_eq!(obj.value_get("A[invalid]"), None);
    assert_eq!(obj.value_get("A[2]"), None);
}

#[test]
fn test_obj_get_with_dot_notation() {
    let mut root: UniCaseMap<SecValueType> = UniCaseMap::new();

    let mut nested_c: UniCaseMap<SecValueType> = UniCaseMap::new();
    nested_c.insert(key("c"), SecValueType::nor_from("value_c".to_string()));

    let mut nested_b: UniCaseMap<SecValueType> = UniCaseMap::new();
    nested_b.insert(key("b"), SecValueType::Obj(nested_c.clone()));
    nested_b.insert(key("d"), SecValueType::nor_from(42u64));

    root.insert(key("a"), SecValueType::Obj(nested_b));
    root.insert(key("x"), SecValueType::nor_from("value_x".to_string()));

    assert_eq!(
        root.value_get("x"),
        Some(SecValueType::nor_from("value_x".to_string()))
    );

    if let Some(SecValueType::Obj(map)) = root.value_get("a") {
        assert_eq!(map.value_get("b"), Some(SecValueType::Obj(nested_c)));
    } else {
        panic!("Expected 'a' to be an object");
    }

    assert_eq!(
        root.value_get("a.b.c"),
        Some(SecValueType::nor_from("value_c".to_string()))
    );

    assert_eq!(root.value_get("a.d.c"), None);

    assert_eq!(root.value_get("not_exists"), None);
    assert_eq!(root.value_get("a.not_exists"), None);
    assert_eq!(root.value_get("a.b.not_exists"), None);
}

#[test]
fn test_sec_value_type_conversions() {
    let secret_num = SecValueType::sec_from(42u64);
    assert!(matches!(secret_num, SecValueType::Number(v) if v.is_secret && v.value == 42));

    let public_bool = SecValueType::nor_from(true);
    assert!(matches!(public_bool, SecValueType::Bool(v) if !v.is_secret && v.value));

    let ip = IpValue::V4(192, 168, 1, 1);
    let secret_ip = SecValueType::sec_from(ip);
    assert!(matches!(secret_ip, SecValueType::Ip(v) if v.is_secret));
}

#[test]
fn test_bool_secret_flip() {
    let bool_value = SecValueType::nor_from(true);
    let secret_bool = bool_value.clone().to_sec();
    assert!(matches!(secret_bool, SecValueType::Bool(ref v) if v.is_secret()));

    let public_bool = secret_bool.to_nor();
    assert!(matches!(public_bool, SecValueType::Bool(ref v) if !v.is_secret()));
}

#[test]
fn test_nested_conversions() {
    let mut obj: ValueObj = Vec::new();
    obj.push(("key".to_string(), ValueType::String("value".to_string())));

    let secret_obj = SecValueType::sec_from(obj.clone());
    if let SecValueType::Obj(_map) = secret_obj {
    } else {
        panic!("Expected Obj variant");
    }

    let list = vec![ValueType::Bool(true), ValueType::Number(10)];
    let public_list = SecValueType::nor_from(list.clone());
    if let SecValueType::List(vec) = public_list {
        assert!(!vec[0].is_secret());
    } else {
        panic!("Expected List variant");
    }
}

#[test]
fn test_sec_conv_traits() {
    let values = vec![SecValueType::nor_from(10u64), SecValueType::sec_from(20u64)];

    let secret_values = values.clone().to_sec();
    for val in secret_values {
        assert!(val.is_secret());
    }

    let public_values = values.to_nor();
    for val in public_values {
        assert!(!val.is_secret());
    }
}

#[test]
fn test_no_sec_conv() {
    let secret_str = SecValueType::sec_from("secret".to_string());
    let normal_str: ValueType = secret_str.no_sec();
    assert_eq!(normal_str, ValueType::String("secret".to_string()));

    let mut obj: UniCaseMap<SecValueType> = UniCaseMap::new();
    obj.insert(key("nested"), SecValueType::nor_from(100u64));
    let sec_obj = SecValueType::Obj(obj);

    if let ValueType::Obj(normal_obj) = sec_obj.no_sec() {
        // The core keeps the first-inserted casing; the loader's uppercased
        // export key is found by the same case-insensitive match the map uses.
        let found = normal_obj
            .iter()
            .find(|(k, _)| k.eq_ignore_ascii_case("NESTED"))
            .map(|(_, v)| v);
        assert_eq!(found, Some(&ValueType::Number(100)));
    } else {
        panic!("Expected Obj variant");
    }
}

#[test]
fn test_partial_cmp_mismatched_variants() {
    let number = SecValueType::nor_from(1u64);
    let string = SecValueType::nor_from("one".to_string());
    assert_eq!(number.partial_cmp(&string), None);

    let mut obj: UniCaseMap<SecValueType> = UniCaseMap::new();
    obj.insert(key("nested"), SecValueType::nor_from(2u64));
    let list = vec![SecValueType::nor_from(3u64)];
    assert_eq!(
        SecValueType::Obj(obj).partial_cmp(&SecValueType::List(list)),
        None
    );
}
