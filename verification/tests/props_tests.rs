use core::cmp::Ordering;

use orion_sec::path::ValueGetter;
use orion_sec::sec::{NoSecConv, SecConv, SecFloat, SecFrom, SecIpAddr, SecU64, SecValue, SecValueType};
use orion_sec::types::{UniCaseMap, UniString};
use orion_sec::value::{FloatBits, IpValue, ValueObj, ValueType};
use orion_sec::{galaxy_dot_path, resolve_home_dir, sec_value_default_path, SecReason};

fn key(text: &str) -> UniString {
    UniString::new(text.to_string())
}

fn sample_plain_tree() -> ValueType {
    let mut inner: ValueObj = Vec::new();
    inner.push(("Port".to_string(), ValueType::Number(8080)));
    inner.push(("Debug".to_string(), ValueType::Bool(false)));
    let list = vec![
        ValueType::String("first".to_string()),
        ValueType::Obj(inner.clone()),
        ValueType::Ip(IpValue::V4(10, 0, 0, 1)),
        ValueType::Float(FloatBits { bits: 2.5f64.to_bits() }),
    ];
    let mut root: ValueObj = Vec::new();
    root.push(("Server".to_string(), ValueType::Obj(inner)));
    root.push(("Items".to_string(), ValueType::List(list)));
    ValueType::Obj(root)
}

#[test]
fn test_round_trip_preserves_plain_tree() {
    let plain = sample_plain_tree();
    let tagged = SecValueType::sec_from(plain.clone());
    assert_eq!(tagged.no_sec(), plain);

    let tagged_normal = SecValueType::nor_from(plain.clone());
    assert_eq!(tagged_normal.no_sec(), plain);
}

#[test]
fn test_retag_idempotent() {
    let tree = SecValueType::nor_from(sample_plain_tree());
    let once = tree.clone().to_sec();
    assert_eq!(once.clone().to_sec(), once);
    let back = once.to_nor();
    assert_eq!(back.clone().to_nor(), back);
}

#[test]
fn test_flip_restores_untagged_tree() {
    let tree = SecValueType::nor_from(sample_plain_tree());
    assert_eq!(tree.clone().to_sec().to_nor(), tree);
}

#[test]
fn test_case_insensitive_map() {
    let mut map: UniCaseMap<u64> = UniCaseMap::new();
    assert!(map.is_empty());
    assert_eq!(map.insert(key("Key"), 1), None);
    assert_eq!(map.get("KEY"), Some(&1));
    assert_eq!(map.get("key"), Some(&1));
    assert!(map.contains("kEY"));

    assert_eq!(map.insert(key("kEy"), 2), Some(1));
    assert_eq!(map.len(), 1);
    assert_eq!(map.get("KEY"), Some(&2));
    let (stored, value) = map.get_index(0);
    assert_eq!(stored.as_str(), "Key");
    assert_eq!(*value, 2);
}

#[test]
fn test_unicode_case_folding() {
    // Keys fold by Unicode uppercasing, not byte-wise: the sharp s folds to
    // a double S.
    let mut map: UniCaseMap<u64> = UniCaseMap::new();
    map.insert(key("straße"), 1);
    assert_eq!(map.get("STRASSE"), Some(&1));
    assert_eq!(map.get("Straße"), Some(&1));
    assert_eq!(map.get("strasse"), Some(&1));
    assert_eq!(map.get("strass"), None);
}

#[test]
fn test_map_insert_order_and_remove() {
    let mut map: UniCaseMap<u64> = UniCaseMap::new();
    map.insert(key("alpha"), 1);
    map.insert(key("Beta"), 2);
    map.insert(key("gamma"), 3);
    map.insert(key("BETA"), 20);
    assert_eq!(map.len(), 3);
    assert_eq!(map.get_index(1).0.as_str(), "Beta");
    assert_eq!(*map.get_index(1).1, 20);

    assert_eq!(map.remove("beta"), Some(20));
    assert_eq!(map.len(), 2);
    assert_eq!(map.get_index(0).0.as_str(), "alpha");
    assert_eq!(map.get_index(1).0.as_str(), "gamma");
    assert_eq!(map.remove("beta"), None);
}

#[test]
fn test_display_masks_every_scalar_kind() {
    assert_eq!(SecU64::sec_from(7).display_text(), "***");
    assert_eq!(SecU64::nor_from(7).display_text(), "7");
    assert_eq!(SecU64::nor_from(0).display_text(), "0");
    assert_eq!(SecU64::nor_from(1234567890).display_text(), "1234567890");

    assert_eq!(SecValue::sec_from(true).display_text(), "***");
    assert_eq!(SecValue::nor_from(true).display_text(), "true");
    assert_eq!(SecValue::nor_from(false).display_text(), "false");

    let ip = IpValue::V4(192, 168, 1, 1);
    assert_eq!(SecIpAddr::sec_from(ip).display_text(), "***");
    assert_eq!(SecIpAddr::nor_from(ip).display_text(), "192.168.1.1");

    let ip6 = IpValue::V6(0x2001, 0xdb8, 0, 0, 0, 0, 0, 1);
    assert_eq!(SecIpAddr::nor_from(ip6).display_text(), "2001:db8:0:0:0:0:0:1");
}

#[test]
fn test_tree_display_text() {
    let secret_float = SecValueType::Float(SecFloat::sec_from(FloatBits {
        bits: 1.25f64.to_bits(),
    }));
    assert_eq!(secret_float.display_text(), Some("***".to_string()));

    let normal_float = SecValueType::Float(SecFloat::nor_from(FloatBits {
        bits: 1.25f64.to_bits(),
    }));
    assert_eq!(normal_float.display_text(), None);

    let number = SecValueType::nor_from(42u64);
    assert_eq!(number.display_text(), Some("42".to_string()));

    let obj = SecValueType::Obj(UniCaseMap::new());
    assert_eq!(obj.display_text(), None);
}

#[test]
fn test_ordering_ignores_tags() {
    let a = SecValueType::sec_from(1u64);
    let b = SecValueType::nor_from(2u64);
    assert_eq!(a.partial_cmp(&b), Some(Ordering::Less));
    assert_eq!(b.partial_cmp(&a), Some(Ordering::Greater));
    assert_eq!(
        SecValueType::sec_from(5u64).partial_cmp(&SecValueType::nor_from(5u64)),
        Some(Ordering::Equal)
    );

    let s1 = SecValueType::sec_from("apple".to_string());
    let s2 = SecValueType::nor_from("banana".to_string());
    assert_eq!(s1.partial_cmp(&s2), Some(Ordering::Less));

    assert_eq!(
        SecValueType::nor_from(false).partial_cmp(&SecValueType::sec_from(true)),
        Some(Ordering::Less)
    );

    let v4 = SecValueType::nor_from(IpValue::V4(10, 0, 0, 1));
    let v6 = SecValueType::nor_from(IpValue::V6(0, 0, 0, 0, 0, 0, 0, 1));
    assert_eq!(v4.partial_cmp(&v6), Some(Ordering::Less));
}

#[test]
fn test_float_ordering_matches_ieee() {
    let cases: [(f64, f64); 6] = [
        (1.5, 2.5),
        (-1.5, 1.5),
        (-0.0, 0.0),
        (f64::NEG_INFINITY, -1.0e308),
        (1.0e308, f64::INFINITY),
        (-2.5, -1.5),
    ];
    for (x, y) in cases {
        let a = SecFloat::sec_from(FloatBits { bits: x.to_bits() });
        let b = SecFloat::nor_from(FloatBits { bits: y.to_bits() });
        assert_eq!(a.partial_cmp(&b), x.partial_cmp(&y), "compare {x} with {y}");
    }

    let nan = SecFloat::nor_from(FloatBits { bits: f64::NAN.to_bits() });
    let one = SecFloat::nor_from(FloatBits { bits: 1.0f64.to_bits() });
    assert_eq!(nan.partial_cmp(&one), None);
    assert_eq!(one.partial_cmp(&nan), None);
}

#[test]
fn test_path_index_edge_cases() {
    let mut obj: UniCaseMap<SecValueType> = UniCaseMap::new();
    let list = vec![
        SecValueType::nor_from(0u64),
        SecValueType::nor_from(1u64),
        SecValueType::nor_from(2u64),
    ];
    obj.insert(key("xs"), SecValueType::List(list));

    // Leading zeros are plain decimal.
    assert_eq!(obj.value_get("xs[01]"), Some(SecValueType::nor_from(1u64)));
    // A missing closing bracket, an empty index and a huge index all miss.
    assert_eq!(obj.value_get("xs[1"), None);
    assert_eq!(obj.value_get("xs[]"), None);
    assert_eq!(obj.value_get("xs[99999999999999999999999999]"), None);
    // Keys are matched case-insensitively in indexed segments too.
    assert_eq!(obj.value_get("XS[2]"), Some(SecValueType::nor_from(2u64)));
    // Indexing a non-list misses.
    let mut obj2: UniCaseMap<SecValueType> = UniCaseMap::new();
    obj2.insert(key("n"), SecValueType::nor_from(5u64));
    assert_eq!(obj2.value_get("n[0]"), None);
}

#[test]
fn test_round_trip_keeps_case_colliding_keys() {
    // Two keys that fold to the same key stay two distinct entries of the
    // plain tree through tagging and stripping.
    let mut root: ValueObj = Vec::new();
    root.push(("user".to_string(), ValueType::Number(1)));
    root.push(("User".to_string(), ValueType::Number(2)));
    let plain = ValueType::Obj(root);
    assert_eq!(SecValueType::sec_from(plain.clone()).no_sec(), plain);
}

#[test]
fn test_empty_lookups() {
    let empty: UniCaseMap<SecValueType> = UniCaseMap::new();
    assert_eq!(empty.value_get("anything"), None);
    assert_eq!(empty.value_get(""), None);

    let mut obj: UniCaseMap<SecValueType> = UniCaseMap::new();
    obj.insert(key("a"), SecValueType::nor_from(1u64));
    assert_eq!(obj.value_get(""), None);

    // A key that is literally the empty string is reachable.
    let mut weird: UniCaseMap<SecValueType> = UniCaseMap::new();
    weird.insert(key(""), SecValueType::nor_from(7u64));
    assert_eq!(weird.value_get(""), Some(SecValueType::nor_from(7u64)));
}

#[test]
fn test_load_path_helpers() {
    assert_eq!(galaxy_dot_path(Some("/home/me")), "/home/me/.galaxy");
    assert_eq!(galaxy_dot_path(None), "./");
    assert_eq!(
        sec_value_default_path(Some("/home/me")),
        "/home/me/.galaxy/sec_value.yml"
    );
    assert_eq!(sec_value_default_path(None), ".//sec_value.yml");

    assert_eq!(
        resolve_home_dir(Some("/h".into()), Some("/u".into()), None, None),
        Some("/h".to_string())
    );
    assert_eq!(
        resolve_home_dir(None, Some("/u".into()), None, None),
        Some("/u".to_string())
    );
    assert_eq!(
        resolve_home_dir(None, None, Some("C:".into()), Some("\\Users\\me".into())),
        Some("C:\\Users\\me".to_string())
    );
    assert_eq!(resolve_home_dir(None, None, Some("C:".into()), None), None);
    assert_eq!(resolve_home_dir(None, None, None, None), None);
}

#[test]
fn test_sec_reason_message() {
    let reason = SecReason::SensitiveMsg("leak".to_string());
    assert_eq!(reason.message(), "sensivive msg leak");
}

#[test]
fn test_scalar_getters() {
    let v = SecU64::sec_from(9);
    assert!(v.is_secret());
    assert_eq!(*v.value(), 9);
    let w = SecU64::nor_from(9);
    assert!(!w.is_secret());
    assert_eq!(*w.value(), 9);
}
