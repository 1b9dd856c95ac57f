use prosto_derive::enum_fields::{CodeLookup, ComplexRootProst, SimpleEnumProst};
use prosto_derive::import_map::ImportMap;
use prosto_derive::order::str_lt;
use prosto_derive::string_set::StringSet;

#[test]
fn string_set_keeps_ascending_order_without_repetition() {
    let mut set = StringSet::new();
    assert!(set.insert("pear".to_string()));
    assert!(set.insert("apple".to_string()));
    assert!(set.insert("fig".to_string()));
    assert!(!set.insert("apple".to_string()));
    assert_eq!(set.len(), 3);
    assert!(set.contains("fig"));
    assert!(!set.contains("plum"));
    assert_eq!(set.to_vec(), vec!["apple", "fig", "pear"]);
}

#[test]
fn string_order_is_by_code_point_with_prefixes_first() {
    assert!(str_lt("Type1", "Type2"));
    assert!(!str_lt("Type2", "Type1"));
    assert!(str_lt("ab", "abc"));
    assert!(!str_lt("abc", "ab"));
    assert!(!str_lt("same", "same"));
    assert!(str_lt("", "a"));
    assert!(str_lt("Zeta", "alpha"));
}

#[test]
fn import_map_extends_and_replaces() {
    let mut map = ImportMap::new();
    map.extend("shared".to_string(), &vec!["Foo".to_string(), "Bar".to_string()]);
    map.extend("custom".to_string(), &vec!["Special".to_string()]);
    map.extend("shared".to_string(), &vec!["Foo".to_string(), "Baz".to_string()]);
    assert_eq!(map.packages(), vec!["custom", "shared"]);
    assert_eq!(map.get("shared").unwrap().to_vec(), vec!["Bar", "Baz", "Foo"]);

    let mut replacement = StringSet::new();
    replacement.insert("Only".to_string());
    map.insert("shared".to_string(), replacement);
    assert_eq!(map.get("shared").unwrap().to_vec(), vec!["Only"]);
    assert!(map.get("missing").is_none());
}

#[test]
fn enum_codes_round_trip() {
    for (e, code) in [
        (SimpleEnumProst::Alpha, 0),
        (SimpleEnumProst::Beta, 1),
        (SimpleEnumProst::Gamma, 2),
        (SimpleEnumProst::Delta, 3),
    ] {
        assert_eq!(e.as_i32(), code);
        assert_eq!(SimpleEnumProst::from_i32(code), Some(e));
    }
    assert_eq!(SimpleEnumProst::from_i32(4), None);
    assert_eq!(SimpleEnumProst::from_i32(-1), None);
}

#[test]
fn codes_skip_values_outside_the_enumeration() {
    let mut msg = ComplexRootProst::default();
    msg.codes = vec![2, 7, 0, -3, 3];
    assert_eq!(msg.codes(), vec![SimpleEnumProst::Gamma, SimpleEnumProst::Alpha, SimpleEnumProst::Delta]);
}

#[test]
fn push_codes_appends_the_code() {
    let mut msg = ComplexRootProst::default();
    msg.push_codes(SimpleEnumProst::Beta);
    msg.push_codes(SimpleEnumProst::Delta);
    assert_eq!(msg.codes, vec![1, 3]);
    assert_eq!(msg.codes(), vec![SimpleEnumProst::Beta, SimpleEnumProst::Delta]);
}

#[test]
fn code_lookup_reads_back_what_was_inserted() {
    let mut msg = ComplexRootProst::default();
    assert_eq!(msg.get_code_lookup("a"), None);
    assert_eq!(msg.insert_code_lookup("a".to_string(), SimpleEnumProst::Gamma), None);
    assert_eq!(msg.get_code_lookup("a"), Some(SimpleEnumProst::Gamma));
    assert_eq!(msg.insert_code_lookup("b".to_string(), SimpleEnumProst::Alpha), None);
    assert_eq!(msg.insert_code_lookup("a".to_string(), SimpleEnumProst::Beta), Some(SimpleEnumProst::Gamma));
    assert_eq!(msg.get_code_lookup("a"), Some(SimpleEnumProst::Beta));
    assert_eq!(msg.get_code_lookup("b"), Some(SimpleEnumProst::Alpha));
    assert_eq!(msg.get_code_lookup("c"), None);
}

#[test]
fn code_lookup_hides_invalid_codes() {
    let mut msg = ComplexRootProst::default();
    let mut lookup = CodeLookup::new();
    assert_eq!(lookup.insert("bad".to_string(), 9), None);
    assert_eq!(lookup.insert("good".to_string(), 1), None);
    assert_eq!(lookup.get("bad"), Some(9));
    msg.code_lookup = lookup;
    assert_eq!(msg.get_code_lookup("bad"), None);
    assert_eq!(msg.get_code_lookup("good"), Some(SimpleEnumProst::Beta));
    assert_eq!(msg.insert_code_lookup("bad".to_string(), SimpleEnumProst::Delta), None);
    assert_eq!(msg.get_code_lookup("bad"), Some(SimpleEnumProst::Delta));
}
