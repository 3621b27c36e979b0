use rust_tour::identity::CustomKey;
use rust_tour::key_table::{custom_hash_example, KeyTable};
use std::collections::hash_map::DefaultHasher;
use std::collections::HashMap;
use std::hash::{Hash, Hasher};

fn std_hash_of(key: &CustomKey) -> u64 {
    let mut state = DefaultHasher::new();
    key.hash(&mut state);
    state.finish()
}

#[test]
fn keys_with_one_id_are_equal_whatever_their_names() {
    let first = CustomKey::new(7, "Alice".to_string());
    let second = CustomKey::new(7, "Bob".to_string());
    assert!(first == second);
    assert_eq!(first.hash_value(), second.hash_value());
    assert_eq!(std_hash_of(&first), std_hash_of(&second));
}

#[test]
fn keys_with_different_ids_are_not_equal() {
    let first = CustomKey::new(1, "Alice".to_string());
    let second = CustomKey::new(2, "Alice".to_string());
    assert!(first != second);
    assert_ne!(first.hash_value(), second.hash_value());
}

#[test]
fn new_keeps_both_fields() {
    let key = CustomKey::new(4_000_000_000, "name".to_string());
    assert_eq!(key.id, 4_000_000_000);
    assert_eq!(key.name, "name");
}

#[test]
fn hash_value_is_the_standard_hash_of_the_id_bytes() {
    for id in [0u32, 1, 2, 255, 256, 65_536, 0x0102_0304, u32::MAX] {
        let key = CustomKey::new(id, "x".to_string());
        let mut state = DefaultHasher::new();
        state.write(&id.to_le_bytes());
        assert_eq!(key.hash_value(), state.finish());
        if u32::from_ne_bytes([1, 0, 0, 0]) == 1 {
            assert_eq!(key.hash_value(), std_hash_of(&key));
        }
    }
}

#[test]
fn standard_map_finds_a_key_by_its_id() {
    let mut map = HashMap::new();
    map.insert(CustomKey::new(1, "Alice".to_string()), "value1");
    map.insert(CustomKey::new(2, "Bob".to_string()), "value2");
    let key = CustomKey::new(1, "DifferentName".to_string());
    assert_eq!(map.get(&key), Some(&"value1"));
    assert_eq!(map.get(&CustomKey::new(3, "Alice".to_string())), None);
    assert_eq!(map.insert(CustomKey::new(2, "Carol".to_string()), "value3"), Some("value2"));
    assert_eq!(map.len(), 2);
}

#[test]
fn example_finds_the_first_value() {
    assert_eq!(custom_hash_example(), Some("value1"));
}

#[test]
fn table_is_empty_at_first() {
    let table: KeyTable<i32> = KeyTable::new();
    assert_eq!(table.get(&CustomKey::new(0, String::new())), None);
}

#[test]
fn table_finds_by_id_and_not_by_name() {
    let mut table = KeyTable::new();
    assert_eq!(table.insert(CustomKey::new(1, "Alice".to_string()), 10), None);
    assert_eq!(table.insert(CustomKey::new(2, "Bob".to_string()), 20), None);
    assert_eq!(table.get(&CustomKey::new(1, "Someone".to_string())), Some(&10));
    assert_eq!(table.get(&CustomKey::new(2, "Alice".to_string())), Some(&20));
    assert_eq!(table.get(&CustomKey::new(3, "Alice".to_string())), None);
}

#[test]
fn table_replaces_the_value_of_an_equal_key() {
    let mut table = KeyTable::new();
    assert_eq!(table.insert(CustomKey::new(1, "Alice".to_string()), 10), None);
    assert_eq!(table.insert(CustomKey::new(2, "Bob".to_string()), 20), None);
    assert_eq!(table.insert(CustomKey::new(1, "Other".to_string()), 11), Some(10));
    assert_eq!(table.get(&CustomKey::new(1, String::new())), Some(&11));
    assert_eq!(table.get(&CustomKey::new(2, String::new())), Some(&20));
    assert_eq!(table.insert(CustomKey::new(2, "Bob".to_string()), 21), Some(20));
    assert_eq!(table.insert(CustomKey::new(1, "Alice".to_string()), 12), Some(11));
    assert_eq!(table.get(&CustomKey::new(2, String::new())), Some(&21));
}
