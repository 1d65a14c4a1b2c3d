use onnx_ir_core::metadata::MetadataStore;

#[test]
fn test_metadata_store_basic() {
    let mut meta = MetadataStore::new();

    meta.insert("x", 42i32);
    assert_eq!(meta.get::<i32>("x"), Some(&42));
    assert!(meta.is_valid("x"));

    meta.insert("y", "hello".to_string());
    assert_eq!(meta.get::<String>("y"), Some(&"hello".to_string()));
}

#[test]
fn test_metadata_store_invalidate() {
    let mut meta = MetadataStore::new();

    meta.insert("shape", vec![1, 2, 3]);
    assert!(meta.is_valid("shape"));

    meta.invalidate("shape");
    assert!(!meta.is_valid("shape"));
    assert!(meta.contains_key("shape"));

    meta.insert("shape", vec![4, 5, 6]);
    assert!(meta.is_valid("shape"));
}

#[test]
fn test_metadata_store_type_mismatch() {
    let mut meta = MetadataStore::new();

    meta.insert("x", 42i32);
    assert_eq!(meta.get::<i64>("x"), None);
}

#[test]
fn test_metadata_store_remove() {
    let mut meta = MetadataStore::new();

    meta.insert("x", 42i32);
    meta.invalidate("x");

    let value = meta.remove::<i32>("x");
    assert_eq!(value, Some(42));
    assert!(!meta.contains_key("x"));
    assert!(!meta.is_valid("x"));
}

#[test]
fn test_metadata_store_clear() {
    let mut meta = MetadataStore::new();

    meta.insert("x", 42);
    meta.insert("y", 43);
    meta.invalidate("x");

    meta.clear();
    assert!(meta.is_empty());
    assert_eq!(meta.len(), 0);
}

#[test]
fn stale_value_stays_readable_until_stored_again() {
    let mut meta = MetadataStore::new();
    meta.insert("k", 1i64);
    assert!(meta.is_valid("k"));
    meta.invalidate("k");
    assert!(!meta.is_valid("k"));
    assert_eq!(meta.get::<i64>("k"), Some(&1));
    meta.insert("k", 2i64);
    assert!(meta.is_valid("k"));
    assert_eq!(meta.get::<i64>("k"), Some(&2));
    assert_eq!(meta.len(), 1);
}

#[test]
fn invalidating_an_absent_key_marks_it_until_stored() {
    let mut meta = MetadataStore::new();
    meta.invalidate("later");
    assert!(!meta.is_valid("later"));
    assert!(!meta.contains_key("later"));
    meta.insert("later", true);
    assert!(meta.is_valid("later"));
}

#[test]
fn removal_with_the_wrong_type_keeps_the_entry() {
    let mut meta = MetadataStore::new();
    meta.insert("x", 5u64);
    meta.insert("y", 6usize);
    meta.invalidate("x");
    assert_eq!(meta.remove::<i32>("x"), None);
    assert!(meta.contains_key("x"));
    assert!(!meta.is_valid("x"));
    assert_eq!(meta.get::<u64>("x"), Some(&5));
    assert_eq!(meta.remove::<usize>("missing"), None);
    assert_eq!(meta.remove::<u64>("x"), Some(5));
    assert_eq!(meta.keys(), vec!["y".to_string()]);
}

#[test]
fn values_can_be_changed_in_place() {
    let mut meta = MetadataStore::new();
    meta.insert("count", 1u64);
    meta.invalidate("count");
    if let Some(c) = meta.get_mut::<u64>("count") {
        *c += 41;
    }
    assert_eq!(meta.get::<u64>("count"), Some(&42));
    assert!(!meta.is_valid("count"));
    assert!(meta.get_mut::<i32>("count").is_none());
    assert!(meta.get_mut::<u64>("missing").is_none());
}
