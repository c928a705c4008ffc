use destiny::explore;
use destiny::explore::classify;
use destiny::runtime::normalize;
use destiny::table::Table;

#[test]
fn normalize_hash() {
    assert_eq!(normalize("80800184"), "0x80800184");
}

#[test]
fn hash_normalization() {
    assert_eq!(explore::normalize_hash("80800184"), "0x80800184");
    assert_eq!(explore::normalize_hash("0x80800184"), "0x80800184");
}

#[test]
fn normalization_trims_and_lowercases() {
    assert_eq!(normalize("  0X8080ABCD \n"), "0x8080abcd");
    assert_eq!(normalize("\u{3000}AbC\t"), "0xabc");
    assert_eq!(normalize(""), "0x");
    assert_eq!(normalize("0x0x1"), "0x0x1");
}

#[test]
fn classification_uses_path() {
    assert_eq!(classify("/weapons/foo", &vec![]), "weapon");
}

#[test]
fn classification_order_and_values() {
    assert_eq!(classify("/x", &vec![None, Some("The Vendor's ARMOR".into())]), "armor");
    assert_eq!(classify("/ITEMS", &vec![Some("quest".into())]), "quest");
    assert_eq!(classify("/misc", &vec![Some("nothing here".into()), None]), "unknown");
    assert_eq!(classify("/items/", &vec![]), "item");
}

#[test]
fn cache_reads_back_writes() {
    let mut t: Table<u32> = Table::new();
    t.insert("a".to_string(), 1);
    t.insert("b".to_string(), 2);
    t.insert("a".to_string(), 3);
    assert_eq!(t.get(&"a".to_string()), Some(&3));
    assert_eq!(t.get(&"b".to_string()), Some(&2));
    assert_eq!(t.len(), 2);
    assert_eq!(t.remove(&"a".to_string()), Some(3));
    assert_eq!(t.get(&"a".to_string()), None);
    assert_eq!(t.remove(&"a".to_string()), None);
    if let Some(v) = t.get_mut(&"b".to_string()) {
        *v = 5;
    }
    assert_eq!(t.get(&"b".to_string()), Some(&5));
}

#[test]
fn normalizing_twice_is_normalizing_once() {
    for v in ["80800184", "  0X8080ABCD \n", "", "0x", " Tag ", "0x0x1"] {
        let once = normalize(v);
        assert_eq!(normalize(&once), once);
        assert!(once.starts_with("0x"));
        assert!(!once.chars().any(|c| c.is_ascii_uppercase()));
    }
}
