use core::cmp::Ordering;
use inventory_store::{
    compare_bytes, upsert_statements, DuplicateMode, InventoryItem, InventoryStore, SqlValue,
    INSERT_SKIP_SQL, UPSERT_OVERWRITE_SQL,
};

fn item(sku: &str, name: &str, size_s: i64) -> InventoryItem {
    InventoryItem {
        seller_sku: sku.to_string(),
        product_name: name.to_string(),
        category: "Tops".to_string(),
        status: "active".to_string(),
        size_s,
        size_m: 0,
        size_l: 0,
        size_xl: 0,
        size_xxl: 0,
        size_xxxl: 0,
        size_one_size: 0,
        recommended_listing_price: 0,
        nett_receive_zalora: 0,
        nett_receive_shopee: 0,
    }
}

fn full_item(sku: &str, base: i64) -> InventoryItem {
    InventoryItem {
        seller_sku: sku.to_string(),
        product_name: format!("name {}", base),
        category: format!("category {}", base),
        status: format!("status {}", base),
        size_s: base + 1,
        size_m: base + 2,
        size_l: base + 3,
        size_xl: base + 4,
        size_xxl: base + 5,
        size_xxxl: base + 6,
        size_one_size: base + 7,
        recommended_listing_price: base + 8,
        nett_receive_zalora: base + 9,
        nett_receive_shopee: base + 10,
    }
}

fn skus(rows: &[InventoryItem]) -> Vec<String> {
    rows.iter().map(|r| r.seller_sku.clone()).collect()
}

#[test]
fn overwrite_example_updates_name_and_size() {
    let mut store = InventoryStore::new();
    store.upsert_items(&vec![item("A1", "Shirt", 5)], DuplicateMode::Overwrite);
    store.upsert_items(&vec![item("A1", "Shirt-V2", 10)], DuplicateMode::Overwrite);
    let rows = store.list_items();
    assert_eq!(rows.len(), 1);
    assert_eq!(rows[0].seller_sku, "A1");
    assert_eq!(rows[0].product_name, "Shirt-V2");
    assert_eq!(rows[0].size_s, 10);
}

#[test]
fn new_sku_is_listed_unchanged() {
    for mode in [DuplicateMode::Overwrite, DuplicateMode::Skip] {
        let mut store = InventoryStore::new();
        store.upsert_items(&vec![full_item("M2", 0)], mode);
        let fresh = full_item("K9", 100);
        store.upsert_items(&vec![fresh.clone()], mode);
        let rows = store.list_items();
        assert_eq!(rows, vec![fresh, full_item("M2", 0)]);
    }
}

#[test]
fn overwrite_replaces_every_field() {
    let mut store = InventoryStore::new();
    store.upsert_items(&vec![full_item("X1", 0), full_item("X2", 50)], DuplicateMode::Overwrite);
    store.upsert_items(&vec![full_item("X1", 1000)], DuplicateMode::Overwrite);
    assert_eq!(store.list_items(), vec![full_item("X1", 1000), full_item("X2", 50)]);
}

#[test]
fn skip_keeps_stored_row() {
    let mut store = InventoryStore::new();
    store.upsert_items(&vec![full_item("X1", 0), full_item("X2", 50)], DuplicateMode::Overwrite);
    let before = store.list_items();
    store.upsert_items(&vec![full_item("X1", 1000)], DuplicateMode::Skip);
    assert_eq!(store.list_items(), before);
}

#[test]
fn skip_inserts_new_sku_in_mixed_batch() {
    let mut store = InventoryStore::new();
    store.upsert_items(&vec![full_item("X1", 0)], DuplicateMode::Overwrite);
    store.upsert_items(&vec![full_item("X1", 7), full_item("X0", 3)], DuplicateMode::Skip);
    assert_eq!(store.list_items(), vec![full_item("X0", 3), full_item("X1", 0)]);
}

#[test]
fn listing_is_sorted_for_any_insertion_order() {
    let orders: [[&str; 4]; 3] = [["b", "a", "d", "c"], ["d", "c", "b", "a"], ["a", "b", "c", "d"]];
    for order in orders {
        let mut store = InventoryStore::new();
        for sku in order {
            store.upsert_items(&vec![item(sku, "p", 1)], DuplicateMode::Skip);
        }
        assert_eq!(skus(&store.list_items()), vec!["a", "b", "c", "d"]);
    }
}

#[test]
fn listing_uses_byte_order() {
    let mut store = InventoryStore::new();
    let batch = vec![item("ab", "p", 0), item("\u{e9}", "p", 0), item("a", "p", 0), item("B", "p", 0), item("z", "p", 0)];
    store.upsert_items(&batch, DuplicateMode::Overwrite);
    assert_eq!(skus(&store.list_items()), vec!["B", "a", "ab", "z", "\u{e9}"]);
}

#[test]
fn batch_overwrite_last_duplicate_wins() {
    let mut store = InventoryStore::new();
    let batch = vec![full_item("D1", 0), full_item("D2", 10), full_item("D1", 20)];
    store.upsert_items(&batch, DuplicateMode::Overwrite);
    assert_eq!(store.list_items(), vec![full_item("D1", 20), full_item("D2", 10)]);
}

#[test]
fn batch_skip_first_duplicate_wins() {
    let mut store = InventoryStore::new();
    let batch = vec![full_item("D1", 0), full_item("D2", 10), full_item("D1", 20)];
    store.upsert_items(&batch, DuplicateMode::Skip);
    assert_eq!(store.list_items(), vec![full_item("D1", 0), full_item("D2", 10)]);
}

#[test]
fn empty_store_and_empty_batch() {
    let mut store = InventoryStore::new();
    assert!(store.list_items().is_empty());
    store.upsert_items(&Vec::new(), DuplicateMode::Overwrite);
    assert!(store.list_items().is_empty());
    store.upsert_items(&vec![item("A", "p", 1)], DuplicateMode::Overwrite);
    store.upsert_items(&Vec::new(), DuplicateMode::Skip);
    assert_eq!(store.list_items(), vec![item("A", "p", 1)]);
}

#[test]
fn empty_sku_sorts_first() {
    let mut store = InventoryStore::new();
    store.upsert_items(&vec![item("a", "p", 0), item("", "q", 0)], DuplicateMode::Overwrite);
    assert_eq!(skus(&store.list_items()), vec!["", "a"]);
}

#[test]
fn duplicate_mode_names() {
    assert_eq!(DuplicateMode::from_name("overwrite"), Some(DuplicateMode::Overwrite));
    assert_eq!(DuplicateMode::from_name("skip"), Some(DuplicateMode::Skip));
    assert_eq!(DuplicateMode::from_name("Overwrite"), None);
    assert_eq!(DuplicateMode::from_name("overwrit"), None);
    assert_eq!(DuplicateMode::from_name(""), None);
}

#[test]
fn byte_comparison() {
    assert_eq!(compare_bytes(b"abc", b"abd"), Ordering::Less);
    assert_eq!(compare_bytes(b"abd", b"abc"), Ordering::Greater);
    assert_eq!(compare_bytes(b"ab", b"abc"), Ordering::Less);
    assert_eq!(compare_bytes(b"abc", b"ab"), Ordering::Greater);
    assert_eq!(compare_bytes(b"abc", b"abc"), Ordering::Equal);
    assert_eq!(compare_bytes(b"", b""), Ordering::Equal);
    assert_eq!(compare_bytes(b"Z", b"a"), Ordering::Less);
}

#[test]
fn statements_follow_policy_and_column_order() {
    let batch = vec![full_item("S1", 0), full_item("S2", 100)];
    let overwrite = upsert_statements(&batch, DuplicateMode::Overwrite);
    assert_eq!(overwrite.len(), 2);
    assert_eq!(overwrite[0].sql, UPSERT_OVERWRITE_SQL);
    assert!(overwrite[0].sql.contains("ON CONFLICT(seller_sku) DO UPDATE"));
    let skip = upsert_statements(&batch, DuplicateMode::Skip);
    assert_eq!(skip[1].sql, INSERT_SKIP_SQL);
    assert!(skip[1].sql.starts_with("INSERT OR IGNORE"));
    let values = &skip[1].values;
    assert_eq!(values.len(), 14);
    assert!(matches!(&values[0], SqlValue::Text(s) if s == "S2"));
    assert!(matches!(&values[1], SqlValue::Text(s) if s == "name 100"));
    assert!(matches!(&values[3], SqlValue::Text(s) if s == "status 100"));
    assert!(matches!(values[4], SqlValue::Integer(101)));
    assert!(matches!(values[13], SqlValue::Integer(110)));
    assert!(upsert_statements(&Vec::new(), DuplicateMode::Skip).is_empty());
}
