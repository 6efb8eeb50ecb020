//! A verified inventory catalogue: rows keyed by seller SKU, kept in SKU
//! order, written through an upsert that follows a duplicate policy.

mod item;
mod laws;
mod order;
mod sql;
mod store;

pub use item::{records, DuplicateMode, InventoryItem, ItemRecord};
pub use order::{bytes_less, compare_bytes, sku_key};
pub use store::{key_of, lists, sorted_by_sku, upsert_all, upsert_one, InventoryStore};
pub use laws::{
    lemma_distinct_skus_commute, lemma_listing_unique, lemma_new_sku_listed,
    lemma_overwrite_last_wins, lemma_overwrite_replaces, lemma_skip_first_wins,
    lemma_skip_keeps_listing,
};
pub use sql::{
    cells, row_cells, upsert_statements, write_sql, SqlCell, SqlValue, Statement, CREATE_TABLE_SQL,
    DATABASE_URL, INSERT_SKIP_SQL, SELECT_ALL_SQL, UPSERT_OVERWRITE_SQL,
};
