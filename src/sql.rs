use vstd::prelude::*;
use crate::item::{DuplicateMode, InventoryItem, ItemRecord};

verus! {

/// Where the catalogue is kept.
pub const DATABASE_URL: &'static str = "sqlite:inventory.db";

/// Creates the catalogue table if it is missing.
pub const CREATE_TABLE_SQL: &'static str = "CREATE TABLE IF NOT EXISTS inventory_items (
    id INTEGER PRIMARY KEY AUTOINCREMENT,
    seller_sku TEXT NOT NULL UNIQUE,
    product_name TEXT NOT NULL,
    category TEXT NOT NULL,
    status TEXT NOT NULL,
    size_s INTEGER NOT NULL DEFAULT 0,
    size_m INTEGER NOT NULL DEFAULT 0,
    size_l INTEGER NOT NULL DEFAULT 0,
    size_xl INTEGER NOT NULL DEFAULT 0,
    size_xxl INTEGER NOT NULL DEFAULT 0,
    size_xxxl INTEGER NOT NULL DEFAULT 0,
    size_one_size INTEGER NOT NULL DEFAULT 0,
    recommended_listing_price INTEGER NOT NULL DEFAULT 0,
    nett_receive_zalora INTEGER NOT NULL DEFAULT 0,
    nett_receive_shopee INTEGER NOT NULL DEFAULT 0
);";

/// Reads every row, in SKU order, with its columns in the order of `row_cells`.
pub const SELECT_ALL_SQL: &'static str = "SELECT seller_sku, product_name, category, status, size_s, size_m, size_l, size_xl, size_xxl, size_xxxl, size_one_size, recommended_listing_price, nett_receive_zalora, nett_receive_shopee FROM inventory_items ORDER BY seller_sku";

/// Writes one row; a stored SKU has all its other columns replaced.
pub const UPSERT_OVERWRITE_SQL: &'static str = "INSERT INTO inventory_items (seller_sku, product_name, category, status, size_s, size_m, size_l, size_xl, size_xxl, size_xxxl, size_one_size, recommended_listing_price, nett_receive_zalora, nett_receive_shopee)
 VALUES (?1, ?2, ?3, ?4, ?5, ?6, ?7, ?8, ?9, ?10, ?11, ?12, ?13, ?14)
 ON CONFLICT(seller_sku) DO UPDATE SET
   product_name = excluded.product_name,
   category = excluded.category,
   status = excluded.status,
   size_s = excluded.size_s,
   size_m = excluded.size_m,
   size_l = excluded.size_l,
   size_xl = excluded.size_xl,
   size_xxl = excluded.size_xxl,
   size_xxxl = excluded.size_xxxl,
   size_one_size = excluded.size_one_size,
   recommended_listing_price = excluded.recommended_listing_price,
   nett_receive_zalora = excluded.nett_receive_zalora,
   nett_receive_shopee = excluded.nett_receive_shopee";

/// Writes one row unless its SKU is stored.
pub const INSERT_SKIP_SQL: &'static str = "INSERT OR IGNORE INTO inventory_items (seller_sku, product_name, category, status, size_s, size_m, size_l, size_xl, size_xxl, size_xxxl, size_one_size, recommended_listing_price, nett_receive_zalora, nett_receive_shopee)
 VALUES (?1, ?2, ?3, ?4, ?5, ?6, ?7, ?8, ?9, ?10, ?11, ?12, ?13, ?14)";

/// A value bound to a statement parameter.
#[derive(Clone, Debug)]
pub enum SqlValue {
    Text(String),
    Integer(i64),
}

/// What a bound value holds.
pub enum SqlCell {
    Text(Seq<char>),
    Integer(i64),
}

impl View for SqlValue {
    type V = SqlCell;

    open spec fn view(&self) -> SqlCell {
        match self {
            SqlValue::Text(s) => SqlCell::Text(s@),
            SqlValue::Integer(n) => SqlCell::Integer(*n),
        }
    }
}

/// The values of a row, in column order: the parameters `?1` to `?14` of
/// the write statements and the columns of `SELECT_ALL_SQL`.
pub open spec fn row_cells(r: ItemRecord) -> Seq<SqlCell> {
    seq![
        SqlCell::Text(r.seller_sku),
        SqlCell::Text(r.product_name),
        SqlCell::Text(r.category),
        SqlCell::Text(r.status),
        SqlCell::Integer(r.size_s),
        SqlCell::Integer(r.size_m),
        SqlCell::Integer(r.size_l),
        SqlCell::Integer(r.size_xl),
        SqlCell::Integer(r.size_xxl),
        SqlCell::Integer(r.size_xxxl),
        SqlCell::Integer(r.size_one_size),
        SqlCell::Integer(r.recommended_listing_price),
        SqlCell::Integer(r.nett_receive_zalora),
        SqlCell::Integer(r.nett_receive_shopee),
    ]
}

/// The statement text that writes one item under a duplicate policy.
pub open spec fn write_sql(mode: DuplicateMode) -> Seq<char> {
    match mode {
        DuplicateMode::Overwrite => UPSERT_OVERWRITE_SQL@,
        DuplicateMode::Skip => INSERT_SKIP_SQL@,
    }
}

/// A statement with its bound values.
pub struct Statement {
    pub sql: String,
    pub values: Vec<SqlValue>,
}

/// The cells of a sequence of bound values.
pub open spec fn cells(values: Seq<SqlValue>) -> Seq<SqlCell> {
    values.map_values(|v: SqlValue| v@)
}

impl InventoryItem {
    /// The item's values in column order.
    pub fn bind_values(&self) -> (r: Vec<SqlValue>)
        ensures
            cells(r@) == row_cells(self@),
    {
        let r = vec![
            SqlValue::Text(self.seller_sku.clone()),
            SqlValue::Text(self.product_name.clone()),
            SqlValue::Text(self.category.clone()),
            SqlValue::Text(self.status.clone()),
            SqlValue::Integer(self.size_s),
            SqlValue::Integer(self.size_m),
            SqlValue::Integer(self.size_l),
            SqlValue::Integer(self.size_xl),
            SqlValue::Integer(self.size_xxl),
            SqlValue::Integer(self.size_xxxl),
            SqlValue::Integer(self.size_one_size),
            SqlValue::Integer(self.recommended_listing_price),
            SqlValue::Integer(self.nett_receive_zalora),
            SqlValue::Integer(self.nett_receive_shopee),
        ];
        assert(cells(r@) =~= row_cells(self@));
        r
    }
}

/// One write statement per item, in batch order, each with the text of the
/// policy and the item's values.
pub fn upsert_statements(items: &Vec<InventoryItem>, mode: DuplicateMode) -> (r: Vec<Statement>)
    ensures
        r@.len() == items@.len(),
        forall|i: int|
            0 <= i < r@.len() ==> (#[trigger] r@[i]).sql@ == write_sql(mode) && cells(r@[i].values@)
                == row_cells(items@[i]@),
{
    let mut r: Vec<Statement> = Vec::new();
    let mut i: usize = 0;
    while i < items.len()
        invariant
            i <= items@.len(),
            r@.len() == i,
            forall|j: int|
                0 <= j < i ==> (#[trigger] r@[j]).sql@ == write_sql(mode) && cells(r@[j].values@)
                    == row_cells(items@[j]@),
        decreases items@.len() - i,
    {
        let sql = match mode {
            DuplicateMode::Overwrite => UPSERT_OVERWRITE_SQL.to_owned(),
            DuplicateMode::Skip => INSERT_SKIP_SQL.to_owned(),
        };
        r.push(Statement { sql, values: items[i].bind_values() });
        i = i + 1;
    }
    r
}

} // verus!
