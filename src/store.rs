use vstd::prelude::*;
use core::cmp::Ordering;
use crate::item::{records, DuplicateMode, InventoryItem, ItemRecord};
use crate::order::{
    bytes_less, compare_bytes, lemma_bytes_less_irreflexive, lemma_bytes_less_total,
    lemma_bytes_less_transitive, lemma_sku_key_injective, sku_key,
};

verus! {

/// The bytes by which a record is ordered.
pub open spec fn key_of(r: ItemRecord) -> Seq<u8> {
    sku_key(r.seller_sku)
}

/// Rows in strictly ascending SKU order, so that no SKU appears twice.
pub open spec fn sorted_by_sku(rows: Seq<ItemRecord>) -> bool {
    forall|i: int, j: int|
        0 <= i < j < rows.len() ==> bytes_less(key_of(#[trigger] rows[i]), key_of(#[trigger] rows[j]))
}

/// `rows` is the listing of `table`: every stored row once, in SKU order.
pub open spec fn lists(rows: Seq<ItemRecord>, table: Map<Seq<char>, ItemRecord>) -> bool {
    &&& sorted_by_sku(rows)
    &&& forall|i: int|
        0 <= i < rows.len() ==> table.contains_key(#[trigger] rows[i].seller_sku) && table[rows[i].seller_sku]
            == rows[i]
    &&& forall|k: Seq<char>|
        #[trigger] table.contains_key(k) ==> exists|i: int| 0 <= i < rows.len() && #[trigger] rows[i].seller_sku == k
}

/// The table after one item is upserted: a new SKU is inserted; a stored one
/// is replaced under `Overwrite` and kept under `Skip`.
pub open spec fn upsert_one(
    table: Map<Seq<char>, ItemRecord>,
    item: ItemRecord,
    mode: DuplicateMode,
) -> Map<Seq<char>, ItemRecord> {
    if mode == DuplicateMode::Skip && table.contains_key(item.seller_sku) {
        table
    } else {
        table.insert(item.seller_sku, item)
    }
}

/// The table after a batch is upserted, item by item in batch order.
pub open spec fn upsert_all(
    table: Map<Seq<char>, ItemRecord>,
    items: Seq<ItemRecord>,
    mode: DuplicateMode,
) -> Map<Seq<char>, ItemRecord>
    decreases items.len(),
{
    if items.len() == 0 {
        table
    } else {
        upsert_one(upsert_all(table, items.drop_last(), mode), items.last(), mode)
    }
}

/// Whether `a` sorts before `b` as a SKU.
fn sku_before(a: &String, b: &String) -> (r: bool)
    ensures
        r == bytes_less(sku_key(a@), sku_key(b@)),
{
    match compare_bytes(a.as_str().as_bytes(), b.as_str().as_bytes()) {
        Ordering::Less => true,
        _ => false,
    }
}

/// The inventory table: one row per SKU, held in SKU order.
pub struct InventoryStore {
    rows: Vec<InventoryItem>,
    table: Ghost<Map<Seq<char>, ItemRecord>>,
}

impl View for InventoryStore {
    type V = Map<Seq<char>, ItemRecord>;

    /// The stored rows, by SKU.
    closed spec fn view(&self) -> Map<Seq<char>, ItemRecord> {
        self.table@
    }
}

impl InventoryStore {
    /// The rows are the listing of the table.
    pub closed spec fn wf(&self) -> bool {
        lists(records(self.rows@), self.table@)
    }

    /// An empty table.
    pub fn new() -> (r: InventoryStore)
        ensures
            r.wf(),
            r@ == Map::<Seq<char>, ItemRecord>::empty(),
    {
        let r = InventoryStore { rows: Vec::new(), table: Ghost(Map::empty()) };
        assert(records(r.rows@) =~= Seq::<ItemRecord>::empty());
        r
    }

    /// Every stored row, in ascending SKU order.
    pub fn list_items(&self) -> (r: Vec<InventoryItem>)
        requires
            self.wf(),
        ensures
            lists(records(r@), self@),
    {
        let mut r: Vec<InventoryItem> = Vec::new();
        let mut i: usize = 0;
        while i < self.rows.len()
            invariant
                i <= self.rows@.len(),
                r@.len() == i,
                forall|j: int| 0 <= j < i ==> (#[trigger] r@[j])@ == self.rows@[j]@,
            decreases self.rows@.len() - i,
        {
            r.push(self.rows[i].copied());
            i = i + 1;
        }
        assert(records(r@) =~= records(self.rows@));
        r
    }

    /// Upserts the items in batch order under the given duplicate policy.
    pub fn upsert_items(&mut self, items: &Vec<InventoryItem>, mode: DuplicateMode)
        requires
            old(self).wf(),
        ensures
            final(self).wf(),
            final(self)@ == upsert_all(old(self)@, records(items@), mode),
    {
        let ghost start = self@;
        let mut i: usize = 0;
        while i < items.len()
            invariant
                self.wf(),
                i <= items@.len(),
                self@ == upsert_all(start, records(items@).take(i as int), mode),
            decreases items@.len() - i,
        {
            assert(records(items@).take(i + 1).drop_last() =~= records(items@).take(i as int));
            self.upsert_item(&items[i], mode);
            i = i + 1;
        }
        assert(records(items@).take(items@.len() as int) =~= records(items@));
    }

    fn upsert_item(&mut self, item: &InventoryItem, mode: DuplicateMode)
        requires
            old(self).wf(),
        ensures
            final(self).wf(),
            final(self)@ == upsert_one(old(self)@, item@, mode),
    {
        let ghost rows0 = records(self.rows@);
        let ghost table0 = self.table@;
        let ghost k = key_of(item@);
        proof {
            lemma_bytes_less_irreflexive(k);
        }
        let mut p: usize = 0;
        let mut scanning = true;
        while scanning
            invariant
                records(self.rows@) == rows0,
                self.table@ == table0,
                k == key_of(item@),
                p <= rows0.len(),
                forall|i: int| 0 <= i < p ==> bytes_less(key_of(#[trigger] rows0[i]), k),
                !scanning ==> p == rows0.len() || !bytes_less(key_of(rows0[p as int]), k),
            decreases rows0.len() - p + (if scanning { 1int } else { 0int }),
        {
            assert(p < rows0.len() ==> rows0[p as int] == self.rows@[p as int]@);
            if p < self.rows.len() && sku_before(&self.rows[p].seller_sku, &item.seller_sku) {
                p = p + 1;
            } else {
                scanning = false;
            }
        }
        if p < self.rows.len() && !sku_before(&item.seller_sku, &self.rows[p].seller_sku) {
            proof {
                let r = rows0[p as int];
                assert(r == self.rows@[p as int]@);
                if key_of(r) != k {
                    lemma_bytes_less_total(key_of(r), k);
                }
                lemma_sku_key_injective(r.seller_sku, item@.seller_sku);
            }
            if mode == DuplicateMode::Overwrite {
                self.rows.set(p, item.copied());
                self.table = Ghost(self.table@.insert(item.seller_sku@, item@));
                proof {
                    let rows1 = records(self.rows@);
                    assert(rows1 =~= rows0.update(p as int, item@));
                    assert forall|i: int| 0 <= i < rows1.len() implies key_of(#[trigger] rows1[i])
                        == key_of(rows0[i]) by {}
                    assert forall|i: int| 0 <= i < rows1.len() && i != p implies rows0[i].seller_sku
                        != item@.seller_sku by {
                        if i < p {
                            assert(bytes_less(key_of(rows0[i]), key_of(rows0[p as int])));
                        } else {
                            assert(bytes_less(key_of(rows0[p as int]), key_of(rows0[i])));
                        }
                    }
                    assert forall|s: Seq<char>| #[trigger] self.table@.contains_key(s) implies exists|
                        i: int,
                    | 0 <= i < rows1.len() && #[trigger] rows1[i].seller_sku == s by {
                        if s == item@.seller_sku {
                            assert(rows1[p as int].seller_sku == s);
                        } else {
                            assert(table0.contains_key(s));
                            let i = choose|i: int| 0 <= i < rows0.len() && #[trigger] rows0[i].seller_sku == s;
                            assert(rows1[i].seller_sku == s);
                        }
                    }
                }
            }
        } else {
            self.rows.insert(p, item.copied());
            self.table = Ghost(self.table@.insert(item.seller_sku@, item@));
            proof {
                let rows1 = records(self.rows@);
                assert(rows1 =~= rows0.insert(p as int, item@));
                assert forall|j: int| p <= j < rows0.len() implies bytes_less(k, key_of(
                    #[trigger] rows0[j],
                )) by {
                    assert(bytes_less(k, key_of(rows0[p as int])));
                    if j > p {
                        assert(bytes_less(key_of(rows0[p as int]), key_of(rows0[j])));
                        lemma_bytes_less_transitive(k, key_of(rows0[p as int]), key_of(rows0[j]));
                    }
                }
                assert forall|i: int, j: int| 0 <= i < j < rows1.len() implies bytes_less(
                    key_of(#[trigger] rows1[i]),
                    key_of(#[trigger] rows1[j]),
                ) by {
                    if j < p {
                    } else if j == p {
                    } else if i < p {
                        assert(bytes_less(key_of(rows0[i]), key_of(rows0[j - 1])));
                    } else if i == p {
                    } else {
                        assert(bytes_less(key_of(rows0[i - 1]), key_of(rows0[j - 1])));
                    }
                }
                assert forall|i: int| 0 <= i < rows1.len() && i != p implies rows1[i].seller_sku
                    != item@.seller_sku by {
                    if i < p {
                        assert(bytes_less(key_of(rows0[i]), k));
                    } else {
                        assert(bytes_less(k, key_of(rows0[i - 1])));
                    }
                }
                assert forall|s: Seq<char>| #[trigger] self.table@.contains_key(s) implies exists|
                    i: int,
                | 0 <= i < rows1.len() && #[trigger] rows1[i].seller_sku == s by {
                    if s == item@.seller_sku {
                        assert(rows1[p as int].seller_sku == s);
                    } else {
                        assert(table0.contains_key(s));
                        let i = choose|i: int| 0 <= i < rows0.len() && #[trigger] rows0[i].seller_sku == s;
                        if i < p {
                            assert(rows1[i].seller_sku == s);
                        } else {
                            assert(rows1[i + 1].seller_sku == s);
                        }
                    }
                }
            }
        }
    }
}

} // verus!
