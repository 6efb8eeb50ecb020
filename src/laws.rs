use vstd::prelude::*;
use crate::item::{DuplicateMode, ItemRecord};
use crate::order::{lemma_bytes_less_asymmetric, lemma_bytes_less_irreflexive};
use crate::store::{key_of, lists, upsert_all, upsert_one};

verus! {

/// Dropping the first row of a listing leaves the listing of the table
/// without that row's SKU.
proof fn lemma_lists_drop_first(rows: Seq<ItemRecord>, table: Map<Seq<char>, ItemRecord>)
    requires
        lists(rows, table),
        rows.len() > 0,
    ensures
        lists(rows.drop_first(), table.remove(rows[0].seller_sku)),
{
    let s = rows[0].seller_sku;
    let rest = rows.drop_first();
    let t2 = table.remove(s);
    assert forall|i: int| 0 <= i < rest.len() implies #[trigger] rest[i].seller_sku != s by {
        assert(rest[i] == rows[i + 1]);
        lemma_bytes_less_irreflexive(key_of(rows[0]));
        assert(ordered_at(rows, 0, i + 1));
    }
    assert forall|k: Seq<char>| #[trigger] t2.contains_key(k) implies exists|i: int|
        0 <= i < rest.len() && #[trigger] rest[i].seller_sku == k by {
        assert(table.contains_key(k));
        let i = choose|i: int| 0 <= i < rows.len() && #[trigger] rows[i].seller_sku == k;
        assert(rest[i - 1].seller_sku == k);
    }
    assert forall|i: int| 0 <= i < rest.len() implies t2.contains_key(#[trigger] rest[i].seller_sku)
        && t2[rest[i].seller_sku] == rest[i] by {
        assert(rest[i] == rows[i + 1]);
    }
}

/// Whether row `i` sorts before row `j`.
spec fn ordered_at(rows: Seq<ItemRecord>, i: int, j: int) -> bool {
    crate::order::bytes_less(key_of(rows[i]), key_of(rows[j]))
}

/// A table has exactly one listing: two listings of the same table are
/// equal, whatever order the rows were written in.
pub proof fn lemma_listing_unique(a: Seq<ItemRecord>, b: Seq<ItemRecord>, table: Map<Seq<char>, ItemRecord>)
    requires
        lists(a, table),
        lists(b, table),
    ensures
        a == b,
    decreases a.len(),
{
    if a.len() == 0 {
        if b.len() > 0 {
            assert(table.contains_key(b[0].seller_sku));
        }
        assert(a =~= b);
    } else {
        let s = a[0].seller_sku;
        assert(table.contains_key(s));
        let j = choose|j: int| 0 <= j < b.len() && #[trigger] b[j].seller_sku == s;
        if j > 0 {
            assert(ordered_at(b, 0, j));
            assert(table.contains_key(b[0].seller_sku));
            let i = choose|i: int| 0 <= i < a.len() && #[trigger] a[i].seller_sku == b[0].seller_sku;
            lemma_bytes_less_irreflexive(key_of(a[0]));
            if i > 0 {
                assert(ordered_at(a, 0, i));
                lemma_bytes_less_asymmetric(key_of(a[0]), key_of(a[i]));
            }
        }
        assert(b[0] == a[0]);
        lemma_lists_drop_first(a, table);
        lemma_lists_drop_first(b, table);
        lemma_listing_unique(a.drop_first(), b.drop_first(), table.remove(s));
        assert(a =~= seq![a[0]] + a.drop_first());
        assert(b =~= seq![b[0]] + b.drop_first());
    }
}

/// In a listing, the row of a stored SKU is the stored record, and it is
/// listed.
proof fn lemma_listed_row(rows: Seq<ItemRecord>, table: Map<Seq<char>, ItemRecord>, s: Seq<char>)
    requires
        lists(rows, table),
        table.contains_key(s),
    ensures
        exists|i: int| 0 <= i < rows.len() && rows[i] == table[s],
        forall|j: int| 0 <= j < rows.len() && rows[j].seller_sku == s ==> rows[j] == table[s],
{
    let i = choose|i: int| 0 <= i < rows.len() && #[trigger] rows[i].seller_sku == s;
    assert(rows[i] == table[s]);
}

/// An upsert of one item whose SKU is not yet stored lists that item
/// unchanged, under either policy.
pub proof fn lemma_new_sku_listed(
    table: Map<Seq<char>, ItemRecord>,
    item: ItemRecord,
    mode: DuplicateMode,
    rows: Seq<ItemRecord>,
)
    requires
        !table.contains_key(item.seller_sku),
        lists(rows, upsert_all(table, seq![item], mode)),
    ensures
        exists|i: int| 0 <= i < rows.len() && rows[i] == item,
{
    reveal_with_fuel(upsert_all, 2);
    assert(seq![item].drop_last() =~= Seq::<ItemRecord>::empty());
    assert(upsert_all(table, seq![item], mode) == table.insert(item.seller_sku, item));
    lemma_listed_row(rows, upsert_all(table, seq![item], mode), item.seller_sku);
}

/// An upsert of one item under `Overwrite` leaves that item as the one row
/// of its SKU: every non-key field takes the new value.
pub proof fn lemma_overwrite_replaces(
    table: Map<Seq<char>, ItemRecord>,
    item: ItemRecord,
    rows: Seq<ItemRecord>,
)
    requires
        lists(rows, upsert_all(table, seq![item], DuplicateMode::Overwrite)),
    ensures
        exists|i: int| 0 <= i < rows.len() && rows[i] == item,
        forall|j: int| 0 <= j < rows.len() && rows[j].seller_sku == item.seller_sku ==> rows[j] == item,
{
    reveal_with_fuel(upsert_all, 2);
    assert(seq![item].drop_last() =~= Seq::<ItemRecord>::empty());
    assert(upsert_all(table, seq![item], DuplicateMode::Overwrite) == table.insert(item.seller_sku, item));
    lemma_listed_row(rows, upsert_all(table, seq![item], DuplicateMode::Overwrite), item.seller_sku);
}

/// An upsert of one item under `Skip` whose SKU is stored leaves the listing
/// as it was.
pub proof fn lemma_skip_keeps_listing(
    table: Map<Seq<char>, ItemRecord>,
    item: ItemRecord,
    before: Seq<ItemRecord>,
    after: Seq<ItemRecord>,
)
    requires
        table.contains_key(item.seller_sku),
        lists(before, table),
        lists(after, upsert_all(table, seq![item], DuplicateMode::Skip)),
    ensures
        after == before,
{
    reveal_with_fuel(upsert_all, 2);
    assert(seq![item].drop_last() =~= Seq::<ItemRecord>::empty());
    assert(upsert_all(table, seq![item], DuplicateMode::Skip) == table);
    lemma_listing_unique(after, before, table);
}

proof fn lemma_overwrite_last_in_table(table: Map<Seq<char>, ItemRecord>, items: Seq<ItemRecord>, i: int)
    requires
        0 <= i < items.len(),
        forall|j: int| i < j < items.len() ==> (#[trigger] items[j]).seller_sku != items[i].seller_sku,
    ensures
        upsert_all(table, items, DuplicateMode::Overwrite).contains_key(items[i].seller_sku),
        upsert_all(table, items, DuplicateMode::Overwrite)[items[i].seller_sku] == items[i],
    decreases items.len(),
{
    if i < items.len() - 1 {
        assert(items.drop_last()[i] == items[i]);
        assert forall|j: int| i < j < items.drop_last().len() implies (
        #[trigger] items.drop_last()[j]).seller_sku != items.drop_last()[i].seller_sku by {
            assert(items.drop_last()[j] == items[j]);
        }
        lemma_overwrite_last_in_table(table, items.drop_last(), i);
        assert(items.last() == items[items.len() - 1]);
    }
}

/// A batch under `Overwrite` that holds a SKU several times stores the last
/// of those items as the one row of that SKU.
pub proof fn lemma_overwrite_last_wins(
    table: Map<Seq<char>, ItemRecord>,
    items: Seq<ItemRecord>,
    i: int,
    rows: Seq<ItemRecord>,
)
    requires
        0 <= i < items.len(),
        forall|j: int| i < j < items.len() ==> (#[trigger] items[j]).seller_sku != items[i].seller_sku,
        lists(rows, upsert_all(table, items, DuplicateMode::Overwrite)),
    ensures
        exists|k: int| 0 <= k < rows.len() && rows[k] == items[i],
        forall|k: int| 0 <= k < rows.len() && rows[k].seller_sku == items[i].seller_sku ==> rows[k] == items[i],
{
    lemma_overwrite_last_in_table(table, items, i);
    lemma_listed_row(rows, upsert_all(table, items, DuplicateMode::Overwrite), items[i].seller_sku);
}

proof fn lemma_absent_stays_absent(
    table: Map<Seq<char>, ItemRecord>,
    items: Seq<ItemRecord>,
    mode: DuplicateMode,
    s: Seq<char>,
)
    requires
        !table.contains_key(s),
        forall|j: int| 0 <= j < items.len() ==> (#[trigger] items[j]).seller_sku != s,
    ensures
        !upsert_all(table, items, mode).contains_key(s),
    decreases items.len(),
{
    if items.len() > 0 {
        assert forall|j: int| 0 <= j < items.drop_last().len() implies (
        #[trigger] items.drop_last()[j]).seller_sku != s by {
            assert(items.drop_last()[j] == items[j]);
        }
        lemma_absent_stays_absent(table, items.drop_last(), mode, s);
        assert(items.last() == items[items.len() - 1]);
    }
}

proof fn lemma_skip_first_in_table(table: Map<Seq<char>, ItemRecord>, items: Seq<ItemRecord>, i: int)
    requires
        0 <= i < items.len(),
        !table.contains_key(items[i].seller_sku),
        forall|j: int| 0 <= j < i ==> (#[trigger] items[j]).seller_sku != items[i].seller_sku,
    ensures
        upsert_all(table, items, DuplicateMode::Skip).contains_key(items[i].seller_sku),
        upsert_all(table, items, DuplicateMode::Skip)[items[i].seller_sku] == items[i],
    decreases items.len(),
{
    let front = items.drop_last();
    if i == items.len() - 1 {
        assert forall|j: int| 0 <= j < front.len() implies (#[trigger] front[j]).seller_sku
            != items[i].seller_sku by {
            assert(front[j] == items[j]);
        }
        lemma_absent_stays_absent(table, front, DuplicateMode::Skip, items[i].seller_sku);
    } else {
        assert(front[i] == items[i]);
        assert forall|j: int| 0 <= j < i implies (#[trigger] front[j]).seller_sku
            != front[i].seller_sku by {
            assert(front[j] == items[j]);
        }
        lemma_skip_first_in_table(table, front, i);
    }
}

/// A batch under `Skip` that holds a SKU not yet stored stores the first
/// item of that SKU as its one row.
pub proof fn lemma_skip_first_wins(
    table: Map<Seq<char>, ItemRecord>,
    items: Seq<ItemRecord>,
    i: int,
    rows: Seq<ItemRecord>,
)
    requires
        0 <= i < items.len(),
        !table.contains_key(items[i].seller_sku),
        forall|j: int| 0 <= j < i ==> (#[trigger] items[j]).seller_sku != items[i].seller_sku,
        lists(rows, upsert_all(table, items, DuplicateMode::Skip)),
    ensures
        exists|k: int| 0 <= k < rows.len() && rows[k] == items[i],
        forall|k: int| 0 <= k < rows.len() && rows[k].seller_sku == items[i].seller_sku ==> rows[k] == items[i],
{
    lemma_skip_first_in_table(table, items, i);
    lemma_listed_row(rows, upsert_all(table, items, DuplicateMode::Skip), items[i].seller_sku);
}

/// Upserting two items of different SKUs gives the same table in either
/// order, so the listing does not depend on the order of insertion.
pub proof fn lemma_distinct_skus_commute(
    table: Map<Seq<char>, ItemRecord>,
    a: ItemRecord,
    b: ItemRecord,
    mode: DuplicateMode,
)
    requires
        a.seller_sku != b.seller_sku,
    ensures
        upsert_all(table, seq![a, b], mode) == upsert_all(table, seq![b, a], mode),
{
    reveal_with_fuel(upsert_all, 3);
    assert(seq![a, b].drop_last() =~= seq![a]);
    assert(seq![b, a].drop_last() =~= seq![b]);
    assert(seq![a].drop_last() =~= Seq::<ItemRecord>::empty());
    assert(seq![b].drop_last() =~= Seq::<ItemRecord>::empty());
    assert(upsert_all(table, seq![a, b], mode) =~= upsert_all(table, seq![b, a], mode));
}

} // verus!
