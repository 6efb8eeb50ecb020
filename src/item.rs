use vstd::prelude::*;

verus! {

/// One catalogue row. `seller_sku` is the key; the other fields are the
/// row's values.
#[derive(Clone, Debug, PartialEq, Eq)]
pub struct InventoryItem {
    pub seller_sku: String,
    pub product_name: String,
    pub category: String,
    pub status: String,
    pub size_s: i64,
    pub size_m: i64,
    pub size_l: i64,
    pub size_xl: i64,
    pub size_xxl: i64,
    pub size_xxxl: i64,
    pub size_one_size: i64,
    pub recommended_listing_price: i64,
    pub nett_receive_zalora: i64,
    pub nett_receive_shopee: i64,
}

/// What a row holds, with its text fields as character sequences.
pub struct ItemRecord {
    pub seller_sku: Seq<char>,
    pub product_name: Seq<char>,
    pub category: Seq<char>,
    pub status: Seq<char>,
    pub size_s: i64,
    pub size_m: i64,
    pub size_l: i64,
    pub size_xl: i64,
    pub size_xxl: i64,
    pub size_xxxl: i64,
    pub size_one_size: i64,
    pub recommended_listing_price: i64,
    pub nett_receive_zalora: i64,
    pub nett_receive_shopee: i64,
}

impl View for InventoryItem {
    type V = ItemRecord;

    open spec fn view(&self) -> ItemRecord {
        ItemRecord {
            seller_sku: self.seller_sku@,
            product_name: self.product_name@,
            category: self.category@,
            status: self.status@,
            size_s: self.size_s,
            size_m: self.size_m,
            size_l: self.size_l,
            size_xl: self.size_xl,
            size_xxl: self.size_xxl,
            size_xxxl: self.size_xxxl,
            size_one_size: self.size_one_size,
            recommended_listing_price: self.recommended_listing_price,
            nett_receive_zalora: self.nett_receive_zalora,
            nett_receive_shopee: self.nett_receive_shopee,
        }
    }
}

/// The records of a sequence of items, in the same order.
pub open spec fn records(items: Seq<InventoryItem>) -> Seq<ItemRecord> {
    items.map_values(|i: InventoryItem| i@)
}

impl InventoryItem {
    /// A field-by-field copy of the item.
    pub fn copied(&self) -> (r: InventoryItem)
        ensures
            r@ == self@,
    {
        InventoryItem {
            seller_sku: self.seller_sku.clone(),
            product_name: self.product_name.clone(),
            category: self.category.clone(),
            status: self.status.clone(),
            size_s: self.size_s,
            size_m: self.size_m,
            size_l: self.size_l,
            size_xl: self.size_xl,
            size_xxl: self.size_xxl,
            size_xxxl: self.size_xxxl,
            size_one_size: self.size_one_size,
            recommended_listing_price: self.recommended_listing_price,
            nett_receive_zalora: self.nett_receive_zalora,
            nett_receive_shopee: self.nett_receive_shopee,
        }
    }
}

/// How an upsert treats an item whose SKU is already stored.
#[derive(Clone, Copy, Debug, PartialEq, Eq, Structural)]
pub enum DuplicateMode {
    /// Replace every non-key field of the stored row.
    Overwrite,
    /// Keep the stored row and drop the incoming item.
    Skip,
}

impl DuplicateMode {
    /// Reads a policy from its name, `"overwrite"` or `"skip"`; any other
    /// name is refused.
    pub fn from_name(name: &str) -> (r: Option<DuplicateMode>)
        ensures
            r == (if name@ == "overwrite"@ {
                Some(DuplicateMode::Overwrite)
            } else if name@ == "skip"@ {
                Some(DuplicateMode::Skip)
            } else {
                None::<DuplicateMode>
            }),
    {
        let given = name.to_owned();
        let overwrite = "overwrite".to_owned();
        let skip = "skip".to_owned();
        proof {
            reveal_strlit("overwrite");
            reveal_strlit("skip");
        }
        if given == overwrite {
            Some(DuplicateMode::Overwrite)
        } else if given == skip {
            Some(DuplicateMode::Skip)
        } else {
            None
        }
    }
}

} // verus!
