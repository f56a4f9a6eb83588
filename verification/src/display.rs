use vstd::prelude::*;

use crate::types::CurrencyLine;
use crate::types::CurrencyLineModel;
use crate::types::ItemLine;
use crate::types::ItemLineModel;

verus! {

/// A flat, display-ready currency record: this projection is the one place
/// where absent optional values are replaced by defaults. It is one-way and
/// lossy, for rendering only.
pub struct CurrencyRow {
    pub name: String,
    /// Micro-chaos; zero when no quote was reported.
    pub chaos_equivalent: i64,
    pub pay_value: i64,
    pub receive_value: i64,
    pub pay_count: i32,
    pub receive_count: i32,
}

/// Mathematical model of a [`CurrencyRow`].
pub struct CurrencyRowModel {
    pub name: Seq<char>,
    pub chaos_equivalent: i64,
    pub pay_value: i64,
    pub receive_value: i64,
    pub pay_count: i32,
    pub receive_count: i32,
}

impl DeepView for CurrencyRow {
    type V = CurrencyRowModel;

    open spec fn deep_view(&self) -> CurrencyRowModel {
        CurrencyRowModel {
            name: self.name@,
            chaos_equivalent: self.chaos_equivalent,
            pay_value: self.pay_value,
            receive_value: self.receive_value,
            pay_count: self.pay_count,
            receive_count: self.receive_count,
        }
    }
}

/// How one currency snapshot is flattened: absent quote values and counts
/// become zero.
pub open spec fn currency_row_spec(c: CurrencyLineModel) -> CurrencyRowModel {
    CurrencyRowModel {
        name: c.currency_type_name,
        chaos_equivalent: match c.chaos_equivalent {
            Some(v) => v,
            None => 0,
        },
        pay_value: match c.pay {
            Some(p) => p.value,
            None => 0,
        },
        receive_value: match c.receive {
            Some(p) => p.value,
            None => 0,
        },
        pay_count: match c.pay {
            Some(p) => p.count,
            None => 0,
        },
        receive_count: match c.receive {
            Some(p) => p.count,
            None => 0,
        },
    }
}

/// Flatten one currency snapshot for display.
pub fn currency_row(c: &CurrencyLine) -> (r: CurrencyRow)
    ensures
        r.deep_view() == currency_row_spec(c.deep_view()),
{
    CurrencyRow {
        name: c.currency_type_name.clone(),
        chaos_equivalent: match c.chaos_equivalent {
            Some(v) => v,
            None => 0,
        },
        pay_value: match &c.pay {
            Some(p) => p.value,
            None => 0,
        },
        receive_value: match &c.receive {
            Some(p) => p.value,
            None => 0,
        },
        pay_count: match &c.pay {
            Some(p) => p.count,
            None => 0,
        },
        receive_count: match &c.receive {
            Some(p) => p.count,
            None => 0,
        },
    }
}

/// Flatten a whole currency query result, in order.
pub fn currency_rows(lines: &Vec<CurrencyLine>) -> (r: Vec<CurrencyRow>)
    ensures
        r@.len() == lines@.len(),
        forall|i: int|
            0 <= i < lines@.len() ==> (#[trigger] r@[i]).deep_view() == currency_row_spec(
                lines@[i].deep_view(),
            ),
{
    let mut out: Vec<CurrencyRow> = Vec::new();
    let mut i: usize = 0;
    while i < lines.len()
        invariant
            i <= lines@.len(),
            out@.len() == i,
            forall|t: int|
                0 <= t < i ==> (#[trigger] out@[t]).deep_view() == currency_row_spec(
                    lines@[t].deep_view(),
                ),
        decreases lines@.len() - i,
    {
        out.push(currency_row(&lines[i]));
        i += 1;
    }
    out
}

/// A flat, display-ready item record, with the same defaulting rules.
pub struct ItemRow {
    pub name: String,
    /// `"N/A"` when the item reports no base type.
    pub base_type: String,
    /// Micro-chaos; always reported.
    pub chaos_value: i64,
    pub divine_value: i64,
    pub count: i32,
    pub listing_count: i32,
    pub level_required: i32,
}

/// Mathematical model of an [`ItemRow`].
pub struct ItemRowModel {
    pub name: Seq<char>,
    pub base_type: Seq<char>,
    pub chaos_value: i64,
    pub divine_value: i64,
    pub count: i32,
    pub listing_count: i32,
    pub level_required: i32,
}

impl DeepView for ItemRow {
    type V = ItemRowModel;

    open spec fn deep_view(&self) -> ItemRowModel {
        ItemRowModel {
            name: self.name@,
            base_type: self.base_type@,
            chaos_value: self.chaos_value,
            divine_value: self.divine_value,
            count: self.count,
            listing_count: self.listing_count,
            level_required: self.level_required,
        }
    }
}

/// How one item snapshot is flattened: an absent base type reads `"N/A"`,
/// absent numbers become zero.
pub open spec fn item_row_spec(it: ItemLineModel) -> ItemRowModel {
    ItemRowModel {
        name: it.name,
        base_type: match it.base_type {
            Some(s) => s,
            None => "N/A"@,
        },
        chaos_value: it.chaos_value,
        divine_value: match it.divine_value {
            Some(v) => v,
            None => 0,
        },
        count: it.count,
        listing_count: match it.listing_count {
            Some(v) => v,
            None => 0,
        },
        level_required: match it.level_required {
            Some(v) => v,
            None => 0,
        },
    }
}

/// Flatten one item snapshot for display.
pub fn item_row(it: &ItemLine) -> (r: ItemRow)
    ensures
        r.deep_view() == item_row_spec(it.deep_view()),
{
    ItemRow {
        name: it.name.clone(),
        base_type: match &it.base_type {
            Some(s) => s.clone(),
            None => String::from_str("N/A"),
        },
        chaos_value: it.chaos_value,
        divine_value: match it.divine_value {
            Some(v) => v,
            None => 0,
        },
        count: it.count,
        listing_count: match it.listing_count {
            Some(v) => v,
            None => 0,
        },
        level_required: match it.level_required {
            Some(v) => v,
            None => 0,
        },
    }
}

/// Flatten a whole item query result, in order.
pub fn item_rows(lines: &Vec<ItemLine>) -> (r: Vec<ItemRow>)
    ensures
        r@.len() == lines@.len(),
        forall|i: int|
            0 <= i < lines@.len() ==> (#[trigger] r@[i]).deep_view() == item_row_spec(
                lines@[i].deep_view(),
            ),
{
    let mut out: Vec<ItemRow> = Vec::new();
    let mut i: usize = 0;
    while i < lines.len()
        invariant
            i <= lines@.len(),
            out@.len() == i,
            forall|t: int|
                0 <= t < i ==> (#[trigger] out@[t]).deep_view() == item_row_spec(
                    lines@[t].deep_view(),
                ),
        decreases lines@.len() - i,
    {
        out.push(item_row(&lines[i]));
        i += 1;
    }
    out
}

} // verus!
