use vstd::prelude::*;

use crate::text::name_matches;
use crate::text::to_lower;
use crate::text::contains_case_insensitive;
use crate::types::CurrencyLine;
use crate::types::ItemLine;
use vstd::relations::sorted_by;

verus! {

broadcast use
    vstd::seq_lib::group_filter_ensures,
    Seq::lemma_filter_push,
    vstd::seq_lib::to_multiset_insert,
    vstd::seq_lib::to_multiset_build,
    vstd::seq_lib::to_multiset_len,
;

/// The view of an optional borrowed filter string.
pub open spec fn opt_str_view(f: Option<&str>) -> Option<Seq<char>> {
    match f {
        Some(s) => Some(s@),
        None => None,
    }
}

/// A currency passes the name filter: an absent filter passes everything, a
/// present one asks for a case-insensitive substring match on the name.
pub open spec fn currency_passes(c: CurrencyLine, filter: Option<Seq<char>>) -> bool {
    match filter {
        None => true,
        Some(f) => name_matches(c.currency_type_name@, f),
    }
}

/// The currency name-filter predicate, as a function value.
pub open spec fn currency_pred(filter: Option<Seq<char>>) -> spec_fn(CurrencyLine) -> bool {
    |c: CurrencyLine| currency_passes(c, filter)
}

/// The price is at least `min` (when given) and at most `max` (when given),
/// both bounds inclusive.
pub open spec fn chaos_in_range(value: i64, min: Option<i64>, max: Option<i64>) -> bool {
    &&& match min {
        None => true,
        Some(m) => value >= m,
    }
    &&& match max {
        None => true,
        Some(m) => value <= m,
    }
}

/// An item passes the combined criteria: name filter and inclusive price
/// range, each ignored when absent.
pub open spec fn item_passes(
    it: ItemLine,
    filter: Option<Seq<char>>,
    min: Option<i64>,
    max: Option<i64>,
) -> bool {
    &&& match filter {
        None => true,
        Some(f) => name_matches(it.name@, f),
    }
    &&& chaos_in_range(it.chaos_value, min, max)
}

/// The item criteria predicate, as a function value.
pub open spec fn item_pred(
    filter: Option<Seq<char>>,
    min: Option<i64>,
    max: Option<i64>,
) -> spec_fn(ItemLine) -> bool {
    |it: ItemLine| item_passes(it, filter, min, max)
}

/// Keep exactly the currencies whose name, case-folded, contains the
/// case-folded filter; an absent filter keeps everything. Order is
/// preserved.
pub fn filter_currencies_by_name(currencies: Vec<CurrencyLine>, name_filter: Option<&str>) -> (r:
    Vec<CurrencyLine>)
    ensures
        r@ == currencies@.filter(currency_pred(opt_str_view(name_filter))),
{
    let ghost orig = currencies@;
    let ghost pred = currency_pred(opt_str_view(name_filter));
    let mut input = currencies;
    let mut out: Vec<CurrencyLine> = Vec::new();
    while input.len() > 0
        invariant
            input@.len() <= orig.len(),
            input@ == orig.subrange(orig.len() - input@.len(), orig.len() as int),
            out@ == orig.subrange(0, orig.len() - input@.len()).filter(pred),
            pred == currency_pred(opt_str_view(name_filter)),
        decreases input@.len(),
    {
        let ghost k = orig.len() - input@.len();
        let c = input.remove(0);
        proof {
            assert(c == orig[k]);
            assert(input@ =~= orig.subrange(k + 1, orig.len() as int));
        }
        let keep = match name_filter {
            None => true,
            Some(f) => contains_case_insensitive(c.currency_type_name.as_str(), f),
        };
        proof {
            assert(keep == pred(c));
            assert(orig.subrange(0, k + 1) =~= orig.subrange(0, k).push(orig[k]));
        }
        if keep {
            out.push(c);
        }
    }
    proof {
        assert(orig.subrange(0, orig.len() as int) =~= orig);
    }
    out
}

/// Keep exactly the items that pass the name filter and lie inside the
/// inclusive price range; absent criteria are ignored. Order is preserved.
pub fn filter_items_by_criteria(
    items: Vec<ItemLine>,
    name_filter: Option<&str>,
    min_chaos: Option<i64>,
    max_chaos: Option<i64>,
) -> (r: Vec<ItemLine>)
    ensures
        r@ == items@.filter(item_pred(opt_str_view(name_filter), min_chaos, max_chaos)),
{
    let ghost orig = items@;
    let ghost pred = item_pred(opt_str_view(name_filter), min_chaos, max_chaos);
    let mut input = items;
    let mut out: Vec<ItemLine> = Vec::new();
    while input.len() > 0
        invariant
            input@.len() <= orig.len(),
            input@ == orig.subrange(orig.len() - input@.len(), orig.len() as int),
            out@ == orig.subrange(0, orig.len() - input@.len()).filter(pred),
            pred == item_pred(opt_str_view(name_filter), min_chaos, max_chaos),
        decreases input@.len(),
    {
        let ghost k = orig.len() - input@.len();
        let it = input.remove(0);
        proof {
            assert(it == orig[k]);
            assert(input@ =~= orig.subrange(k + 1, orig.len() as int));
        }
        let name_ok = match name_filter {
            None => true,
            Some(f) => contains_case_insensitive(it.name.as_str(), f),
        };
        let min_ok = match min_chaos {
            None => true,
            Some(m) => it.chaos_value >= m,
        };
        let max_ok = match max_chaos {
            None => true,
            Some(m) => it.chaos_value <= m,
        };
        let keep = name_ok && min_ok && max_ok;
        proof {
            assert(keep == pred(it));
            assert(orig.subrange(0, k + 1) =~= orig.subrange(0, k).push(orig[k]));
        }
        if keep {
            out.push(it);
        }
    }
    proof {
        assert(orig.subrange(0, orig.len() as int) =~= orig);
    }
    out
}

/// The sort rank of a currency: its quoted value, with an unquoted currency
/// ranked below every quoted one.
pub open spec fn cur_rank(c: CurrencyLine) -> int {
    match c.chaos_equivalent {
        Some(v) => v as int,
        None => i64::MIN - 1,
    }
}

/// Descending order on currencies by rank.
pub open spec fn cur_ge(a: CurrencyLine, b: CurrencyLine) -> bool {
    cur_rank(a) >= cur_rank(b)
}

/// The descending currency order, as a function value.
pub open spec fn cur_desc() -> spec_fn(CurrencyLine, CurrencyLine) -> bool {
    |a: CurrencyLine, b: CurrencyLine| cur_ge(a, b)
}

/// Descending order on items by price.
pub open spec fn item_ge(a: ItemLine, b: ItemLine) -> bool {
    a.chaos_value >= b.chaos_value
}

/// The descending item order, as a function value.
pub open spec fn item_desc() -> spec_fn(ItemLine, ItemLine) -> bool {
    |a: ItemLine, b: ItemLine| item_ge(a, b)
}

fn cur_ge_exec(a: &CurrencyLine, b: &CurrencyLine) -> (r: bool)
    ensures
        r == cur_ge(*a, *b),
{
    match (a.chaos_equivalent, b.chaos_equivalent) {
        (Some(x), Some(y)) => x >= y,
        (Some(_), None) => true,
        (None, None) => true,
        (None, Some(_)) => false,
    }
}

/// Reorder the currencies by quoted value, highest first; currencies without
/// a quote come last. The result holds exactly the input's records, and an
/// input already in that order comes back unchanged.
pub fn sort_currencies_by_value(currencies: Vec<CurrencyLine>) -> (r: Vec<CurrencyLine>)
    ensures
        sorted_by(r@, cur_desc()),
        r@.to_multiset() == currencies@.to_multiset(),
        sorted_by(currencies@, cur_desc()) ==> r@ == currencies@,
{
    let ghost orig = currencies@;
    let mut input = currencies;
    let mut out: Vec<CurrencyLine> = Vec::new();
    proof {
        assert(out@ =~= orig.subrange(0, 0));
    }
    while input.len() > 0
        invariant
            input@.len() <= orig.len(),
            input@ == orig.subrange(orig.len() - input@.len(), orig.len() as int),
            sorted_by(out@, cur_desc()),
            out@.to_multiset() == orig.subrange(0, orig.len() - input@.len()).to_multiset(),
            sorted_by(orig, cur_desc()) ==> out@ == orig.subrange(
                0,
                orig.len() - input@.len(),
            ),
        decreases input@.len(),
    {
        let ghost k = orig.len() - input@.len();
        let c = input.remove(0);
        proof {
            assert(c == orig[k]);
            assert(input@ =~= orig.subrange(k + 1, orig.len() as int));
        }
        let mut idx: usize = 0;
        while idx < out.len() && cur_ge_exec(&out[idx], &c)
            invariant
                idx <= out@.len(),
                forall|t: int| 0 <= t < idx ==> cur_ge(#[trigger] out@[t], c),
            decreases out@.len() - idx,
        {
            idx += 1;
        }
        proof {
            out@.insert_ensures(idx as int, c);
            let newseq = out@.insert(idx as int, c);
            assert forall|i: int, j: int| 0 <= i < j < newseq.len() implies cur_desc()(
                newseq[i],
                newseq[j],
            ) by {
                if j < idx {
                    assert(cur_desc()(out@[i], out@[j]));
                } else if i < idx && j == idx {
                    assert(newseq[j] == c);
                    assert(cur_ge(out@[i], c));
                } else if i < idx && j > idx {
                    assert(newseq[j] == out@[j - 1]);
                    assert(cur_desc()(out@[i], out@[j - 1]));
                } else if i == idx && j > idx {
                    assert(newseq[i] == c);
                    assert(newseq[j] == out@[j - 1]);
                    assert(!cur_ge(out@[idx as int], c));
                    if j - 1 > idx {
                        assert(cur_desc()(out@[idx as int], out@[j - 1]));
                    }
                    assert(cur_ge(c, out@[j - 1]));
                } else {
                    assert(newseq[i] == out@[i - 1]);
                    assert(newseq[j] == out@[j - 1]);
                    assert(cur_desc()(out@[i - 1], out@[j - 1]));
                }
            }
            assert(orig.subrange(0, k + 1) =~= orig.subrange(0, k).push(orig[k]));
            assert(newseq.to_multiset() == out@.to_multiset().insert(c));
            assert(orig.subrange(0, k).push(orig[k]).to_multiset() == orig.subrange(
                0,
                k,
            ).to_multiset().insert(orig[k]));
            if sorted_by(orig, cur_desc()) {
                assert forall|t: int| 0 <= t < out@.len() implies cur_ge(
                    #[trigger] out@[t],
                    c,
                ) by {
                    assert(out@[t] == orig[t]);
                    assert(cur_desc()(orig[t], orig[k]));
                }
                assert(idx == out@.len());
                assert(newseq =~= out@.push(c));
                assert(newseq =~= orig.subrange(0, k + 1));
            }
        }
        out.insert(idx, c);
    }
    proof {
        assert(orig.subrange(0, orig.len() as int) =~= orig);
    }
    out
}

/// Reorder the items by price, highest first. The result holds exactly the
/// input's records, and an input already in that order comes back unchanged.
pub fn sort_items_by_value(items: Vec<ItemLine>) -> (r: Vec<ItemLine>)
    ensures
        sorted_by(r@, item_desc()),
        r@.to_multiset() == items@.to_multiset(),
        sorted_by(items@, item_desc()) ==> r@ == items@,
{
    let ghost orig = items@;
    let mut input = items;
    let mut out: Vec<ItemLine> = Vec::new();
    proof {
        assert(out@ =~= orig.subrange(0, 0));
    }
    while input.len() > 0
        invariant
            input@.len() <= orig.len(),
            input@ == orig.subrange(orig.len() - input@.len(), orig.len() as int),
            sorted_by(out@, item_desc()),
            out@.to_multiset() == orig.subrange(0, orig.len() - input@.len()).to_multiset(),
            sorted_by(orig, item_desc()) ==> out@ == orig.subrange(
                0,
                orig.len() - input@.len(),
            ),
        decreases input@.len(),
    {
        let ghost k = orig.len() - input@.len();
        let it = input.remove(0);
        proof {
            assert(it == orig[k]);
            assert(input@ =~= orig.subrange(k + 1, orig.len() as int));
        }
        let mut idx: usize = 0;
        while idx < out.len() && out[idx].chaos_value >= it.chaos_value
            invariant
                idx <= out@.len(),
                forall|t: int| 0 <= t < idx ==> item_ge(#[trigger] out@[t], it),
            decreases out@.len() - idx,
        {
            idx += 1;
        }
        proof {
            out@.insert_ensures(idx as int, it);
            let newseq = out@.insert(idx as int, it);
            assert forall|i: int, j: int| 0 <= i < j < newseq.len() implies item_desc()(
                newseq[i],
                newseq[j],
            ) by {
                if j < idx {
                    assert(item_desc()(out@[i], out@[j]));
                } else if i < idx && j == idx {
                    assert(newseq[j] == it);
                    assert(item_ge(out@[i], it));
                } else if i < idx && j > idx {
                    assert(newseq[j] == out@[j - 1]);
                    assert(item_desc()(out@[i], out@[j - 1]));
                } else if i == idx && j > idx {
                    assert(newseq[i] == it);
                    assert(newseq[j] == out@[j - 1]);
                    assert(!item_ge(out@[idx as int], it));
                    if j - 1 > idx {
                        assert(item_desc()(out@[idx as int], out@[j - 1]));
                    }
                    assert(item_ge(it, out@[j - 1]));
                } else {
                    assert(newseq[i] == out@[i - 1]);
                    assert(newseq[j] == out@[j - 1]);
                    assert(item_desc()(out@[i - 1], out@[j - 1]));
                }
            }
            assert(orig.subrange(0, k + 1) =~= orig.subrange(0, k).push(orig[k]));
            assert(newseq.to_multiset() == out@.to_multiset().insert(it));
            assert(orig.subrange(0, k).push(orig[k]).to_multiset() == orig.subrange(
                0,
                k,
            ).to_multiset().insert(orig[k]));
            if sorted_by(orig, item_desc()) {
                assert forall|t: int| 0 <= t < out@.len() implies item_ge(
                    #[trigger] out@[t],
                    it,
                ) by {
                    assert(out@[t] == orig[t]);
                    assert(item_desc()(orig[t], orig[k]));
                }
                assert(idx == out@.len());
                assert(newseq =~= out@.push(it));
                assert(newseq =~= orig.subrange(0, k + 1));
            }
        }
        out.insert(idx, it);
    }
    proof {
        assert(orig.subrange(0, orig.len() as int) =~= orig);
    }
    out
}

proof fn lemma_filter_true_id<A>(s: Seq<A>, p: spec_fn(A) -> bool)
    requires
        forall|x: A| #[trigger] p(x),
    ensures
        s.filter(p) == s,
    decreases s.len(),
{
    reveal(Seq::filter);
    if s.len() == 0 {
        assert(s.filter(p) =~= s);
    } else {
        lemma_filter_true_id(s.drop_last(), p);
        assert(s.filter(p) =~= s);
    }
}

/// An absent name filter is the identity transformation on a currency
/// sequence: order and contents are unchanged.
pub proof fn lemma_filter_currencies_none_identity(s: Seq<CurrencyLine>)
    ensures
        s.filter(currency_pred(None)) == s,
{
    lemma_filter_true_id(s, currency_pred(None));
}

/// Absent criteria are the identity transformation on an item sequence:
/// order and contents are unchanged.
pub proof fn lemma_filter_items_none_identity(s: Seq<ItemLine>)
    ensures
        s.filter(item_pred(None, None, None)) == s,
{
    lemma_filter_true_id(s, item_pred(None, None, None));
}

/// The name filter is case-insensitive: two filter strings with the same
/// case-folded form select the same currencies.
pub proof fn lemma_filter_currencies_case_insensitive(
    s: Seq<CurrencyLine>,
    f: Seq<char>,
    g: Seq<char>,
)
    requires
        to_lower(f) == to_lower(g),
    ensures
        s.filter(currency_pred(Some(f))) == s.filter(currency_pred(Some(g))),
{
    assert(currency_pred(Some(f)) =~= currency_pred(Some(g)));
}

/// The item name filter is case-insensitive in the same way.
pub proof fn lemma_filter_items_case_insensitive(
    s: Seq<ItemLine>,
    f: Seq<char>,
    g: Seq<char>,
    min: Option<i64>,
    max: Option<i64>,
)
    requires
        to_lower(f) == to_lower(g),
    ensures
        s.filter(item_pred(Some(f), min, max)) == s.filter(item_pred(Some(g), min, max)),
{
    assert(item_pred(Some(f), min, max) =~= item_pred(Some(g), min, max));
}

} // verus!
