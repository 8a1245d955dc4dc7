//! Facts about sorting and canonical forms that the laws rest on.
use vstd::prelude::*;
use vstd::relations::{sorted_by, total_ordering};
use vstd::seq_lib::lemma_sorted_unique;
use crate::config::FormatConfig;
use crate::fmt::{canon_entries, canon_item, canon_table, canon_tables, canon_value};
use crate::order::{key_order, lemma_key_order_total};
use crate::tree::{sorted_values, ArrayView, ItemView, TableView, ValueView};

verus! {

/// Sorting a sequence gives the same result for every arrangement of its
/// elements.
pub proof fn lemma_sort_of_permutation(
    a: Seq<Seq<char>>,
    b: Seq<Seq<char>>,
    leq: spec_fn(Seq<char>, Seq<char>) -> bool,
)
    requires
        total_ordering(leq),
        a.to_multiset() == b.to_multiset(),
    ensures
        a.sort_by(leq) == b.sort_by(leq),
{
    a.lemma_sort_by_ensures(leq);
    b.lemma_sort_by_ensures(leq);
    lemma_sorted_unique(a.sort_by(leq), b.sort_by(leq), leq);
}

/// Sorting a sorted sequence changes nothing.
pub proof fn lemma_sort_of_sorted(a: Seq<Seq<char>>, leq: spec_fn(Seq<char>, Seq<char>) -> bool)
    requires
        total_ordering(leq),
        sorted_by(a, leq),
    ensures
        a.sort_by(leq) == a,
{
    a.lemma_sort_by_ensures(leq);
    lemma_sorted_unique(a.sort_by(leq), a, leq);
}

/// Sorting keeps a tree finite.
pub proof fn lemma_sorted_finite(t: TableView, leq: spec_fn(Seq<char>, Seq<char>) -> bool)
    requires
        t.finite(),
    ensures
        sorted_values(t, leq).finite(),
        sorted_values(t, leq).entries.dom() == t.entries.dom(),
    decreases t,
{
    let s = sorted_values(t, leq);
    assert(s.entries.dom() =~= t.entries.dom());
    assert forall|k: Seq<char>| #[trigger] s.has(k) implies s.entries[k].item.finite() by {
        assert(t.has(k));
        match t.entries[k].item {
            ItemView::Table(c) => {
                if c.dotted {
                    lemma_sorted_finite(c, leq);
                }
            },
            _ => {},
        }
    }
}

/// Sorting a tree whose tables are all sorted changes nothing.
pub proof fn lemma_sorted_is_fixed(t: TableView)
    requires
        t.finite(),
        t.sorted(),
    ensures
        sorted_values(t, key_order()) == t,
    decreases t,
{
    let s = sorted_values(t, key_order());
    lemma_key_order_total();
    lemma_sort_of_sorted(t.keys, key_order());
    assert forall|k: Seq<char>| t.entries.dom().contains(k) implies #[trigger] s.entries[k]
        == t.entries[k] by {
        assert(t.has(k));
        match t.entries[k].item {
            ItemView::Table(c) => {
                if c.dotted {
                    lemma_sorted_is_fixed(c);
                }
            },
            _ => {},
        }
    }
    assert(s.entries =~= t.entries);
}

/// Laying an array out on one line twice is doing it once.
pub proof fn lemma_one_line_twice(a: ArrayView)
    ensures
        a.one_line().one_line() == a.one_line(),
{
    let b = a.one_line();
    assert forall|i: int| 0 <= i < a.elems.len() implies b.leading(i) == a.leading(i) by {
        if a.leading(i) {
            assert forall|j: int| 0 <= j < i implies b.elems[j] is None by {
                assert(a.elems[j] is None);
            }
        } else {
            let j = choose|j: int| 0 <= j < i && !(a.elems[j] is None);
            assert(!(b.elems[j] is None));
        }
    }
    assert(b.one_line().elems =~= b.elems);
}

/// Laying an array out with one value per line twice is doing it once.
pub proof fn lemma_one_per_line_twice(a: ArrayView)
    ensures
        a.one_per_line().one_per_line() == a.one_per_line(),
{
    assert(a.one_per_line().one_per_line().elems =~= a.one_per_line().elems);
}

/// The canonical layout of a value is its own canonical layout.
pub proof fn lemma_canon_value_twice(v: ValueView)
    ensures
        canon_value(canon_value(v)) == canon_value(v),
{
    match v {
        ValueView::Array(a) => {
            lemma_one_line_twice(a);
        },
        _ => {},
    }
}

/// Canonicalising keeps a tree finite, and binds the keys that were bound.
pub proof fn lemma_canon_table_finite(t: TableView, config: FormatConfig, name: Option<Seq<char>>)
    requires
        t.finite(),
    ensures
        canon_entries(t, config, name).finite(),
        canon_entries(t, config, name).entries.dom() == t.entries.dom(),
        canon_table(t, config, name).finite(),
        canon_table(t, config, name).entries.dom() == t.entries.dom(),
    decreases t, 1int,
{
    let e = canon_entries(t, config, name);
    assert(e.entries.dom() =~= t.entries.dom());
    assert forall|k: Seq<char>| #[trigger] e.has(k) implies e.entries[k].item.finite() by {
        assert(t.has(k));
        lemma_canon_item_finite(t.entries[k].item, config, name, k);
    }
    lemma_sorted_finite(e, key_order());
}

/// Canonicalising keeps a tree finite.
pub proof fn lemma_canon_item_finite(
    item: ItemView,
    config: FormatConfig,
    name: Option<Seq<char>>,
    key: Seq<char>,
)
    requires
        item.finite(),
    ensures
        canon_item(item, config, name, key).finite(),
    decreases item, 0int,
{
    match item {
        ItemView::Table(t) => {
            lemma_canon_table_finite(t, config, Some(key));
        },
        ItemView::ArrayOfTables(ts) => {
            let cs = canon_tables(ts, config, Some(key));
            assert forall|i: int| 0 <= i < cs.len() implies (#[trigger] cs[i] matches Some(c)
                ==> c.finite()) by {
                match ts[i] {
                    Some(t) => {
                        lemma_canon_table_finite(t, config, Some(key));
                    },
                    None => {},
                }
            }
        },
        _ => {},
    }
}

/// Where keys are sorted, a canonical table has every table below it sorted,
/// and holds under each key the canonical form of what stood there.
pub proof fn lemma_canon_table_sorted(t: TableView, config: FormatConfig, name: Option<Seq<char>>)
    requires
        t.finite(),
        config.sort_keys,
    ensures
        canon_table(t, config, name).sorted(),
        canon_table(t, config, name).entries == canon_entries(t, config, name).entries,
    decreases t, 1int,
{
    let e = canon_entries(t, config, name);
    let c = canon_table(t, config, name);
    lemma_key_order_total();
    lemma_canon_table_finite(t, config, name);
    e.keys.lemma_sort_by_ensures(key_order());
    assert forall|k: Seq<char>| e.entries.dom().contains(k) implies #[trigger] c.entries[k]
        == e.entries[k] && e.entries[k].item.sorted() by {
        assert(t.has(k));
        assert(e.has(k));
        lemma_canon_item_sorted(t.entries[k].item, config, name, k);
        lemma_canon_item_finite(t.entries[k].item, config, name, k);
        match e.entries[k].item {
            ItemView::Table(child) => {
                if child.dotted {
                    lemma_sorted_is_fixed(child);
                }
            },
            _ => {},
        }
    }
    assert(c.entries =~= e.entries);
    assert forall|k: Seq<char>| #[trigger] c.has(k) implies c.entries[k].item.sorted() by {
        assert(e.entries.dom().contains(k));
    }
}

/// Where keys are sorted, a canonical item has every table below it sorted.
pub proof fn lemma_canon_item_sorted(
    item: ItemView,
    config: FormatConfig,
    name: Option<Seq<char>>,
    key: Seq<char>,
)
    requires
        item.finite(),
        config.sort_keys,
    ensures
        canon_item(item, config, name, key).sorted(),
    decreases item, 0int,
{
    match item {
        ItemView::Table(t) => {
            lemma_canon_table_sorted(t, config, Some(key));
        },
        ItemView::ArrayOfTables(ts) => {
            let cs = canon_tables(ts, config, Some(key));
            assert forall|i: int| 0 <= i < cs.len() implies (#[trigger] cs[i] matches Some(c)
                ==> c.sorted()) by {
                match ts[i] {
                    Some(t) => {
                        lemma_canon_table_sorted(t, config, Some(key));
                    },
                    None => {},
                }
            }
        },
        _ => {},
    }
}

/// The canonical form of a table is its own canonical form.
pub proof fn lemma_canon_table_twice(t: TableView, config: FormatConfig, name: Option<Seq<char>>)
    requires
        t.finite(),
    ensures
        canon_table(canon_table(t, config, name), config, name) == canon_table(t, config, name),
    decreases t, 1int,
{
    let e = canon_entries(t, config, name);
    let u = canon_table(t, config, name);
    lemma_canon_table_finite(t, config, name);
    if config.sort_keys {
        lemma_canon_table_sorted(t, config, name);
    }
    let eu = canon_entries(u, config, name);
    assert forall|k: Seq<char>| u.entries.dom().contains(k) implies #[trigger] eu.entries[k]
        == u.entries[k] by {
        assert(t.has(k));
        assert(u.has(k));
        assert(e.has(k));
        assert(u.entries[k] == e.entries[k]);
        lemma_canon_item_twice(t.entries[k].item, config, name, k);
    }
    assert(eu.entries =~= u.entries);
    assert(eu == u);
    if config.sort_keys {
        lemma_sorted_is_fixed(u);
    }
}

/// The canonical form of an item is its own canonical form.
pub proof fn lemma_canon_item_twice(
    item: ItemView,
    config: FormatConfig,
    name: Option<Seq<char>>,
    key: Seq<char>,
)
    requires
        item.finite(),
    ensures
        canon_item(canon_item(item, config, name, key), config, name, key) == canon_item(
            item,
            config,
            name,
            key,
        ),
    decreases item, 0int,
{
    match item {
        ItemView::Table(t) => {
            lemma_canon_table_twice(t, config, Some(key));
        },
        ItemView::ArrayOfTables(ts) => {
            let cs = canon_tables(ts, config, Some(key));
            let ccs = canon_tables(cs, config, Some(key));
            assert forall|i: int| 0 <= i < cs.len() implies ccs[i] == cs[i] by {
                match ts[i] {
                    Some(t) => {
                        lemma_canon_table_twice(t, config, Some(key));
                    },
                    None => {},
                }
            }
            assert(ccs =~= cs);
        },
        ItemView::Value(v) => {
            lemma_canon_value_twice(v);
            match v {
                ValueView::Array(a) => {
                    lemma_one_per_line_twice(a);
                },
                _ => {},
            }
        },
        ItemView::Absent => {},
    }
}

/// Canonicalising a table and then putting its keys in some order gives a
/// table that the same two steps leave as it is.
pub proof fn lemma_canon_then_sorted_twice(
    t: TableView,
    config: FormatConfig,
    name: Option<Seq<char>>,
    leq: spec_fn(Seq<char>, Seq<char>) -> bool,
)
    requires
        t.finite(),
        total_ordering(leq),
    ensures
        sorted_values(
            canon_table(sorted_values(canon_table(t, config, name), leq), config, name),
            leq,
        ) == sorted_values(canon_table(t, config, name), leq),
    decreases t,
{
    let u = canon_table(t, config, name);
    let v = sorted_values(u, leq);
    let w = canon_table(v, config, name);
    let x = sorted_values(w, leq);
    lemma_key_order_total();
    lemma_canon_table_finite(t, config, name);
    lemma_sorted_finite(u, leq);
    lemma_canon_table_finite(v, config, name);
    if config.sort_keys {
        lemma_canon_table_sorted(t, config, name);
        lemma_canon_table_sorted(v, config, name);
    }
    assert(x.keys == v.keys) by {
        u.keys.lemma_sort_by_ensures(leq);
        if config.sort_keys {
            v.keys.lemma_sort_by_ensures(key_order());
        }
        lemma_sort_of_permutation(w.keys, v.keys, leq);
        lemma_sort_of_sorted(v.keys, leq);
    }
    assert forall|k: Seq<char>| v.entries.dom().contains(k) implies #[trigger] x.entries[k]
        == v.entries[k] by {
        assert(t.has(k));
        assert(u.has(k));
        assert(v.has(k));
        assert(w.has(k));
        let tk = t.entries[k].item;
        assert(u.entries[k].item == canon_item(tk, config, name, k));
        assert(w.entries[k].item == canon_item(v.entries[k].item, config, name, k));
        lemma_canon_item_twice(tk, config, name, k);
        match tk {
            ItemView::Table(c) => {
                if c.dotted {
                    lemma_canon_then_sorted_twice(c, config, Some(k), leq);
                }
            },
            _ => {},
        }
    }
    assert(x.entries =~= v.entries);
}

/// Having the same frame carries over from one table to a third through a
/// second.
pub proof fn lemma_same_frame_transitive(a: TableView, b: TableView, c: TableView)
    requires
        a.finite(),
        a.same_frame(b),
        b.same_frame(c),
    ensures
        a.same_frame(c),
    decreases a, 1int,
{
    assert forall|k: Seq<char>| #[trigger] a.has(k) implies a.entries[k].key == c.entries[k].key
        && a.entries[k].item.same_frame(c.entries[k].item) by {
        assert(b.has(k));
        lemma_item_same_frame_transitive(
            a.entries[k].item,
            b.entries[k].item,
            c.entries[k].item,
        );
    }
}

/// Having the same frame carries over from one item to a third through a
/// second.
pub proof fn lemma_item_same_frame_transitive(a: ItemView, b: ItemView, c: ItemView)
    requires
        a.finite(),
        a.same_frame(b),
        b.same_frame(c),
    ensures
        a.same_frame(c),
    decreases a, 0int,
{
    match (a, b, c) {
        (ItemView::Table(x), ItemView::Table(y), ItemView::Table(z)) => {
            lemma_same_frame_transitive(x, y, z);
        },
        (ItemView::ArrayOfTables(xs), ItemView::ArrayOfTables(ys), ItemView::ArrayOfTables(zs)) => {
            assert forall|i: int| 0 <= i < xs.len() implies match (#[trigger] xs[i], zs[i]) {
                (Some(x), Some(z)) => x.same_frame(z),
                (None, None) => true,
                _ => false,
            } by {
                match (xs[i], ys[i], zs[i]) {
                    (Some(x), Some(y), Some(z)) => {
                        lemma_same_frame_transitive(x, y, z);
                    },
                    _ => {},
                }
            }
        },
        _ => {},
    }
}

/// A table has the frame it has.
pub proof fn lemma_same_frame_reflexive(t: TableView)
    requires
        t.finite(),
    ensures
        t.same_frame(t),
    decreases t, 1int,
{
    assert forall|k: Seq<char>| #[trigger] t.has(k) implies t.entries[k].item.same_frame(
        t.entries[k].item,
    ) by {
        lemma_item_same_frame_reflexive(t.entries[k].item);
    }
}

/// An item has the frame it has.
pub proof fn lemma_item_same_frame_reflexive(a: ItemView)
    requires
        a.finite(),
    ensures
        a.same_frame(a),
    decreases a, 0int,
{
    match a {
        ItemView::Table(t) => {
            lemma_same_frame_reflexive(t);
        },
        ItemView::ArrayOfTables(ts) => {
            assert forall|i: int| 0 <= i < ts.len() implies match (#[trigger] ts[i], ts[i]) {
                (Some(x), Some(z)) => x.same_frame(z),
                (None, None) => true,
                _ => false,
            } by {
                match ts[i] {
                    Some(t) => {
                        lemma_same_frame_reflexive(t);
                    },
                    None => {},
                }
            }
        },
        _ => {},
    }
}

/// Sorting keeps the frame of a table.
pub proof fn lemma_sorted_same_frame(t: TableView, leq: spec_fn(Seq<char>, Seq<char>) -> bool)
    requires
        t.finite(),
        total_ordering(leq),
    ensures
        t.same_frame(sorted_values(t, leq)),
    decreases t,
{
    let s = sorted_values(t, leq);
    t.keys.lemma_sort_by_ensures(leq);
    assert(s.entries.dom() =~= t.entries.dom());
    assert forall|k: Seq<char>| #[trigger] t.has(k) implies t.entries[k].key == s.entries[k].key
        && t.entries[k].item.same_frame(s.entries[k].item) by {
        match t.entries[k].item {
            ItemView::Table(c) => {
                if c.dotted {
                    lemma_sorted_same_frame(c, leq);
                } else {
                    lemma_item_same_frame_reflexive(t.entries[k].item);
                }
            },
            _ => {
                lemma_item_same_frame_reflexive(t.entries[k].item);
            },
        }
    }
}

/// Canonicalising keeps the frame of a table.
pub proof fn lemma_canon_table_same_frame(
    t: TableView,
    config: FormatConfig,
    name: Option<Seq<char>>,
)
    requires
        t.finite(),
    ensures
        t.same_frame(canon_table(t, config, name)),
    decreases t, 1int,
{
    let e = canon_entries(t, config, name);
    let c = canon_table(t, config, name);
    lemma_key_order_total();
    lemma_canon_table_finite(t, config, name);
    if config.sort_keys {
        lemma_canon_table_sorted(t, config, name);
        e.keys.lemma_sort_by_ensures(key_order());
    }
    assert forall|k: Seq<char>| #[trigger] t.has(k) implies t.entries[k].key == c.entries[k].key
        && t.entries[k].item.same_frame(c.entries[k].item) by {
        assert(e.has(k));
        assert(c.entries[k] == e.entries[k]);
        lemma_canon_item_same_frame(t.entries[k].item, config, name, k);
    }
}

/// Canonicalising keeps the frame of an item.
pub proof fn lemma_canon_item_same_frame(
    item: ItemView,
    config: FormatConfig,
    name: Option<Seq<char>>,
    key: Seq<char>,
)
    requires
        item.finite(),
    ensures
        item.same_frame(canon_item(item, config, name, key)),
    decreases item, 0int,
{
    match item {
        ItemView::Table(t) => {
            lemma_canon_table_same_frame(t, config, Some(key));
        },
        ItemView::ArrayOfTables(ts) => {
            let cs = canon_tables(ts, config, Some(key));
            assert forall|i: int| 0 <= i < ts.len() implies match (#[trigger] ts[i], cs[i]) {
                (Some(a), Some(b)) => a.same_frame(b),
                (None, None) => true,
                _ => false,
            } by {
                match ts[i] {
                    Some(t) => {
                        lemma_canon_table_same_frame(t, config, Some(key));
                    },
                    None => {},
                }
            }
        },
        _ => {},
    }
}

/// A table has its keys in the order it has them.
pub proof fn lemma_same_key_order_reflexive(t: TableView)
    requires
        t.finite(),
    ensures
        t.same_key_order(t),
    decreases t, 1int,
{
    assert forall|k: Seq<char>| #[trigger] t.has(k) implies t.entries[k].item.same_key_order(
        t.entries[k].item,
    ) by {
        lemma_item_same_key_order_reflexive(t.entries[k].item);
    }
}

/// Every table of an item has its keys in the order it has them.
pub proof fn lemma_item_same_key_order_reflexive(a: ItemView)
    requires
        a.finite(),
    ensures
        a.same_key_order(a),
    decreases a, 0int,
{
    match a {
        ItemView::Table(t) => {
            lemma_same_key_order_reflexive(t);
        },
        ItemView::ArrayOfTables(ts) => {
            assert forall|i: int| 0 <= i < ts.len() implies match (#[trigger] ts[i], ts[i]) {
                (Some(x), Some(z)) => x.same_key_order(z),
                (None, None) => true,
                _ => false,
            } by {
                match ts[i] {
                    Some(t) => {
                        lemma_same_key_order_reflexive(t);
                    },
                    None => {},
                }
            }
        },
        _ => {},
    }
}

/// Where keys are not sorted, canonicalising a table keeps the order of the
/// keys in every table.
pub proof fn lemma_canon_table_same_key_order(
    t: TableView,
    config: FormatConfig,
    name: Option<Seq<char>>,
)
    requires
        t.finite(),
        !config.sort_keys,
    ensures
        t.same_key_order(canon_table(t, config, name)),
    decreases t, 1int,
{
    let c = canon_table(t, config, name);
    assert(c.entries.dom() =~= t.entries.dom());
    assert forall|k: Seq<char>| #[trigger] t.has(k) implies t.entries[k].item.same_key_order(
        c.entries[k].item,
    ) by {
        lemma_canon_item_same_key_order(t.entries[k].item, config, name, k);
    }
}

/// Where keys are not sorted, canonicalising an item keeps the order of the
/// keys in every table.
pub proof fn lemma_canon_item_same_key_order(
    item: ItemView,
    config: FormatConfig,
    name: Option<Seq<char>>,
    key: Seq<char>,
)
    requires
        item.finite(),
        !config.sort_keys,
    ensures
        item.same_key_order(canon_item(item, config, name, key)),
    decreases item, 0int,
{
    match item {
        ItemView::Table(t) => {
            lemma_canon_table_same_key_order(t, config, Some(key));
        },
        ItemView::ArrayOfTables(ts) => {
            let cs = canon_tables(ts, config, Some(key));
            assert forall|i: int| 0 <= i < ts.len() implies match (#[trigger] ts[i], cs[i]) {
                (Some(a), Some(b)) => a.same_key_order(b),
                (None, None) => true,
                _ => false,
            } by {
                match ts[i] {
                    Some(t) => {
                        lemma_canon_table_same_key_order(t, config, Some(key));
                    },
                    None => {},
                }
            }
        },
        _ => {},
    }
}

} // verus!
