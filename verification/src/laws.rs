//! What holds of canonicalisation, for every document.
use vstd::prelude::*;
use vstd::relations::sorted_by;
use crate::config::FormatConfig;
use crate::fmt::{canon_document, canon_root, canon_root_item, canon_table};
use crate::lemmas::{
    lemma_canon_item_same_frame, lemma_canon_item_same_key_order, lemma_canon_item_sorted,
    lemma_canon_item_twice, lemma_canon_table_finite, lemma_canon_table_same_key_order,
    lemma_canon_table_sorted, lemma_canon_then_sorted_twice, lemma_item_same_frame_reflexive,
    lemma_item_same_key_order_reflexive, lemma_same_frame_transitive, lemma_sorted_finite,
    lemma_sorted_same_frame,
};
use crate::order::{default_first_order, default_key, lemma_default_first_order_total};
use crate::tree::{sorted_item, sorted_values, DocumentView, ItemView, TableView};

verus! {

/// What stands under a key at the root of a document, once canonical, is left
/// as it is by canonicalising it again.
proof fn lemma_canon_root_item_twice(item: ItemView, config: FormatConfig, key: Seq<char>)
    requires
        item.finite(),
    ensures
        canon_root_item(canon_root_item(item, config, key), config, key) == canon_root_item(
            item,
            config,
            key,
        ),
{
    lemma_canon_item_twice(item, config, None, key);
    if key == "features"@ {
        match item {
            ItemView::Table(t) => {
                lemma_default_first_order_total();
                lemma_canon_then_sorted_twice(t, config, Some(key), default_first_order());
            },
            _ => {},
        }
    }
}

/// Idempotence: canonicalising a canonical document changes nothing.
pub proof fn law_canon_is_idempotent(doc: DocumentView, config: FormatConfig)
    requires
        doc.root.finite(),
    ensures
        canon_document(canon_document(doc, config), config) == canon_document(doc, config),
{
    match doc.root {
        ItemView::Table(t) => {
            let once = canon_root(t, config);
            let twice = canon_root(once, config);
            assert forall|k: Seq<char>| t.entries.dom().contains(k) implies #[trigger] twice.entries[k]
                == once.entries[k] by {
                assert(t.has(k));
                lemma_canon_root_item_twice(t.entries[k].item, config, k);
            }
            assert(twice.entries =~= once.entries);
        },
        _ => {},
    }
}

/// A document that is in canonical form, because canonicalising some
/// document gave it, is left as it is.
pub proof fn law_canonical_document_is_kept(
    earlier: DocumentView,
    doc: DocumentView,
    config: FormatConfig,
)
    requires
        earlier.root.finite(),
        doc == canon_document(earlier, config),
    ensures
        canon_document(doc, config) == doc,
{
    law_canon_is_idempotent(earlier, config);
}

/// The `package` table is excluded: what stands under `package` at the root
/// of a document is in the canonical document as it was, and the keys of the
/// root keep their order.
pub proof fn law_package_is_kept(doc: DocumentView, root: TableView, config: FormatConfig)
    requires
        doc.root == ItemView::Table(root),
        root.entries.dom().contains("package"@),
    ensures
        canon_document(doc, config).root matches ItemView::Table(out) && out.entries["package"@]
            == root.entries["package"@] && out.keys == root.keys,
{
}

/// Sorted keys: with `sort_keys`, every table below a key of the root other
/// than `package` has its keys in lexicographic order; but the `features`
/// table has its own keys, and those of the tables of dotted keys in it, in
/// the order that puts `default` first.
pub proof fn law_keys_are_sorted(root: TableView, config: FormatConfig, key: Seq<char>)
    requires
        root.finite(),
        root.has(key),
        config.sort_keys,
        key != "package"@,
    ensures
        match canon_root(root, config).entries[key].item {
            ItemView::Table(out) if key == "features"@ => {
                &&& sorted_by(out.keys, default_first_order())
                &&& forall|k: Seq<char>| #[trigger]
                    out.has(k) ==> {
                        ||| out.entries[k].item.sorted()
                        ||| out.entries[k].item matches ItemView::Table(inner) && inner.dotted
                    }
            },
            out => out.sorted(),
        },
{
    let item = root.entries[key].item;
    lemma_canon_item_sorted(item, config, None, key);
    if key == "features"@ {
        match item {
            ItemView::Table(t) => {
                let mid = canon_table(t, config, Some(key));
                let out = sorted_values(mid, default_first_order());
                lemma_default_first_order_total();
                lemma_canon_table_finite(t, config, Some(key));
                lemma_sorted_finite(mid, default_first_order());
                mid.keys.lemma_sort_by_ensures(default_first_order());
                assert forall|k: Seq<char>| #[trigger] out.has(k) implies {
                    ||| out.entries[k].item.sorted()
                    ||| out.entries[k].item matches ItemView::Table(inner) && inner.dotted
                } by {
                    assert(mid.sorted());
                    assert(mid.has(k));
                    let inner = mid.entries[k].item;
                    assert(inner.sorted());
                    assert(out.entries[k].item == sorted_item(inner, default_first_order()));
                    match inner {
                        ItemView::Table(c) => {
                            if c.dotted {
                                assert(sorted_values(c, default_first_order()).dotted);
                            }
                        },
                        _ => {},
                    }
                }
            },
            _ => {},
        }
    }
}

/// Sorted keys: with `sort_keys`, a canonical table has its keys, and every
/// table below it has its keys, in lexicographic order.
pub proof fn law_table_keys_are_sorted(
    table: TableView,
    config: FormatConfig,
    name: Option<Seq<char>>,
)
    requires
        table.finite(),
        config.sort_keys,
    ensures
        canon_table(table, config, name).sorted(),
{
    lemma_canon_table_sorted(table, config, name);
}

/// Whatever the policy, the canonical `features` table has its keys in the
/// order that puts `default` first and the other keys in lexicographic
/// order.
pub proof fn law_features_default_first(root: TableView, config: FormatConfig)
    requires
        root.finite(),
        root.has("features"@),
        root.entries["features"@].item is Table,
    ensures
        canon_root(root, config).entries["features"@].item matches ItemView::Table(out) && {
            &&& sorted_by(out.keys, default_first_order())
            &&& out.keys.contains(default_key()) ==> out.keys[0] == default_key()
        },
{
    reveal_strlit("features");
    reveal_strlit("package");
    assert("features"@ != "package"@) by {
        assert("features"@.len() != "package"@.len());
    }
    let t = root.entries["features"@].item->Table_0;
    let mid = canon_table(t, config, Some("features"@));
    let out = sorted_values(mid, default_first_order());
    lemma_default_first_order_total();
    mid.keys.lemma_sort_by_ensures(default_first_order());
    if out.keys.contains(default_key()) {
        let i = choose|i: int| 0 <= i < out.keys.len() && out.keys[i] == default_key();
        if i > 0 {
            assert(default_first_order()(out.keys[0], out.keys[i]));
        }
    }
}

/// Unsorted keys: without `sort_keys`, the keys of the root keep their
/// order, and so do the keys of every table below a key of the root other
/// than `features`.
pub proof fn law_key_order_is_kept(root: TableView, config: FormatConfig, key: Seq<char>)
    requires
        root.finite(),
        root.has(key),
        !config.sort_keys,
        key != "features"@,
    ensures
        canon_root(root, config).keys == root.keys,
        root.entries[key].item.same_key_order(canon_root(root, config).entries[key].item),
{
    let item = root.entries[key].item;
    if key == "package"@ {
        lemma_item_same_key_order_reflexive(item);
    } else {
        lemma_canon_item_same_key_order(item, config, None, key);
    }
}

/// Unsorted keys: without `sort_keys`, canonicalising a table keeps the
/// order of its keys and of the keys of every table below it.
pub proof fn law_table_key_order_is_kept(
    table: TableView,
    config: FormatConfig,
    name: Option<Seq<char>>,
)
    requires
        table.finite(),
        !config.sort_keys,
    ensures
        table.same_key_order(canon_table(table, config, name)),
{
    lemma_canon_table_same_key_order(table, config, name);
}

/// The frame is kept: the canonical document has the tables of the
/// document, each with its header where it stood and decorated as it was,
/// the tables of repeated blocks in the order they had; it has the keys of
/// the document, each with the decoration it had; every value that stands
/// under a key has the decoration it had; and what follows the last line is
/// what it was. So a comment before a key, after a value or around a header
/// stays with that key, value or header.
pub proof fn law_frame_is_kept(doc: DocumentView, config: FormatConfig)
    requires
        doc.root.finite(),
    ensures
        doc.root.same_frame(canon_document(doc, config).root),
        canon_document(doc, config).trailing == doc.trailing,
{
    let root = doc.root;
    match root {
        ItemView::Table(t) => {
            let out = canon_root(t, config);
            assert(out.entries.dom() =~= t.entries.dom());
            assert forall|k: Seq<char>| #[trigger] t.has(k) implies t.entries[k].key
                == out.entries[k].key && t.entries[k].item.same_frame(out.entries[k].item) by {
                let item = t.entries[k].item;
                lemma_canon_item_same_frame(item, config, None, k);
                if k == "package"@ {
                    lemma_item_same_frame_reflexive(item);
                } else if k == "features"@ {
                    match item {
                        ItemView::Table(f) => {
                            let mid = canon_table(f, config, Some(k));
                            assert(item.finite());
                            assert(f.finite());
                            lemma_default_first_order_total();
                            lemma_canon_table_finite(f, config, Some(k));
                            lemma_sorted_same_frame(mid, default_first_order());
                            lemma_same_frame_transitive(
                                f,
                                mid,
                                sorted_values(mid, default_first_order()),
                            );
                        },
                        _ => {},
                    }
                }
            }
            assert(t.same_frame(out));
        },
        _ => {
            lemma_item_same_frame_reflexive(root);
        },
    }
}

} // verus!
