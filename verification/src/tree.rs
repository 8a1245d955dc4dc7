//! The mathematical model of a TOML document tree.
//!
//! The tree itself lives in `toml_edit`; the types here say what a node of it
//! holds, as far as canonicalisation reads or changes it. Decoration (comments
//! and whitespace) is carried as opaque `toml_edit` values, so that a contract
//! can say that it is kept without saying what it is.
use vstd::prelude::*;
use vstd::relations::sorted_by;
use crate::adapter::{decor_of, raw_of};
use crate::order::key_order;

verus! {

/// A string, number, boolean or date-time.
pub struct ScalarView {
    /// Whitespace and comments before and after the value.
    pub decor: toml_edit::Decor,
    /// The value as it is once its decoration is cleared.
    pub bare: toml_edit::Value,
}

/// An inline table.
pub struct InlineTableView {
    /// Whitespace and comments before and after the table.
    pub decor: toml_edit::Decor,
    /// The table as `InlineTable::fmt` leaves it, its own decoration cleared.
    pub canonical: toml_edit::InlineTable,
    /// `None` where the spacing of the pairs is already the canonical one;
    /// else the table as it is, its own decoration cleared.
    pub spacing: Option<toml_edit::InlineTable>,
}

/// An array of values.
pub struct ArrayView {
    /// Whitespace and comments before `[` and after `]`.
    pub decor: toml_edit::Decor,
    /// One slot per element; `None` for a placeholder that holds no value.
    pub elems: Seq<Option<ValueView>>,
    /// Whether a comma follows the last element.
    pub trailing_comma: bool,
    /// What stands between the last element (or its comma) and `]`.
    pub trailing: toml_edit::RawString,
}

/// The right-hand side of a key/value pair, or an element of an array.
pub enum ValueView {
    Scalar(ScalarView),
    InlineTable(InlineTableView),
    Array(ArrayView),
}

/// What a table holds under one key.
pub enum ItemView {
    /// Nothing: an empty slot.
    Absent,
    Value(ValueView),
    Table(TableView),
    /// The tables of repeated `[[section]]` blocks, in source order; `None`
    /// for a slot that holds no table.
    ArrayOfTables(Seq<Option<TableView>>),
}

/// A key as written, with its decoration, and what it is bound to.
pub struct EntryView {
    pub key: toml_edit::Key,
    pub item: ItemView,
}

/// A table: its keys in iteration order, and the entry under each key. Empty
/// slots are not part of it.
pub struct TableView {
    pub keys: Seq<Seq<char>>,
    pub entries: Map<Seq<char>, EntryView>,
    /// Whether the table stands for the prefix of dotted keys.
    pub dotted: bool,
    /// Whether the table's header is left out where the table has no pairs
    /// of its own.
    pub implicit: bool,
    /// The place of the table's header among the headers of the document.
    pub position: Option<usize>,
    /// Whitespace and comments around the table's header.
    pub decor: toml_edit::Decor,
}

/// A document: its root, and what follows the last line of it.
pub struct DocumentView {
    pub root: ItemView,
    /// Whitespace and comments after the last table or pair.
    pub trailing: toml_edit::RawString,
}

impl ItemView {
    /// Every table of the tree binds finitely many keys.
    pub open spec fn finite(self) -> bool
        decreases self,
    {
        match self {
            ItemView::Table(t) => t.finite(),
            ItemView::ArrayOfTables(ts) => forall|i: int|
                0 <= i < ts.len() ==> (#[trigger] ts[i] matches Some(t) ==> t.finite()),
            _ => true,
        }
    }

    /// Every table of the tree has its keys in lexicographic order.
    pub open spec fn sorted(self) -> bool
        decreases self,
    {
        match self {
            ItemView::Table(t) => t.sorted(),
            ItemView::ArrayOfTables(ts) => forall|i: int|
                0 <= i < ts.len() ==> (#[trigger] ts[i] matches Some(t) ==> t.sorted()),
            _ => true,
        }
    }

    /// `other` is of the same kind, and every table in it has its keys in
    /// the order they have here.
    pub open spec fn same_key_order(self, other: ItemView) -> bool
        decreases self,
    {
        match (self, other) {
            (ItemView::Table(a), ItemView::Table(b)) => a.same_key_order(b),
            (ItemView::ArrayOfTables(xs), ItemView::ArrayOfTables(ys)) => {
                &&& xs.len() == ys.len()
                &&& forall|i: int|
                    0 <= i < xs.len() ==> match (#[trigger] xs[i], ys[i]) {
                        (Some(a), Some(b)) => a.same_key_order(b),
                        (None, None) => true,
                        _ => false,
                    }
            },
            (ItemView::Value(_), ItemView::Value(_)) => true,
            (ItemView::Absent, ItemView::Absent) => true,
            _ => false,
        }
    }

    /// `other` is of the same kind as this item, with the same frame: an
    /// array of tables has the same tables in the same order, and a value
    /// has the same decoration.
    pub open spec fn same_frame(self, other: ItemView) -> bool
        decreases self,
    {
        match (self, other) {
            (ItemView::Table(a), ItemView::Table(b)) => a.same_frame(b),
            (ItemView::ArrayOfTables(xs), ItemView::ArrayOfTables(ys)) => {
                &&& xs.len() == ys.len()
                &&& forall|i: int|
                    0 <= i < xs.len() ==> match (#[trigger] xs[i], ys[i]) {
                        (Some(a), Some(b)) => a.same_frame(b),
                        (None, None) => true,
                        _ => false,
                    }
            },
            (ItemView::Value(a), ItemView::Value(b)) => a.decor() == b.decor(),
            (ItemView::Absent, ItemView::Absent) => true,
            _ => false,
        }
    }
}

impl ValueView {
    /// The decoration around the value.
    pub open spec fn decor(self) -> toml_edit::Decor {
        match self {
            ValueView::Scalar(s) => s.decor,
            ValueView::InlineTable(t) => t.decor,
            ValueView::Array(a) => a.decor,
        }
    }

    /// The same value inside another decoration.
    pub open spec fn with_decor(self, decor: toml_edit::Decor) -> ValueView {
        match self {
            ValueView::Scalar(s) => ValueView::Scalar(ScalarView { decor, ..s }),
            ValueView::InlineTable(t) => ValueView::InlineTable(InlineTableView { decor, ..t }),
            ValueView::Array(a) => ValueView::Array(ArrayView { decor, ..a }),
        }
    }
}

impl ArrayView {
    /// Whether no value stands before slot `i`.
    pub open spec fn leading(self, i: int) -> bool {
        forall|j: int| 0 <= j < i ==> self.elems[j] is None
    }

    /// The array laid out on one line: nothing around its first value, one
    /// space before each other value, no trailing comma, and nothing before
    /// the closing bracket.
    pub open spec fn one_line(self) -> ArrayView {
        ArrayView {
            elems: Seq::new(
                self.elems.len(),
                |i: int|
                    match self.elems[i] {
                        Some(e) => Some(
                            e.with_decor(
                                if self.leading(i) {
                                    decor_of(""@, ""@)
                                } else {
                                    decor_of(" "@, ""@)
                                },
                            ),
                        ),
                        None => None,
                    },
            ),
            trailing_comma: false,
            trailing: raw_of(""@),
            ..self
        }
    }

    /// The array laid out with one value per line: each value on a new line
    /// behind four spaces, a comma after the last value, and the closing
    /// bracket on a line of its own.
    pub open spec fn one_per_line(self) -> ArrayView {
        ArrayView {
            elems: Seq::new(
                self.elems.len(),
                |i: int|
                    match self.elems[i] {
                        Some(e) => Some(e.with_decor(decor_of("\n    "@, ""@))),
                        None => None,
                    },
            ),
            trailing_comma: true,
            trailing: raw_of("\n"@),
            ..self
        }
    }
}

impl TableView {
    /// Whether `key` is bound in the table.
    pub open spec fn has(self, key: Seq<char>) -> bool {
        self.entries.dom().finite() && self.entries.dom().contains(key)
    }

    /// Every table of the tree binds finitely many keys, as every table
    /// that `toml_edit` builds does.
    pub open spec fn finite(self) -> bool
        decreases self,
    {
        &&& self.entries.dom().finite()
        &&& forall|k: Seq<char>| #[trigger] self.has(k) ==> self.entries[k].item.finite()
    }

    /// Every table of the tree has its keys in lexicographic order.
    pub open spec fn sorted(self) -> bool
        decreases self,
    {
        &&& sorted_by(self.keys, key_order())
        &&& forall|k: Seq<char>| #[trigger] self.has(k) ==> self.entries[k].item.sorted()
    }

    /// `other` has the keys of this table in the same order, and so has every
    /// table below it.
    pub open spec fn same_key_order(self, other: TableView) -> bool
        decreases self,
    {
        &&& self.keys == other.keys
        &&& self.entries.dom() == other.entries.dom()
        &&& forall|k: Seq<char>| #[trigger]
            self.has(k) ==> self.entries[k].item.same_key_order(other.entries[k].item)
    }

    /// `other` is this table with nothing but the order of its keys and the
    /// inside of its values changed: it has the header of this table, with
    /// its decoration and in its place, and the keys of this table, each as
    /// it is written here with its decoration; under each key, a value has
    /// the decoration it has here, and a table or an array of tables has
    /// the frame it has here.
    pub open spec fn same_frame(self, other: TableView) -> bool
        decreases self,
    {
        &&& self.decor == other.decor
        &&& self.position == other.position
        &&& self.implicit == other.implicit
        &&& self.dotted == other.dotted
        &&& self.keys.to_multiset() == other.keys.to_multiset()
        &&& self.entries.dom() == other.entries.dom()
        &&& forall|k: Seq<char>| #[trigger]
            self.has(k) ==> {
                &&& self.entries[k].key == other.entries[k].key
                &&& self.entries[k].item.same_frame(other.entries[k].item)
            }
    }

    /// The keys are distinct and are exactly the bound ones.
    pub open spec fn well_formed(self) -> bool {
        &&& self.keys.no_duplicates()
        &&& self.keys.to_set() == self.entries.dom()
    }

    /// The table with `item` bound to `key`, which keeps its place and its
    /// decoration.
    pub open spec fn with_item(self, key: Seq<char>, item: ItemView) -> TableView {
        TableView {
            entries: self.entries.insert(key, EntryView { key: self.entries[key].key, item }),
            ..self
        }
    }
}

/// What sorting does to an item: a table that stands for dotted keys is
/// sorted with its parent, anything else is left as it is.
pub open spec fn sorted_item(item: ItemView, leq: spec_fn(Seq<char>, Seq<char>) -> bool) -> ItemView
    decreases item, 0int,
{
    match item {
        ItemView::Table(t) => if t.dotted {
            ItemView::Table(sorted_values(t, leq))
        } else {
            item
        },
        _ => item,
    }
}

/// The table with its keys put in the order `leq`. Each entry goes with its
/// key; the tables of dotted keys below it are sorted likewise.
pub open spec fn sorted_values(t: TableView, leq: spec_fn(Seq<char>, Seq<char>) -> bool) -> TableView
    decreases t, 1int,
{
    TableView {
        keys: t.keys.sort_by(leq),
        entries: Map::new(
            |k: Seq<char>| t.entries.dom().contains(k),
            |k: Seq<char>|
                if t.has(k) {
                    EntryView { key: t.entries[k].key, item: sorted_item(t.entries[k].item, leq) }
                } else {
                    t.entries[k]
                },
        ),
        ..t
    }
}

} // verus!
