//! The canonicaliser: it walks a document tree and puts each table and value
//! into its canonical layout.
use vstd::prelude::*;
use crate::adapter::{
    array_set_trailing, array_view, decor_new, document_text, document_view, item_view,
    parse_document, parse_error_text, parsed, rendered, str_eq, table_key_names,
    table_sort_values_default_first, table_view, tables_view, value_view,
};
use crate::config::FormatConfig;
use crate::error::FormatError;
use crate::order::{default_first_order, key_order};
use crate::tree::{
    sorted_values, ArrayView, DocumentView, EntryView, InlineTableView, ItemView, TableView,
    ValueView,
};

verus! {

/// The canonical layout of a value: an array on one line, an inline table with
/// its spacing reset, a scalar as it is.
pub open spec fn canon_value(v: ValueView) -> ValueView {
    match v {
        ValueView::Array(a) => ValueView::Array(a.one_line()),
        ValueView::InlineTable(t) => ValueView::InlineTable(
            InlineTableView { spacing: None, ..t },
        ),
        ValueView::Scalar(_) => v,
    }
}

/// The name of a table, as contracts speak of it.
pub open spec fn name_view(name: Option<&str>) -> Option<Seq<char>> {
    match name {
        Some(n) => Some(n@),
        None => None,
    }
}

/// Whether `key`, in a table called `name`, is the member list of a workspace.
pub open spec fn is_workspace_members(name: Option<Seq<char>>, key: Seq<char>) -> bool {
    name == Some("workspace"@) && key == "members"@
}

/// The canonical form of what stands under `key` in a table called `name`:
/// a table or an array of tables is canonicalised under the name `key`, the
/// member list of a workspace is laid out with one member per line, and any
/// other value gets its canonical layout.
pub open spec fn canon_item(
    item: ItemView,
    config: FormatConfig,
    name: Option<Seq<char>>,
    key: Seq<char>,
) -> ItemView
    decreases item,
{
    match item {
        ItemView::Table(t) => ItemView::Table(canon_table(t, config, Some(key))),
        ItemView::ArrayOfTables(ts) => ItemView::ArrayOfTables(canon_tables(ts, config, Some(key))),
        ItemView::Value(v) => ItemView::Value(
            match v {
                ValueView::Array(a) if is_workspace_members(name, key) => ValueView::Array(
                    a.one_per_line(),
                ),
                _ => canon_value(v),
            },
        ),
        ItemView::Absent => item,
    }
}

/// The canonical form of the tables of repeated blocks: each table is
/// canonicalised where it stands.
pub open spec fn canon_tables(
    ts: Seq<Option<TableView>>,
    config: FormatConfig,
    name: Option<Seq<char>>,
) -> Seq<Option<TableView>>
    decreases ts,
{
    Seq::new(
        ts.len(),
        |i: int|
            if 0 <= i < ts.len() {
                match ts[i] {
                    Some(t) => Some(canon_table(t, config, name)),
                    None => None,
                }
            } else {
                None
            },
    )
}

/// A table called `name` with each of its entries canonicalised, and the keys
/// in the order they had.
pub open spec fn canon_entries(
    t: TableView,
    config: FormatConfig,
    name: Option<Seq<char>>,
) -> TableView
    decreases t, 0int,
{
    TableView {
        entries: Map::new(
            |k: Seq<char>| t.entries.dom().contains(k),
            |k: Seq<char>|
                if t.has(k) {
                    EntryView {
                        key: t.entries[k].key,
                        item: canon_item(t.entries[k].item, config, name, k),
                    }
                } else {
                    t.entries[k]
                },
        ),
        ..t
    }
}

/// The canonical form of a table called `name`: its entries are
/// canonicalised, and then its keys are sorted if the policy says so.
pub open spec fn canon_table(
    t: TableView,
    config: FormatConfig,
    name: Option<Seq<char>>,
) -> TableView
    decreases t, 1int,
{
    if config.sort_keys {
        sorted_values(canon_entries(t, config, name), key_order())
    } else {
        canon_entries(t, config, name)
    }
}

/// The canonical form of what stands under `key` at the root of a document:
/// `package` is left as it is; anything else is canonicalised as in a table
/// without a name, and a `features` table then gets `default` as its first
/// key and its other keys in lexicographic order.
pub open spec fn canon_root_item(item: ItemView, config: FormatConfig, key: Seq<char>) -> ItemView {
    if key == "package"@ {
        item
    } else if key == "features"@ {
        match canon_item(item, config, None, key) {
            ItemView::Table(t) => ItemView::Table(sorted_values(t, default_first_order())),
            other => other,
        }
    } else {
        canon_item(item, config, None, key)
    }
}

/// The canonical form of the root table of a document: each entry is
/// canonicalised where it stands; the order of the keys is kept.
pub open spec fn canon_root(t: TableView, config: FormatConfig) -> TableView {
    TableView {
        entries: Map::new(
            |k: Seq<char>| t.entries.dom().contains(k),
            |k: Seq<char>|
                EntryView {
                    key: t.entries[k].key,
                    item: canon_root_item(t.entries[k].item, config, k),
                },
        ),
        ..t
    }
}

/// The canonical form of the root item of a document.
pub open spec fn canon_root_of(root: ItemView, config: FormatConfig) -> ItemView {
    match root {
        ItemView::Table(t) => ItemView::Table(canon_root(t, config)),
        _ => root,
    }
}

/// The canonical form of a document: its root is canonicalised, and what
/// follows its last line is kept.
pub open spec fn canon_document(doc: DocumentView, config: FormatConfig) -> DocumentView {
    DocumentView { root: canon_root_of(doc.root, config), ..doc }
}

/// Puts a value into its canonical layout.
pub fn fmt_value(value: &mut toml_edit::Value) -> (res: Result<(), FormatError>)
    ensures
        res is Ok,
        value_view(*final(value)) == canon_value(value_view(*old(value))),
{
    match value.as_array_mut() {
        Some(array) => {
            array.fmt();
        },
        None => {
            match value.as_inline_table_mut() {
                Some(table) => {
                    table.fmt();
                },
                None => {},
            }
        },
    }
    Ok(())
}

/// Lays an array out with one value per line.
pub fn fmt_one_per_line(array: &mut toml_edit::Array)
    ensures
        array_view(*final(array)) == array_view(*old(array)).one_per_line(),
{
    let len = array.len();
    let ghost before = array_view(*array);
    let mut i: usize = 0;
    while i < len
        invariant
            i <= len,
            len == before.elems.len(),
            array_view(*array) == (ArrayView { elems: array_view(*array).elems, ..before }),
            array_view(*array).elems.len() == before.elems.len(),
            forall|j: int|
                0 <= j < i ==> array_view(*array).elems[j] == before.one_per_line().elems[j],
            forall|j: int| i <= j < len ==> array_view(*array).elems[j] == before.elems[j],
        decreases len - i,
    {
        match array.get_mut(i) {
            Some(value) => {
                let decor = value.decor_mut();
                *decor = decor_new("\n    ", "");
            },
            None => {},
        }
        i += 1;
    }
    array.set_trailing_comma(true);
    array_set_trailing(array, "\n");
    assert(array_view(*array).elems =~= before.one_per_line().elems);
}

/// Whether `key`, in a table called `name`, is the member list of a workspace.
fn names_workspace_members(name: Option<&str>, key: &str) -> (res: bool)
    ensures
        res == is_workspace_members(name_view(name), key@),
{
    match name {
        Some(n) => str_eq(n, "workspace") && str_eq(key, "members"),
        None => false,
    }
}

/// Canonicalises the tables of repeated blocks, each where it stands. `name`
/// is the key under which they stand.
pub fn fmt_array_of_tables(
    tables: &mut toml_edit::ArrayOfTables,
    config: &FormatConfig,
    name: Option<&str>,
) -> (res: Result<(), FormatError>)
    ensures
        res is Ok,
        tables_view(*final(tables)) == canon_tables(
            tables_view(*old(tables)),
            *config,
            name_view(name),
        ),
    decreases tables_view(*old(tables)),
{
    let len = tables.len();
    let ghost before = tables_view(*tables);
    let mut idx: usize = 0;
    while idx < len
        invariant
            idx <= len,
            len == before.len(),
            before == tables_view(*old(tables)),
            tables_view(*tables).len() == before.len(),
            forall|j: int|
                0 <= j < idx ==> tables_view(*tables)[j] == canon_tables(
                    before,
                    *config,
                    name_view(name),
                )[j],
            forall|j: int| idx <= j < len ==> tables_view(*tables)[j] == before[j],
        decreases len - idx,
    {
        match tables.get_mut(idx) {
            Some(table) => {
                proof {
                    let slot = before[idx as int];
                    assert(decreases_to!(before => slot));
                    assert(decreases_to!(slot => slot->0));
                }
                let _ = fmt_table(table, config, name);
            },
            None => {},
        }
        idx += 1;
    }
    assert(tables_view(*tables) =~= canon_tables(before, *config, name_view(name)));
    Ok(())
}

/// Canonicalises what stands under `key` in a table called `name`.
pub fn fmt_item(
    item: &mut toml_edit::Item,
    config: &FormatConfig,
    name: Option<&str>,
    key: &str,
) -> (res: Result<(), FormatError>)
    ensures
        res is Ok,
        item_view(*final(item)) == canon_item(item_view(*old(item)), *config, name_view(name), key@),
    decreases item_view(*old(item)),
{
    match item.as_table_mut() {
        Some(table) => fmt_table(table, config, Some(key)),
        None => match item.as_array_of_tables_mut() {
            Some(tables) => fmt_array_of_tables(tables, config, Some(key)),
            None => match item.as_value_mut() {
                Some(value) => {
                    if names_workspace_members(name, key) {
                        match value.as_array_mut() {
                            Some(array) => {
                                fmt_one_per_line(array);
                                Ok(())
                            },
                            None => fmt_value(value),
                        }
                    } else {
                        fmt_value(value)
                    }
                },
                None => Ok(()),
            },
        },
    }
}

/// Canonicalises a table called `name`: each entry in turn, in the order the
/// keys had at the start, and then the order of the keys. What is special
/// about the root of a document is left to `fmt_root`.
pub fn fmt_table(
    table: &mut toml_edit::Table,
    config: &FormatConfig,
    name: Option<&str>,
) -> (res: Result<(), FormatError>)
    ensures
        res is Ok,
        table_view(*final(table)) == canon_table(table_view(*old(table)), *config, name_view(name)),
    decreases table_view(*old(table)),
{
    let keys = table_key_names(table);
    let ghost before = table_view(*table);
    proof {
        vstd::seq_lib::seq_to_set_is_finite(before.keys);
    }
    let mut i: usize = 0;
    while i < keys.len()
        invariant
            i <= keys.len(),
            before == table_view(*old(table)),
            keys.deep_view() == before.keys,
            before.well_formed(),
            before.entries.dom().finite(),
            table_view(*table) == (TableView { entries: table_view(*table).entries, ..before }),
            table_view(*table).entries.dom() == before.entries.dom(),
            forall|j: int|
                0 <= j < i ==> table_view(*table).entries[#[trigger] before.keys[j]]
                    == canon_entries(before, *config, name_view(name)).entries[before.keys[j]],
            forall|j: int|
                i <= j < keys.len() ==> table_view(*table).entries[#[trigger] before.keys[j]]
                    == before.entries[before.keys[j]],
        decreases keys.len() - i,
    {
        let key = keys[i].as_str();
        proof {
            assert(key@ == before.keys[i as int]);
            assert(before.keys.to_set().contains(key@));
        }
        match table.get_mut(key) {
            Some(item) => {
                assert(decreases_to!(before.entries => before.entries[key@]));
                let _ = fmt_item(item, config, name, key);
            },
            None => {},
        }
        i += 1;
    }
    assert(table_view(*table).entries =~= canon_entries(
        before,
        *config,
        name_view(name),
    ).entries);
    if config.sort_keys {
        table.sort_values();
    }
    Ok(())
}

/// Canonicalises what stands under `key` at the root of a document.
pub fn fmt_root_item(item: &mut toml_edit::Item, config: &FormatConfig, key: &str) -> (res: Result<
    (),
    FormatError,
>)
    ensures
        res is Ok,
        item_view(*final(item)) == canon_root_item(item_view(*old(item)), *config, key@),
{
    if str_eq(key, "package") {
        return Ok(());
    }
    let _ = fmt_item(item, config, None, key);
    if str_eq(key, "features") {
        match item.as_table_mut() {
            Some(table) => {
                table_sort_values_default_first(table);
            },
            None => {},
        }
    }
    Ok(())
}

/// Canonicalises the root table of a document: each entry in turn, in the
/// order of the keys, which is kept.
pub fn fmt_root(table: &mut toml_edit::Table, config: &FormatConfig) -> (res: Result<
    (),
    FormatError,
>)
    ensures
        res is Ok,
        table_view(*final(table)) == canon_root(table_view(*old(table)), *config),
{
    let keys = table_key_names(table);
    let ghost before = table_view(*table);
    let mut i: usize = 0;
    while i < keys.len()
        invariant
            i <= keys.len(),
            keys.deep_view() == before.keys,
            before.well_formed(),
            table_view(*table) == (TableView { entries: table_view(*table).entries, ..before }),
            table_view(*table).entries.dom() == before.entries.dom(),
            forall|j: int|
                0 <= j < i ==> table_view(*table).entries[#[trigger] before.keys[j]] == canon_root(
                    before,
                    *config,
                ).entries[before.keys[j]],
            forall|j: int|
                i <= j < keys.len() ==> table_view(*table).entries[#[trigger] before.keys[j]]
                    == before.entries[before.keys[j]],
        decreases keys.len() - i,
    {
        let key = keys[i].as_str();
        proof {
            assert(key@ == before.keys[i as int]);
            assert(before.keys.to_set().contains(key@));
        }
        match table.get_mut(key) {
            Some(item) => {
                let _ = fmt_root_item(item, config, key);
            },
            None => {},
        }
        i += 1;
    }
    assert(table_view(*table).entries =~= canon_root(before, *config).entries);
    Ok(())
}

/// Canonicalises a document in place.
pub fn fmt_document(doc: &mut toml_edit::DocumentMut, config: &FormatConfig) -> (res: Result<
    (),
    FormatError,
>)
    ensures
        res is Ok,
        document_view(*final(doc)) == canon_document(document_view(*old(doc)), *config),
{
    match doc.as_item_mut().as_table_mut() {
        Some(root) => fmt_root(root, config),
        None => Ok(()),
    }
}

/// What `fmt_toml` gives for a text: the message of the parser where the
/// text is not valid TOML, else the text that the canonical form of the
/// parsed document is written out as.
pub open spec fn formats_to(
    text: Seq<char>,
    config: FormatConfig,
    res: Result<String, FormatError>,
) -> bool {
    match parsed(text) {
        Ok(doc) => res matches Ok(out) && out@ == rendered(canon_document(doc, config)),
        Err(message) => res matches Err(FormatError::Parse(m)) && m@ == message,
    }
}

/// Parses a manifest, canonicalises it and writes it out again. Fails if and
/// only if the text is not valid TOML.
pub fn fmt_toml(text: &str, config: &FormatConfig) -> (res: Result<String, FormatError>)
    ensures
        formats_to(text@, *config, res),
{
    match parse_document(text) {
        Ok(mut doc) => {
            let _ = fmt_document(&mut doc, config);
            Ok(document_text(&doc))
        },
        Err(e) => Err(FormatError::Parse(parse_error_text(&e))),
    }
}

} // verus!
