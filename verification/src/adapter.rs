//! The boundary to `toml_edit`: its types, names for what its values hold, and
//! what this library relies on of the methods it calls. Nothing in this file
//! is proved; each contract is read off the source of `toml_edit`.
use vstd::prelude::*;
use crate::order::{default_first, default_first_order, key_le, key_order};
use crate::tree::{
    sorted_values, ArrayView, DocumentView, InlineTableView, ItemView, TableView, ValueView,
};

verus! {

#[verifier::external_type_specification]
#[verifier::external_body]
pub struct ExDocumentMut(toml_edit::DocumentMut);

#[verifier::external_type_specification]
#[verifier::external_body]
pub struct ExTable(toml_edit::Table);

#[verifier::external_type_specification]
#[verifier::external_body]
pub struct ExArrayOfTables(toml_edit::ArrayOfTables);

#[verifier::external_type_specification]
#[verifier::external_body]
pub struct ExItem(toml_edit::Item);

#[verifier::external_type_specification]
#[verifier::external_body]
pub struct ExValue(toml_edit::Value);

#[verifier::external_type_specification]
#[verifier::external_body]
pub struct ExArray(toml_edit::Array);

#[verifier::external_type_specification]
#[verifier::external_body]
pub struct ExInlineTable(toml_edit::InlineTable);

#[verifier::external_type_specification]
#[verifier::external_body]
pub struct ExKey(toml_edit::Key);

#[verifier::external_type_specification]
#[verifier::external_body]
pub struct ExDecor(toml_edit::Decor);

#[verifier::external_type_specification]
#[verifier::external_body]
pub struct ExRawString(toml_edit::RawString);

#[verifier::external_type_specification]
#[verifier::external_body]
pub struct ExTomlError(toml_edit::TomlError);

/// What a document holds.
pub uninterp spec fn document_view(doc: toml_edit::DocumentMut) -> DocumentView;

/// What a table holds: the pairs that `Table::iter` walks, in its order.
pub uninterp spec fn table_view(table: toml_edit::Table) -> TableView;

/// What an item holds.
pub uninterp spec fn item_view(item: toml_edit::Item) -> ItemView;

/// The slots of an array of tables, in order.
pub uninterp spec fn tables_view(tables: toml_edit::ArrayOfTables) -> Seq<Option<TableView>>;

/// What a value holds.
pub uninterp spec fn value_view(value: toml_edit::Value) -> ValueView;

/// What an array holds.
pub uninterp spec fn array_view(array: toml_edit::Array) -> ArrayView;

/// What an inline table holds.
pub uninterp spec fn inline_table_view(table: toml_edit::InlineTable) -> InlineTableView;

/// The boolean that a scalar holds, if it is one: what `Value::as_bool` gives.
pub uninterp spec fn scalar_bool(bare: toml_edit::Value) -> Option<bool>;

/// The text that a scalar holds, if it is a string: what `Value::as_str`
/// gives.
pub uninterp spec fn scalar_str(bare: toml_edit::Value) -> Option<Seq<char>>;

/// The decoration that `Decor::new` makes of a prefix and a suffix.
pub uninterp spec fn decor_of(prefix: Seq<char>, suffix: Seq<char>) -> toml_edit::Decor;

/// The raw string that `RawString::from` makes of a text.
pub uninterp spec fn raw_of(text: Seq<char>) -> toml_edit::RawString;

/// The message of a parse error, as shown to the user.
pub uninterp spec fn error_text(error: toml_edit::TomlError) -> Seq<char>;

/// What parsing a text as a document gives: what the document holds, or the
/// message of the error.
pub uninterp spec fn parsed(text: Seq<char>) -> Result<DocumentView, Seq<char>>;

/// The text that a document is written out as. Writing a document out reads
/// nothing of it but what its view holds: the tables with their headers,
/// places and decoration, the keys in their order, and the values with their
/// decoration.
pub uninterp spec fn rendered(doc: DocumentView) -> Seq<char>;

/// `==` on string slices: whether the two hold the same text.
#[verifier::external_body]
pub(crate) fn str_eq(a: &str, b: &str) -> (same: bool)
    ensures
        same == (a@ == b@),
{
    a == b
}

/// `<` on string slices: whether `a` comes before `b` in lexicographic order.
#[verifier::external_body]
pub(crate) fn str_lt(a: &str, b: &str) -> (less: bool)
    ensures
        less == (a@ != b@ && key_le(a@, b@)),
{
    a < b
}

/// What the outcome of parsing holds: what the document holds, or the
/// message of the error.
pub open spec fn outcome_view(res: Result<toml_edit::DocumentMut, toml_edit::TomlError>) -> Result<
    DocumentView,
    Seq<char>,
> {
    match res {
        Ok(doc) => Ok(document_view(doc)),
        Err(error) => Err(error_text(error)),
    }
}

/// `str::parse` into a `DocumentMut`. The root of a parsed document is a
/// table.
#[verifier::external_body]
pub(crate) fn parse_document(text: &str) -> (res: Result<
    toml_edit::DocumentMut,
    toml_edit::TomlError,
>)
    ensures
        parsed(text@) == outcome_view(res),
        res matches Ok(doc) ==> document_view(doc).root is Table,
{
    text.parse::<toml_edit::DocumentMut>()
}

/// `DocumentMut::as_item`: the root item.
pub assume_specification[ toml_edit::DocumentMut::as_item ](doc: &toml_edit::DocumentMut) -> (res:
    &toml_edit::Item)
    ensures
        item_view(*res) == document_view(*doc).root,
;

/// `DocumentMut::as_item_mut`: the root item. What the caller leaves there is
/// the root afterwards; nothing else of the document changes.
pub assume_specification[ toml_edit::DocumentMut::as_item_mut ](
    doc: &mut toml_edit::DocumentMut,
) -> (res: &mut toml_edit::Item)
    ensures
        item_view(*res) == document_view(*old(doc)).root,
        document_view(*final(doc)) == (DocumentView {
            root: item_view(*final(res)),
            ..document_view(*old(doc))
        }),
;

/// `to_string` on a document. It panics unless the root is a table.
#[verifier::external_body]
pub(crate) fn document_text(doc: &toml_edit::DocumentMut) -> (text: String)
    requires
        document_view(*doc).root is Table,
    ensures
        text@ == rendered(document_view(*doc)),
{
    doc.to_string()
}

/// `to_string` on a parse error.
#[verifier::external_body]
pub(crate) fn parse_error_text(error: &toml_edit::TomlError) -> (text: String)
    ensures
        text@ == error_text(*error),
{
    error.to_string()
}

/// `Table::iter`, keeping the keys. The keys come in the table's order; no key
/// comes twice, and the keys are exactly those under which the table holds
/// something.
#[verifier::external_body]
pub(crate) fn table_key_names(table: &toml_edit::Table) -> (names: Vec<String>)
    ensures
        names.deep_view() == table_view(*table).keys,
        names.deep_view().no_duplicates(),
        names.deep_view().to_set() == table_view(*table).entries.dom(),
{
    table.iter().map(|(key, _)| key.to_owned()).collect()
}

/// `Table::get`: the item under `key`, if the table holds one.
pub assume_specification<'a>[ toml_edit::Table::get ](
    table: &'a toml_edit::Table,
    key: &str,
) -> (res: Option<&'a toml_edit::Item>)
    ensures
        res.is_some() == table_view(*table).entries.dom().contains(key@),
        res.is_some() ==> item_view(*res.unwrap()) == table_view(*table).entries[key@].item,
;

/// `Table::get_mut`: the item under `key`, if the table holds one. What the
/// caller leaves there takes the old item's place, as long as it is not the
/// empty item.
pub assume_specification<'a>[ toml_edit::Table::get_mut ](
    table: &'a mut toml_edit::Table,
    key: &str,
) -> (res: Option<&'a mut toml_edit::Item>)
    ensures
        res.is_some() == table_view(*old(table)).entries.dom().contains(key@),
        res.is_some() ==> item_view(*res.unwrap()) == table_view(*old(table)).entries[key@].item,
        res.is_some() ==> item_view(*res.unwrap()) !is Absent,
        res.is_some() && item_view(*final(res.unwrap())) !is Absent ==> table_view(*final(table))
            == table_view(*old(table)).with_item(key@, item_view(*final(res.unwrap()))),
        res.is_none() ==> table_view(*final(table)) == table_view(*old(table)),
;

/// `Table::sort_values`: the keys go in lexicographic order, each entry with
/// its key, and so in the tables of dotted keys below.
pub assume_specification[ toml_edit::Table::sort_values ](table: &mut toml_edit::Table)
    ensures
        table_view(*final(table)) == sorted_values(table_view(*old(table)), key_order()),
;

/// `Table::sort_values_by`, comparing keys with `default_first`: the keys go in
/// that order, each entry with its key, and so in the tables of dotted keys
/// below.
#[verifier::external_body]
pub(crate) fn table_sort_values_default_first(table: &mut toml_edit::Table)
    ensures
        table_view(*final(table)) == sorted_values(table_view(*old(table)), default_first_order()),
{
    table.sort_values_by(|k1, _, k2, _| default_first(k1.get(), k2.get()))
}

/// `Item::as_table`: the table, if the item is one.
pub assume_specification[ toml_edit::Item::as_table ](item: &toml_edit::Item) -> (res: Option<
    &toml_edit::Table,
>)
    ensures
        res.is_some() == (item_view(*item) is Table),
        res.is_some() ==> item_view(*item) == ItemView::Table(table_view(*res.unwrap())),
;

/// `Item::as_table_mut`: the table, if the item is one.
pub assume_specification[ toml_edit::Item::as_table_mut ](item: &mut toml_edit::Item) -> (res:
    Option<&mut toml_edit::Table>)
    ensures
        res.is_some() == (item_view(*old(item)) is Table),
        res.is_some() ==> item_view(*old(item)) == ItemView::Table(table_view(*res.unwrap())),
        res.is_some() ==> item_view(*final(item)) == ItemView::Table(
            table_view(*final(res.unwrap())),
        ),
        res.is_none() ==> item_view(*final(item)) == item_view(*old(item)),
;

/// `Item::as_array_of_tables_mut`: the array of tables, if the item is one.
pub assume_specification[ toml_edit::Item::as_array_of_tables_mut ](
    item: &mut toml_edit::Item,
) -> (res: Option<&mut toml_edit::ArrayOfTables>)
    ensures
        res.is_some() == (item_view(*old(item)) is ArrayOfTables),
        res.is_some() ==> item_view(*old(item)) == ItemView::ArrayOfTables(
            tables_view(*res.unwrap()),
        ),
        res.is_some() ==> item_view(*final(item)) == ItemView::ArrayOfTables(
            tables_view(*final(res.unwrap())),
        ),
        res.is_none() ==> item_view(*final(item)) == item_view(*old(item)),
;

/// `Item::as_value`: the value, if the item is one.
pub assume_specification[ toml_edit::Item::as_value ](item: &toml_edit::Item) -> (res: Option<
    &toml_edit::Value,
>)
    ensures
        res.is_some() == (item_view(*item) is Value),
        res.is_some() ==> item_view(*item) == ItemView::Value(value_view(*res.unwrap())),
;

/// `Item::as_value_mut`: the value, if the item is one.
pub assume_specification[ toml_edit::Item::as_value_mut ](item: &mut toml_edit::Item) -> (res:
    Option<&mut toml_edit::Value>)
    ensures
        res.is_some() == (item_view(*old(item)) is Value),
        res.is_some() ==> item_view(*old(item)) == ItemView::Value(value_view(*res.unwrap())),
        res.is_some() ==> item_view(*final(item)) == ItemView::Value(
            value_view(*final(res.unwrap())),
        ),
        res.is_none() ==> item_view(*final(item)) == item_view(*old(item)),
;

/// `ArrayOfTables::len`: the number of slots.
pub assume_specification[ toml_edit::ArrayOfTables::len ](
    tables: &toml_edit::ArrayOfTables,
) -> (len: usize)
    ensures
        len == tables_view(*tables).len(),
;

/// `ArrayOfTables::get_mut`: the table in slot `index`, if there is one. No
/// other slot changes.
pub assume_specification[ toml_edit::ArrayOfTables::get_mut ](
    tables: &mut toml_edit::ArrayOfTables,
    index: usize,
) -> (res: Option<&mut toml_edit::Table>)
    ensures
        res.is_some() == (index < tables_view(*old(tables)).len() && tables_view(
            *old(tables),
        )[index as int] is Some),
        res.is_some() ==> tables_view(*old(tables))[index as int] == Some(
            table_view(*res.unwrap()),
        ),
        res.is_some() ==> tables_view(*final(tables)) == tables_view(*old(tables)).update(
            index as int,
            Some(table_view(*final(res.unwrap()))),
        ),
        res.is_none() ==> tables_view(*final(tables)) == tables_view(*old(tables)),
;

/// `Value::as_bool`: the boolean, if the value is one.
pub assume_specification[ toml_edit::Value::as_bool ](value: &toml_edit::Value) -> (res: Option<
    bool,
>)
    ensures
        res == (match value_view(*value) {
            ValueView::Scalar(s) => scalar_bool(s.bare),
            _ => None,
        }),
;

/// `Value::as_str`: the text, if the value is a string.
pub assume_specification[ toml_edit::Value::as_str ](value: &toml_edit::Value) -> (res: Option<
    &str,
>)
    ensures
        (match res {
            Some(text) => Some(text@),
            None => None,
        }) == (match value_view(*value) {
            ValueView::Scalar(s) => scalar_str(s.bare),
            _ => None,
        }),
;

/// `Value::as_array`: the array, if the value is one.
pub assume_specification[ toml_edit::Value::as_array ](value: &toml_edit::Value) -> (res: Option<
    &toml_edit::Array,
>)
    ensures
        res.is_some() == (value_view(*value) is Array),
        res.is_some() ==> value_view(*value) == ValueView::Array(array_view(*res.unwrap())),
;

/// `Value::as_array_mut`: the array, if the value is one.
pub assume_specification[ toml_edit::Value::as_array_mut ](value: &mut toml_edit::Value) -> (res:
    Option<&mut toml_edit::Array>)
    ensures
        res.is_some() == (value_view(*old(value)) is Array),
        res.is_some() ==> value_view(*old(value)) == ValueView::Array(array_view(*res.unwrap())),
        res.is_some() ==> value_view(*final(value)) == ValueView::Array(
            array_view(*final(res.unwrap())),
        ),
        res.is_none() ==> value_view(*final(value)) == value_view(*old(value)),
;

/// `Value::as_inline_table_mut`: the inline table, if the value is one.
pub assume_specification[ toml_edit::Value::as_inline_table_mut ](
    value: &mut toml_edit::Value,
) -> (res: Option<&mut toml_edit::InlineTable>)
    ensures
        res.is_some() == (value_view(*old(value)) is InlineTable),
        res.is_some() ==> value_view(*old(value)) == ValueView::InlineTable(
            inline_table_view(*res.unwrap()),
        ),
        res.is_some() ==> value_view(*final(value)) == ValueView::InlineTable(
            inline_table_view(*final(res.unwrap())),
        ),
        res.is_none() ==> value_view(*final(value)) == value_view(*old(value)),
;

/// `Value::decor_mut`: the decoration around the value. What the caller
/// leaves there is the value's decoration afterwards; the value is otherwise
/// the same.
pub assume_specification[ toml_edit::Value::decor_mut ](value: &mut toml_edit::Value) -> (res:
    &mut toml_edit::Decor)
    ensures
        *res == value_view(*old(value)).decor(),
        value_view(*final(value)) == value_view(*old(value)).with_decor(*final(res)),
;

/// `Decor::new`, with two texts.
#[verifier::external_body]
pub(crate) fn decor_new(prefix: &str, suffix: &str) -> (decor: toml_edit::Decor)
    ensures
        decor == decor_of(prefix@, suffix@),
{
    toml_edit::Decor::new(prefix, suffix)
}

/// `Array::len`: the number of slots.
pub assume_specification[ toml_edit::Array::len ](array: &toml_edit::Array) -> (len: usize)
    ensures
        len == array_view(*array).elems.len(),
;

/// `Array::get`: the value in slot `index`, if there is one.
pub assume_specification[ toml_edit::Array::get ](array: &toml_edit::Array, index: usize) -> (res:
    Option<&toml_edit::Value>)
    ensures
        res.is_some() == (index < array_view(*array).elems.len() && array_view(
            *array,
        ).elems[index as int] is Some),
        res.is_some() ==> array_view(*array).elems[index as int] == Some(
            value_view(*res.unwrap()),
        ),
;

/// `Array::get_mut`: the value in slot `index`, if there is one. No other
/// slot changes, nor anything else of the array.
pub assume_specification[ toml_edit::Array::get_mut ](
    array: &mut toml_edit::Array,
    index: usize,
) -> (res: Option<&mut toml_edit::Value>)
    ensures
        res.is_some() == (index < array_view(*old(array)).elems.len() && array_view(
            *old(array),
        ).elems[index as int] is Some),
        res.is_some() ==> array_view(*old(array)).elems[index as int] == Some(
            value_view(*res.unwrap()),
        ),
        res.is_some() ==> array_view(*final(array)) == (ArrayView {
            elems: array_view(*old(array)).elems.update(
                index as int,
                Some(value_view(*final(res.unwrap()))),
            ),
            ..array_view(*old(array))
        }),
        res.is_none() ==> array_view(*final(array)) == array_view(*old(array)),
;

/// `Array::fmt`: every value is decorated anew, the first with nothing around
/// it and each other with one space before it; the trailing comma and what
/// stands before the closing bracket are removed. The array's own decoration
/// stays.
pub assume_specification[ toml_edit::Array::fmt ](array: &mut toml_edit::Array)
    ensures
        array_view(*final(array)) == array_view(*old(array)).one_line(),
;

/// `Array::set_trailing_comma`: only the trailing comma changes.
pub assume_specification[ toml_edit::Array::set_trailing_comma ](
    array: &mut toml_edit::Array,
    yes: bool,
)
    ensures
        array_view(*final(array)) == (ArrayView { trailing_comma: yes, ..array_view(*old(array)) }),
;

/// `Array::set_trailing`, with a text: only what stands before the closing
/// bracket changes.
#[verifier::external_body]
pub(crate) fn array_set_trailing(array: &mut toml_edit::Array, text: &str)
    ensures
        array_view(*final(array)) == (ArrayView {
            trailing: raw_of(text@),
            ..array_view(*old(array))
        }),
{
    array.set_trailing(text)
}

/// `InlineTable::fmt`: the decoration of the pairs inside is cleared, which
/// is the canonical spacing; the table's own decoration stays. Doing it twice
/// changes nothing more.
pub assume_specification[ toml_edit::InlineTable::fmt ](table: &mut toml_edit::InlineTable)
    ensures
        inline_table_view(*final(table)) == (InlineTableView {
            spacing: None,
            ..inline_table_view(*old(table))
        }),
;

} // verus!
