use cargo_tomlfmt::config::FormatConfig;
use cargo_tomlfmt::fmt::{
    fmt_array_of_tables, fmt_document, fmt_item, fmt_one_per_line, fmt_root, fmt_root_item,
    fmt_table, fmt_value,
};
use cargo_tomlfmt::order::default_first;
use std::cmp::Ordering;
use toml_edit::{DocumentMut, Item, Value};

fn sorting() -> FormatConfig {
    FormatConfig { sort_keys: true }
}

fn keeping() -> FormatConfig {
    FormatConfig { sort_keys: false }
}

fn parse(text: &str) -> DocumentMut {
    text.parse::<DocumentMut>().unwrap()
}

#[test]
fn fmt_value_puts_an_array_on_one_line() {
    let mut value: Value = "[ 1,2 ,\n  3,\n]".parse().unwrap();
    assert!(fmt_value(&mut value).is_ok());
    assert_eq!(value.to_string(), "[1, 2, 3]");
}

#[test]
fn fmt_value_keeps_the_decoration_of_an_array() {
    let mut doc = parse("a = [ 1,2 ]   # note\n");
    let value = doc["a"].as_value_mut().unwrap();
    fmt_value(value).unwrap();
    assert_eq!(doc.to_string(), "a = [1, 2]   # note\n");
}

#[test]
fn fmt_value_formats_only_the_outer_array() {
    let mut value: Value = "[ [ 1,2 ],[3] ]".parse().unwrap();
    fmt_value(&mut value).unwrap();
    assert_eq!(value.to_string(), "[[ 1,2 ], [3]]");
}

#[test]
fn fmt_value_resets_an_inline_table() {
    let mut value: Value = "{a=1,b  =  2}".parse().unwrap();
    fmt_value(&mut value).unwrap();
    assert_eq!(value.to_string(), "{ a = 1, b = 2 }");
}

#[test]
fn fmt_value_leaves_scalars() {
    for text in ["'single'", "0x10", "1_000", "true", "1979-05-27T07:32:00Z", "1.50"] {
        let mut value: Value = text.parse().unwrap();
        fmt_value(&mut value).unwrap();
        assert_eq!(value.to_string(), text);
    }
}

#[test]
fn fmt_value_twice_is_once() {
    let mut value: Value = "[ {a=1}, 2 ,3 ]".parse().unwrap();
    fmt_value(&mut value).unwrap();
    let once = value.to_string();
    fmt_value(&mut value).unwrap();
    assert_eq!(value.to_string(), once);
    assert_eq!(once, "[{a=1}, 2, 3]");
}

#[test]
fn fmt_one_per_line_lays_out_each_element() {
    let mut value: Value = "[\"a\", \"b\",\"c\"]".parse().unwrap();
    fmt_one_per_line(value.as_array_mut().unwrap());
    assert_eq!(value.to_string(), "[\n    \"a\",\n    \"b\",\n    \"c\",\n]");
}

#[test]
fn fmt_one_per_line_of_an_empty_array() {
    let mut value: Value = "[ ]".parse().unwrap();
    fmt_one_per_line(value.as_array_mut().unwrap());
    assert_eq!(value.to_string(), "[\n]");
}

#[test]
fn fmt_table_sorts_a_table() {
    let mut doc = parse("[t]\nc = 1\na = 2\nb = 3\n");
    let table = doc["t"].as_table_mut().unwrap();
    assert!(fmt_table(table, &sorting(), Some("t")).is_ok());
    let keys: Vec<String> = table.iter().map(|(k, _)| k.to_owned()).collect();
    assert_eq!(keys, vec!["a", "b", "c"]);
    assert_eq!(doc.to_string(), "[t]\na = 2\nb = 3\nc = 1\n");
}

#[test]
fn fmt_table_keeps_the_order_when_not_sorting() {
    let mut doc = parse("[t]\nc = [ 1 ]\na = 2\nb = 3\n");
    let table = doc["t"].as_table_mut().unwrap();
    fmt_table(table, &keeping(), Some("t")).unwrap();
    assert_eq!(doc.to_string(), "[t]\nc = [1]\na = 2\nb = 3\n");
}

#[test]
fn fmt_table_lays_out_members_by_the_name_of_the_table() {
    let text = "[t]\nmembers = [\"a\",\"b\"]\n";
    let mut doc = parse(text);
    fmt_table(doc["t"].as_table_mut().unwrap(), &sorting(), Some("workspace")).unwrap();
    assert_eq!(doc.to_string(), "[t]\nmembers = [\n    \"a\",\n    \"b\",\n]\n");

    let mut doc = parse(text);
    fmt_table(doc["t"].as_table_mut().unwrap(), &sorting(), Some("t")).unwrap();
    assert_eq!(doc.to_string(), "[t]\nmembers = [\"a\", \"b\"]\n");

    let mut doc = parse(text);
    fmt_table(doc["t"].as_table_mut().unwrap(), &sorting(), None).unwrap();
    assert_eq!(doc.to_string(), "[t]\nmembers = [\"a\", \"b\"]\n");
}

#[test]
fn fmt_table_formats_a_package_table_like_any_other() {
    let mut doc = parse("[package]\nname = \"n\"\nauthors = [ \"a\" ]\n");
    fmt_table(doc["package"].as_table_mut().unwrap(), &sorting(), Some("package")).unwrap();
    assert_eq!(doc.to_string(), "[package]\nauthors = [\"a\"]\nname = \"n\"\n");
}

#[test]
fn fmt_table_goes_into_tables_below() {
    let mut doc = parse("[a]\nz = 1\ny = 2\n\n[a.workspace]\nmembers = [\"m\"]\nb = 1\n\n[[a.list]]\nq = 1\np = 2\n");
    fmt_table(doc["a"].as_table_mut().unwrap(), &sorting(), Some("a")).unwrap();
    assert_eq!(
        doc.to_string(),
        "[a]\ny = 2\nz = 1\n\n[a.workspace]\nb = 1\nmembers = [\n    \"m\",\n]\n\n[[a.list]]\np = 2\nq = 1\n"
    );
}

#[test]
fn fmt_array_of_tables_keeps_the_tables_in_place() {
    let mut doc = parse("[[bin]]\nz = \"first\"\na = 1\n\n[[bin]]\nz = \"second\"\na = 2\n");
    let tables = doc["bin"].as_array_of_tables_mut().unwrap();
    assert!(fmt_array_of_tables(tables, &sorting(), Some("bin")).is_ok());
    assert_eq!(tables.len(), 2);
    assert_eq!(tables.get(0).unwrap()["z"].as_str(), Some("first"));
    assert_eq!(tables.get(1).unwrap()["z"].as_str(), Some("second"));
    assert_eq!(doc.to_string(), "[[bin]]\na = 1\nz = \"first\"\n\n[[bin]]\na = 2\nz = \"second\"\n");
}

#[test]
fn fmt_array_of_tables_of_none() {
    let mut tables = toml_edit::ArrayOfTables::new();
    fmt_array_of_tables(&mut tables, &sorting(), None).unwrap();
    assert!(tables.is_empty());
}

#[test]
fn fmt_item_dispatches_on_the_kind() {
    let mut doc = parse("v = [ 1,2 ]\n\n[t]\nb = 1\na = 2\n\n[[l]]\nb = 1\na = 2\n");
    for key in ["v", "t", "l"] {
        assert!(fmt_item(&mut doc[key], &sorting(), None, key).is_ok());
    }
    assert_eq!(doc.to_string(), "v = [1, 2]\n\n[t]\na = 2\nb = 1\n\n[[l]]\na = 2\nb = 1\n");
}

#[test]
fn fmt_item_leaves_an_empty_item() {
    let mut item = Item::None;
    fmt_item(&mut item, &sorting(), None, "x").unwrap();
    assert!(item.is_none());
}

#[test]
fn fmt_item_lays_out_workspace_members() {
    let mut doc = parse("members = [\"a\"]\n");
    fmt_item(&mut doc["members"], &sorting(), Some("workspace"), "members").unwrap();
    assert_eq!(doc.to_string(), "members = [\n    \"a\",\n]\n");
}

#[test]
fn fmt_item_formats_members_that_are_no_array() {
    let mut doc = parse("members = {a=1}\n");
    fmt_item(&mut doc["members"], &sorting(), Some("workspace"), "members").unwrap();
    assert_eq!(doc.to_string(), "members = { a = 1 }\n");
}

#[test]
fn fmt_root_item_skips_package() {
    let mut doc = parse("[package]\nb = [ 1 ]\na = 2\n");
    assert!(fmt_root_item(&mut doc["package"], &sorting(), "package").is_ok());
    assert_eq!(doc.to_string(), "[package]\nb = [ 1 ]\na = 2\n");
}

#[test]
fn fmt_root_item_puts_default_first_in_features() {
    let mut doc = parse("[features]\nb = []\ndefault = [ \"b\" ]\na = []\n");
    fmt_root_item(&mut doc["features"], &keeping(), "features").unwrap();
    assert_eq!(doc.to_string(), "[features]\ndefault = [\"b\"]\na = []\nb = []\n");
}

#[test]
fn fmt_root_item_formats_features_that_are_no_table() {
    let mut doc = parse("features = [ 1,2 ]\n");
    fmt_root_item(&mut doc["features"], &sorting(), "features").unwrap();
    assert_eq!(doc.to_string(), "features = [1, 2]\n");
}

#[test]
fn fmt_root_keeps_the_keys_of_the_root() {
    let mut doc = parse("z = 1\na = 2\n");
    assert!(fmt_root(doc.as_table_mut(), &sorting()).is_ok());
    assert_eq!(doc.to_string(), "z = 1\na = 2\n");
}

#[test]
fn fmt_document_canonicalises_in_place() {
    let mut doc = parse("[dependencies]\nb = 1\na = 2\n");
    assert!(fmt_document(&mut doc, &sorting()).is_ok());
    assert_eq!(doc.to_string(), "[dependencies]\na = 2\nb = 1\n");
}

#[test]
fn fmt_document_keeps_the_trailing_comment() {
    let mut doc = parse("# head\n[dependencies]\nb = 1\na = 2\n# tail\n");
    fmt_document(&mut doc, &sorting()).unwrap();
    assert_eq!(doc.to_string(), "# head\n[dependencies]\na = 2\nb = 1\n# tail\n");
}

#[test]
fn default_first_orders_keys() {
    assert_eq!(default_first("default", "default"), Ordering::Equal);
    assert_eq!(default_first("default", "a"), Ordering::Less);
    assert_eq!(default_first("a", "default"), Ordering::Greater);
    assert_eq!(default_first("a", "b"), Ordering::Less);
    assert_eq!(default_first("b", "a"), Ordering::Greater);
    assert_eq!(default_first("b", "b"), Ordering::Equal);
    assert_eq!(default_first("a", "ab"), Ordering::Less);
    assert_eq!(default_first("B", "a"), Ordering::Less);
    assert_eq!(default_first("zz", "default"), Ordering::Greater);
    assert_eq!(default_first("", "default"), Ordering::Greater);
}

#[test]
fn default_first_orders_by_code_point() {
    assert_eq!(default_first("z", "\u{e9}"), Ordering::Less);
    assert_eq!(default_first("\u{e9}", "z"), Ordering::Greater);
    assert_eq!(default_first("\u{ffff}", "\u{10000}"), Ordering::Less);
    assert_eq!(default_first("a\u{10000}", "a\u{ffff}"), Ordering::Greater);
    assert_eq!(default_first("defaul", "default"), Ordering::Greater);
    assert_eq!(default_first("default", "defaults"), Ordering::Less);
}

#[test]
fn fmt_table_sorts_quoted_keys_by_code_point() {
    let mut doc = parse("[t]\n\"\u{e9}\" = 1\nz = 2\n\"a b\" = 3\nZ = 4\n");
    fmt_table(doc["t"].as_table_mut().unwrap(), &sorting(), Some("t")).unwrap();
    let keys: Vec<String> = doc["t"].as_table().unwrap().iter().map(|(k, _)| k.to_owned()).collect();
    assert_eq!(keys, vec!["Z", "a b", "z", "\u{e9}"]);
}
