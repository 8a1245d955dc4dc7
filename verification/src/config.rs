//! The formatting policy, and where it is read from.
use std::path::{Path, PathBuf};
use vstd::prelude::*;
use crate::adapter::{
    document_view, parse_document, parse_error_text, parsed, scalar_bool, table_view,
};
use crate::error::FormatError;
use crate::paths::{joined, parent_of, path_join, path_new, path_of};
use crate::tree::{ItemView, TableView, ValueView};

verus! {

/// The policy of one run.
#[derive(Clone, Copy, Debug)]
pub struct FormatConfig {
    /// Whether the keys of each table are put in lexicographic order.
    pub sort_keys: bool,
}

impl Default for FormatConfig {
    /// Keys are sorted unless a configuration says otherwise.
    fn default() -> (config: Self)
        ensures
            config == default_config(),
    {
        Self { sort_keys: true }
    }
}

/// The policy that holds where nothing is configured.
pub open spec fn default_config() -> FormatConfig {
    FormatConfig { sort_keys: true }
}

/// The directory of a manifest: its parent, or `.` where it has none.
pub open spec fn dir_of(manifest_path: &Path) -> &Path {
    match parent_of(manifest_path) {
        Some(dir) => dir,
        None => path_of("."@),
    }
}

/// The directory of a manifest: its parent, or `.` where it has none.
pub fn manifest_dir(manifest_path: &Path) -> (dir: &Path)
    ensures
        dir == dir_of(manifest_path),
{
    match manifest_path.parent() {
        Some(dir) => dir,
        None => path_new("."),
    }
}

/// The configuration file that belongs to a manifest: `tomlfmt.toml` in the
/// manifest's directory.
pub fn config_path(manifest_path: &Path) -> (path: PathBuf)
    ensures
        path == joined(dir_of(manifest_path), "tomlfmt.toml"@),
{
    path_join(manifest_dir(manifest_path), "tomlfmt.toml")
}

/// The boolean bound to `sort_keys` in a table, if there is one. Anything
/// else under that key counts as not there.
pub open spec fn sort_keys_in(settings: TableView) -> Option<bool> {
    if settings.entries.dom().contains("sort_keys"@) {
        match settings.entries["sort_keys"@].item {
            ItemView::Value(ValueView::Scalar(s)) => scalar_bool(s.bare),
            _ => None,
        }
    } else {
        None
    }
}

/// The table that holds the settings: the table under `tomlfmt` where there
/// is one, else the root table itself.
pub open spec fn settings_table(root: TableView) -> TableView {
    if root.entries.dom().contains("tomlfmt"@) {
        match root.entries["tomlfmt"@].item {
            ItemView::Table(t) => t,
            _ => root,
        }
    } else {
        root
    }
}

/// The policy that a configuration document states.
pub open spec fn config_of(root: ItemView) -> FormatConfig {
    match root {
        ItemView::Table(t) => match sort_keys_in(settings_table(t)) {
            Some(sort_keys) => FormatConfig { sort_keys },
            None => default_config(),
        },
        _ => default_config(),
    }
}

/// Reads `sort_keys` from a table of settings.
fn read_sort_keys(settings: &toml_edit::Table) -> (res: Option<bool>)
    ensures
        res == sort_keys_in(table_view(*settings)),
{
    match settings.get("sort_keys") {
        Some(item) => match item.as_value() {
            Some(value) => value.as_bool(),
            None => None,
        },
        None => None,
    }
}

/// The policy that a parsed configuration states. A missing `sort_keys`, or
/// one that is not a boolean, leaves the default in place.
pub fn config_of_document(doc: &toml_edit::DocumentMut) -> (config: FormatConfig)
    ensures
        config == config_of(document_view(*doc).root),
{
    let mut config = FormatConfig::default();
    match doc.as_item().as_table() {
        Some(root) => {
            let settings = match root.get("tomlfmt") {
                Some(item) => match item.as_table() {
                    Some(table) => table,
                    None => root,
                },
                None => root,
            };
            match read_sort_keys(settings) {
                Some(sort_keys) => {
                    config.sort_keys = sort_keys;
                },
                None => {},
            }
        },
        None => {},
    }
    config
}

/// What `resolve_config` gives for the text of a configuration file, or for
/// its absence.
pub open spec fn resolves_to(raw: Option<Seq<char>>, res: Result<FormatConfig, FormatError>) -> bool {
    match raw {
        None => res == Ok::<FormatConfig, FormatError>(default_config()),
        Some(text) => match parsed(text) {
            Ok(doc) => res == Ok::<FormatConfig, FormatError>(config_of(doc.root)),
            Err(message) => res matches Err(FormatError::Parse(m)) && m@ == message,
        },
    }
}

/// The policy for a manifest, given the text of its configuration file, or
/// `None` where there is no such file. Fails if and only if there is a text
/// and it is not valid TOML.
pub fn resolve_config(raw: Option<&str>) -> (res: Result<FormatConfig, FormatError>)
    ensures
        resolves_to(
            match raw {
                Some(text) => Some(text@),
                None => None,
            },
            res,
        ),
{
    match raw {
        None => Ok(FormatConfig::default()),
        Some(text) => match parse_document(text) {
            Ok(doc) => Ok(config_of_document(&doc)),
            Err(e) => Err(FormatError::Parse(parse_error_text(&e))),
        },
    }
}

} // verus!
