//! What the program decides around the canonicaliser: which manifests a run
//! covers, and what becomes of a manifest once it is formatted.
use std::path::{Path, PathBuf};
use vstd::prelude::*;
use vstd::string::StringExecFns;
use crate::adapter::{array_view, document_view, parse_document, parsed, scalar_str};
use crate::cli::Options;
use crate::config::{dir_of, manifest_dir};
use crate::paths::{joined, path_in, path_join};
use crate::tree::{ItemView, ValueView};

verus! {

/// What becomes of a manifest once it is formatted.
#[derive(Debug, Clone, Copy, PartialEq, Eq, Structural)]
pub enum Outcome {
    /// The manifest is in canonical form already: nothing is written.
    Unchanged,
    /// A dry run found the manifest not to be in canonical form. The manifest
    /// is not touched; the formatted text goes to a `.new` sibling if
    /// `write_new` says so.
    Problems { write_new: bool },
    /// The manifest is renamed to a `.bak` sibling and the formatted text is
    /// written in its place; the sibling is removed again unless
    /// `keep_backup` says otherwise.
    Rewrite { keep_backup: bool },
}

/// The outcome for a manifest: `changed` says whether the formatted text
/// differs from the text that was read.
pub open spec fn outcome_of(options: Options, changed: bool) -> Outcome {
    if !changed {
        Outcome::Unchanged
    } else if options.dryrun {
        Outcome::Problems { write_new: options.create }
    } else {
        Outcome::Rewrite { keep_backup: options.keep }
    }
}

/// Decides what becomes of a manifest once it is formatted.
pub fn decide(options: &Options, changed: bool) -> (outcome: Outcome)
    ensures
        outcome == outcome_of(*options, changed),
{
    if !changed {
        Outcome::Unchanged
    } else if options.dryrun {
        Outcome::Problems { write_new: options.create }
    } else {
        Outcome::Rewrite { keep_backup: options.keep }
    }
}

/// Whether `create` was asked for to no effect: it counts on a dry run only.
pub fn create_is_idle(options: &Options) -> (idle: bool)
    ensures
        idle == (options.create && !options.dryrun),
{
    options.create && !options.dryrun
}

/// Whether a run with this outcome reports that it found problems.
pub fn found_problems(outcome: Outcome) -> (found: bool)
    ensures
        found == (outcome is Problems),
{
    match outcome {
        Outcome::Problems { .. } => true,
        _ => false,
    }
}

/// The name of the sibling that keeps `file_name` as it was.
pub fn backup_name(file_name: &str) -> (name: String)
    ensures
        name@ == file_name@ + ".bak"@,
{
    String::from_str(file_name).concat(".bak")
}

/// The name of the sibling that a dry run writes the formatted `file_name`
/// to.
pub fn preview_name(file_name: &str) -> (name: String)
    ensures
        name@ == file_name@ + ".new"@,
{
    String::from_str(file_name).concat(".new")
}

/// The texts among the first `n` slots of an array, in order.
pub open spec fn texts_of(elems: Seq<Option<ValueView>>, n: int) -> Seq<Seq<char>>
    decreases n,
{
    if n <= 0 {
        Seq::empty()
    } else {
        match elems[n - 1] {
            Some(ValueView::Scalar(s)) => match scalar_str(s.bare) {
                Some(text) => texts_of(elems, n - 1).push(text),
                None => texts_of(elems, n - 1),
            },
            _ => texts_of(elems, n - 1),
        }
    }
}

/// What stands under `key` in the table under `table_key` of a root table,
/// if both are there.
pub open spec fn nested_item(root: ItemView, table_key: Seq<char>, key: Seq<char>) -> Option<
    ItemView,
> {
    match root {
        ItemView::Table(t) if t.entries.dom().contains(table_key) => match t.entries[table_key].item {
            ItemView::Table(inner) if inner.entries.dom().contains(key) => Some(
                inner.entries[key].item,
            ),
            _ => None,
        },
        _ => None,
    }
}

/// The members that a document lists for its workspace: the texts in the
/// array under `workspace.members`, in order. A document without such an
/// array lists none.
pub open spec fn members_of(root: ItemView) -> Seq<Seq<char>> {
    match nested_item(root, "workspace"@, "members"@) {
        Some(ItemView::Value(ValueView::Array(a))) => texts_of(a.elems, a.elems.len() as int),
        _ => Seq::empty(),
    }
}

/// The texts in an array, in order.
fn array_texts(array: &toml_edit::Array) -> (texts: Vec<String>)
    ensures
        texts.deep_view() == texts_of(array_view(*array).elems, array_view(*array).elems.len() as int),
{
    let len = array.len();
    let mut texts: Vec<String> = Vec::new();
    let mut i: usize = 0;
    assert(texts.deep_view() =~= texts_of(array_view(*array).elems, 0));
    while i < len
        invariant
            i <= len,
            len == array_view(*array).elems.len(),
            texts.deep_view() == texts_of(array_view(*array).elems, i as int),
        decreases len - i,
    {
        let ghost before = texts.deep_view();
        match array.get(i) {
            Some(value) => match value.as_str() {
                Some(text) => {
                    texts.push(text.to_owned());
                    assert(texts.deep_view() =~= before.push(text@));
                },
                None => {},
            },
            None => {},
        }
        i += 1;
    }
    texts
}

/// The members that a document lists for its workspace.
pub fn workspace_members(doc: &toml_edit::DocumentMut) -> (members: Vec<String>)
    ensures
        members.deep_view() == members_of(document_view(*doc).root),
{
    let found = match doc.as_item().as_table() {
        Some(root) => match root.get("workspace") {
            Some(item) => match item.as_table() {
                Some(workspace) => match workspace.get("members") {
                    Some(members) => match members.as_value() {
                        Some(value) => value.as_array(),
                        None => None,
                    },
                    None => None,
                },
                None => None,
            },
            None => None,
        },
        None => None,
    };
    match found {
        Some(array) => array_texts(array),
        None => {
            let members: Vec<String> = Vec::new();
            assert(members.deep_view() =~= Seq::empty());
            members
        },
    }
}

/// The manifest of a workspace member: `Cargo.toml` in the member's
/// directory, which is given relative to the directory `dir` of the
/// workspace's manifest.
pub fn member_manifest(dir: &Path, member: &str) -> (path: PathBuf)
    ensures
        path == joined(path_in(&joined(dir, member@)), "Cargo.toml"@),
{
    let member_dir = path_join(dir, member);
    path_join(member_dir.as_path(), "Cargo.toml")
}

/// Whether `paths` are the manifests of `members`, one for one, below the
/// directory of the manifest at `manifest_path`.
pub open spec fn manifests_of(
    manifest_path: &Path,
    members: Seq<Seq<char>>,
    paths: Seq<PathBuf>,
) -> bool {
    &&& paths.len() == members.len()
    &&& forall|i: int|
        0 <= i < paths.len() ==> #[trigger] paths[i] == joined(
            path_in(&joined(dir_of(manifest_path), members[i])),
            "Cargo.toml"@,
        )
}

/// The manifests of the members that the manifest at `manifest_path` lists
/// for its workspace, in the order of the list. Which of them exist is for
/// the caller to find out.
pub fn member_manifests(manifest_path: &Path, doc: &toml_edit::DocumentMut) -> (paths: Vec<PathBuf>)
    ensures
        manifests_of(manifest_path, members_of(document_view(*doc).root), paths@),
{
    let dir = manifest_dir(manifest_path);
    let members = workspace_members(doc);
    let mut paths: Vec<PathBuf> = Vec::new();
    let mut i: usize = 0;
    while i < members.len()
        invariant
            i <= members.len(),
            dir == dir_of(manifest_path),
            members.deep_view() == members_of(document_view(*doc).root),
            paths@.len() == i,
            forall|j: int|
                0 <= j < i ==> #[trigger] paths@[j] == joined(
                    path_in(&joined(dir, members.deep_view()[j])),
                    "Cargo.toml"@,
                ),
        decreases members.len() - i,
    {
        assert(members.deep_view()[i as int] == members[i as int]@);
        paths.push(member_manifest(dir, members[i].as_str()));
        i += 1;
    }
    paths
}

/// The manifests of the members that a manifest lists for its workspace,
/// given the path and the text of the manifest. A text that is not valid
/// TOML lists none.
pub fn member_manifests_in(manifest_path: &Path, text: &str) -> (paths: Vec<PathBuf>)
    ensures
        match parsed(text@) {
            Ok(doc) => manifests_of(manifest_path, members_of(doc.root), paths@),
            Err(_) => paths@.len() == 0,
        },
{
    match parse_document(text) {
        Ok(doc) => member_manifests(manifest_path, &doc),
        Err(_) => Vec::new(),
    }
}

} // verus!
