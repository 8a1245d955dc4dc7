use cargo_tomlfmt::cli::{Client, Command, Options};
use cargo_tomlfmt::driver::{
    backup_name, create_is_idle, decide, found_problems, member_manifest, member_manifests,
    member_manifests_in, preview_name, workspace_members, Outcome,
};
use std::path::{Path, PathBuf};
use toml_edit::DocumentMut;

fn options(dryrun: bool, keep: bool, create: bool) -> Options {
    Options { path: PathBuf::from("Cargo.toml"), dryrun, keep, create }
}

#[test]
fn unchanged_manifest_is_not_written() {
    for dryrun in [false, true] {
        for keep in [false, true] {
            for create in [false, true] {
                assert_eq!(decide(&options(dryrun, keep, create), false), Outcome::Unchanged);
            }
        }
    }
}

#[test]
fn dry_run_reports_problems() {
    assert_eq!(decide(&options(true, false, false), true), Outcome::Problems { write_new: false });
    assert_eq!(decide(&options(true, false, true), true), Outcome::Problems { write_new: true });
    assert_eq!(decide(&options(true, true, true), true), Outcome::Problems { write_new: true });
}

#[test]
fn changed_manifest_is_rewritten() {
    assert_eq!(decide(&options(false, false, false), true), Outcome::Rewrite { keep_backup: false });
    assert_eq!(decide(&options(false, true, false), true), Outcome::Rewrite { keep_backup: true });
    assert_eq!(decide(&options(false, true, true), true), Outcome::Rewrite { keep_backup: true });
}

#[test]
fn only_a_dry_run_finds_problems() {
    assert!(found_problems(Outcome::Problems { write_new: false }));
    assert!(found_problems(Outcome::Problems { write_new: true }));
    assert!(!found_problems(Outcome::Unchanged));
    assert!(!found_problems(Outcome::Rewrite { keep_backup: true }));
}

#[test]
fn sibling_names() {
    assert_eq!(backup_name("Cargo.toml"), "Cargo.toml.bak");
    assert_eq!(preview_name("Cargo.toml"), "Cargo.toml.new");
    assert_eq!(backup_name(""), ".bak");
}

#[test]
fn subcommand_options_win() {
    let client = Client {
        options: options(false, false, false),
        command: Some(Command::Tomlfmt(options(true, true, true))),
    };
    let chosen = client.into_options();
    assert!(chosen.dryrun && chosen.keep && chosen.create);

    let client = Client { options: options(true, false, true), command: None };
    let chosen = client.into_options();
    assert!(chosen.dryrun && !chosen.keep && chosen.create);
    assert_eq!(chosen.path, PathBuf::from("Cargo.toml"));
}

#[test]
fn workspace_members_are_listed_in_order() {
    let doc = "[workspace]\nmembers = [\"b\", \"a\", \"crates/c\"]\n".parse::<DocumentMut>().unwrap();
    assert_eq!(workspace_members(&doc), vec!["b", "a", "crates/c"]);
}

#[test]
fn workspace_members_that_are_no_texts_are_left_out() {
    let doc = "[workspace]\nmembers = [\"a\", 1, [\"x\"], \"b\"]\n".parse::<DocumentMut>().unwrap();
    assert_eq!(workspace_members(&doc), vec!["a", "b"]);
}

#[test]
fn documents_without_members_list_none() {
    for text in [
        "",
        "[package]\nname = \"x\"\n",
        "[workspace]\nexclude = [\"a\"]\n",
        "[workspace]\nmembers = \"a\"\n",
        "workspace = { members = [\"a\"] }\n",
        "members = [\"a\"]\n",
        "[[workspace]]\nmembers = [\"a\"]\n",
    ] {
        let doc = text.parse::<DocumentMut>().unwrap();
        assert!(workspace_members(&doc).is_empty());
    }
}

#[test]
fn member_manifest_is_below_the_workspace() {
    assert_eq!(member_manifest(Path::new("/work"), "crates/a"), PathBuf::from("/work/crates/a/Cargo.toml"));
    assert_eq!(member_manifest(Path::new("."), "a"), PathBuf::from("./a/Cargo.toml"));
    assert_eq!(member_manifest(Path::new(""), "a"), PathBuf::from("a/Cargo.toml"));
}

#[test]
fn member_manifests_follow_the_list() {
    let doc = "[workspace]\nmembers = [\"b\", \"crates/a\"]\n".parse::<DocumentMut>().unwrap();
    assert_eq!(
        member_manifests(Path::new("/work/Cargo.toml"), &doc),
        vec![PathBuf::from("/work/b/Cargo.toml"), PathBuf::from("/work/crates/a/Cargo.toml")]
    );
    assert_eq!(
        member_manifests(Path::new("Cargo.toml"), &doc),
        vec![PathBuf::from("b/Cargo.toml"), PathBuf::from("crates/a/Cargo.toml")]
    );
}

#[test]
fn member_manifests_of_a_text() {
    let text = "[package]\nname = \"x\"\n\n[workspace]\nmembers = [\"m\"]\n";
    assert_eq!(
        member_manifests_in(Path::new("ws/Cargo.toml"), text),
        vec![PathBuf::from("ws/m/Cargo.toml")]
    );
    assert!(member_manifests_in(Path::new("ws/Cargo.toml"), "[workspace\n").is_empty());
    assert!(member_manifests_in(Path::new("ws/Cargo.toml"), "").is_empty());
}

#[test]
fn create_counts_on_a_dry_run_only() {
    assert!(create_is_idle(&options(false, false, true)));
    assert!(!create_is_idle(&options(true, false, true)));
    assert!(!create_is_idle(&options(false, false, false)));
    assert!(!create_is_idle(&options(true, true, false)));
}
