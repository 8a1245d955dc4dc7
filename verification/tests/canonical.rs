use cargo_tomlfmt::config::FormatConfig;
use cargo_tomlfmt::error::FormatError;
use cargo_tomlfmt::fmt::fmt_toml;

fn sorting() -> FormatConfig {
    FormatConfig { sort_keys: true }
}

fn keeping() -> FormatConfig {
    FormatConfig { sort_keys: false }
}

#[test]
fn parse_inline_table() {
    let text = "[package]\nname = \"demo\"\n\n[dependencies]\nserde = { version = \"1\", features = [\"derive\"] }\nlog = \"0.4\"\n";
    assert!(fmt_toml(text, &sorting()).is_ok());
}

#[test]
fn preserve_comments() {
    let text = "[dependencies]\n# this is an inline comment\nserde = \"1\"\nlog = \"0.4\" # this is a suffix comment\n";
    let formatted = fmt_toml(text, &sorting());

    assert!(formatted.is_ok());

    let formatted = formatted.unwrap();

    assert!(formatted.contains("# this is an inline comment"));
    assert!(formatted.contains("# this is a suffix comment"));
}

#[test]
fn comments_move_with_their_keys() {
    let text = "[dependencies]\n# this is an inline comment\nserde = \"1\"\nlog = \"0.4\" # this is a suffix comment\n";
    let formatted = fmt_toml(text, &sorting()).unwrap();
    assert_eq!(
        formatted,
        "[dependencies]\nlog = \"0.4\" # this is a suffix comment\n# this is an inline comment\nserde = \"1\"\n"
    );
}

#[test]
fn sorts_keys_of_a_table() {
    let out = fmt_toml("[dependencies]\nb = \"1\"\na = \"2\"\n", &sorting()).unwrap();
    assert_eq!(out, "[dependencies]\na = \"2\"\nb = \"1\"\n");
}

#[test]
fn sorts_keys_by_code_point() {
    let out = fmt_toml("[dependencies]\nb = 1\nB = 2\na10 = 3\na2 = 4\n", &sorting()).unwrap();
    assert_eq!(out, "[dependencies]\nB = 2\na10 = 3\na2 = 4\nb = 1\n");
}

#[test]
fn keeps_key_order_when_not_sorting() {
    let text = "[dependencies]\nb = \"1\"\na = \"2\"\n\n[dev-dependencies]\nz = \"1\"\ny = \"2\"\n";
    let out = fmt_toml(text, &keeping()).unwrap();
    assert_eq!(out, text);
}

#[test]
fn formats_values_when_not_sorting() {
    let out = fmt_toml("[lib]\nname = \"x\"\ncrate-type = [ \"lib\",\"cdylib\" ]\n", &keeping()).unwrap();
    assert_eq!(out, "[lib]\nname = \"x\"\ncrate-type = [\"lib\", \"cdylib\"]\n");
}

#[test]
fn package_table_is_left_alone() {
    let text = "[package]\nname = \"demo\"\nversion = \"0.1.0\"\nauthors = [ \"a\",\"b\" ]\nedition = \"2021\"\ndescription = \"d\"\n\n[dependencies]\nb = \"1\"\na = \"2\"\n";
    let out = fmt_toml(text, &sorting()).unwrap();
    assert_eq!(
        out,
        "[package]\nname = \"demo\"\nversion = \"0.1.0\"\nauthors = [ \"a\",\"b\" ]\nedition = \"2021\"\ndescription = \"d\"\n\n[dependencies]\na = \"2\"\nb = \"1\"\n"
    );
}

#[test]
fn tables_below_package_are_left_alone() {
    let text = "[package]\nname = \"demo\"\n\n[package.metadata.docs]\nz = [ 1,2 ]\na = 1\n";
    let out = fmt_toml(text, &sorting()).unwrap();
    assert_eq!(out, text);
}

#[test]
fn features_default_first() {
    let text = "[features]\nunstable = []\ndefault = [\"serde\"]\nserde = []\n";
    let out = fmt_toml(text, &sorting()).unwrap();
    assert_eq!(out, "[features]\ndefault = [\"serde\"]\nserde = []\nunstable = []\n");
}

#[test]
fn features_default_first_when_not_sorting() {
    let text = "[features]\nunstable = []\ndefault = [\"serde\"]\nserde = []\n";
    let out = fmt_toml(text, &keeping()).unwrap();
    assert_eq!(out, "[features]\ndefault = [\"serde\"]\nserde = []\nunstable = []\n");
}

#[test]
fn features_without_default_are_sorted() {
    let text = "[features]\nstd = []\nalloc = []\n";
    let out = fmt_toml(text, &keeping()).unwrap();
    assert_eq!(out, "[features]\nalloc = []\nstd = []\n");
}

#[test]
fn features_below_another_table_are_not_special() {
    let text = "[target.features]\nunstable = []\ndefault = []\n";
    let out = fmt_toml(text, &sorting()).unwrap();
    assert_eq!(out, "[target.features]\ndefault = []\nunstable = []\n");
    let kept = fmt_toml(text, &keeping()).unwrap();
    assert_eq!(kept, text);
}

#[test]
fn workspace_members_one_per_line() {
    let text = "[workspace]\nmembers = [\"a\", \"b\"]\n";
    let out = fmt_toml(text, &sorting()).unwrap();
    assert_eq!(out, "[workspace]\nmembers = [\n    \"a\",\n    \"b\",\n]\n");
}

#[test]
fn workspace_members_one_per_line_for_one_member() {
    let text = "[workspace]\nmembers = [ \"only\" ]\nexclude = [ \"x\",\"y\" ]\n";
    let out = fmt_toml(text, &sorting()).unwrap();
    assert_eq!(out, "[workspace]\nexclude = [\"x\", \"y\"]\nmembers = [\n    \"only\",\n]\n");
}

#[test]
fn members_outside_workspace_are_laid_out_on_one_line() {
    let text = "[other]\nmembers = [\n    \"a\",\n    \"b\",\n]\n";
    let out = fmt_toml(text, &sorting()).unwrap();
    assert_eq!(out, "[other]\nmembers = [\"a\", \"b\"]\n");
}

#[test]
fn array_of_tables_order_preserved() {
    let text = "[[bin]]\npath = \"src/x.rs\"\nname = \"x\"\n\n[[bin]]\npath = \"src/y.rs\"\nname = \"y\"\n\n[[bin]]\npath = \"src/z.rs\"\nname = \"z\"\n";
    let out = fmt_toml(text, &sorting()).unwrap();
    assert_eq!(
        out,
        "[[bin]]\nname = \"x\"\npath = \"src/x.rs\"\n\n[[bin]]\nname = \"y\"\npath = \"src/y.rs\"\n\n[[bin]]\nname = \"z\"\npath = \"src/z.rs\"\n"
    );
}

#[test]
fn nested_tables_are_sorted() {
    let text = "[target.x.dependencies]\nb = \"1\"\na = \"2\"\n";
    let out = fmt_toml(text, &sorting()).unwrap();
    assert_eq!(out, "[target.x.dependencies]\na = \"2\"\nb = \"1\"\n");
}

#[test]
fn dotted_keys_are_sorted() {
    let text = "[dependencies]\nserde.version = \"1\"\nserde.features = [ \"derive\" ]\nlog = \"0.4\"\n";
    let out = fmt_toml(text, &sorting()).unwrap();
    assert_eq!(
        out,
        "[dependencies]\nlog = \"0.4\"\nserde.features = [\"derive\"]\nserde.version = \"1\"\n"
    );
}

#[test]
fn root_keys_keep_their_order() {
    let text = "zeta = 1\nalpha = [ 1,2 ]\n\n[dependencies]\nb = 1\na = 2\n";
    let out = fmt_toml(text, &sorting()).unwrap();
    assert_eq!(out, "zeta = 1\nalpha = [1, 2]\n\n[dependencies]\na = 2\nb = 1\n");
}

#[test]
fn inline_table_spacing_is_reset() {
    let text = "[dependencies]\nserde = {version=\"1\",   features = [\"derive\"]}\n";
    let out = fmt_toml(text, &sorting()).unwrap();
    assert_eq!(out, "[dependencies]\nserde = { version = \"1\", features = [\"derive\"] }\n");
}

#[test]
fn multi_line_array_is_put_on_one_line() {
    let text = "[package.metadata]\nx = 1\n\n[lib]\ncrate-type = [\n  \"lib\",\n  \"cdylib\",\n]\n";
    let out = fmt_toml(text, &sorting()).unwrap();
    assert_eq!(out, "[package.metadata]\nx = 1\n\n[lib]\ncrate-type = [\"lib\", \"cdylib\"]\n");
}

#[test]
fn canonical_form_is_a_fixed_point() {
    let text = "[package]\nname = \"demo\"\nedition = \"2021\"\n\n[features]\nunstable = []\ndefault = [ \"serde\" ]\n\n[workspace]\nmembers = [\"a\", \"b\"]\n\n[dependencies]\n# about serde\nserde = {version=\"1\"}\nlog = \"0.4\" # about log\n\n[[bin]]\npath = \"p\"\nname = \"n\"\n";
    for config in [sorting(), keeping()] {
        let once = fmt_toml(text, &config).unwrap();
        let twice = fmt_toml(&once, &config).unwrap();
        assert_eq!(once, twice);
        assert_ne!(once, text);
    }
}

#[test]
fn canonical_input_is_unchanged() {
    let text = "[package]\nname = \"demo\"\nversion = \"0.1.0\"\n\n[dependencies]\nlog = \"0.4\"\nserde = { version = \"1\", features = [\"derive\"] }\n\n[features]\ndefault = [\"std\"]\nstd = []\n\n[workspace]\nmembers = [\n    \"a\",\n    \"b\",\n]\n";
    let out = fmt_toml(text, &sorting()).unwrap();
    assert_eq!(out, text);
}

#[test]
fn empty_document_is_unchanged() {
    assert_eq!(fmt_toml("", &sorting()).unwrap(), "");
}

#[test]
fn invalid_toml_is_a_parse_error() {
    let res = fmt_toml("[dependencies\na = 1\n", &sorting());
    match res {
        Err(FormatError::Parse(message)) => {
            assert!(message.contains("TOML parse error"));
            assert_eq!(FormatError::Parse(message.clone()).message(), message);
        }
        Ok(_) => panic!("an unclosed table header is not valid TOML"),
    }
}

#[test]
fn duplicate_key_is_a_parse_error() {
    assert!(fmt_toml("a = 1\na = 2\n", &sorting()).is_err());
}

#[test]
fn tables_keep_their_place() {
    let text = "[zeta]\nb = 1\na = 2\n\n[alpha]\nd = 1\nc = 2\n\n[zeta.inner]\ny = 1\nx = 2\n";
    let out = fmt_toml(text, &sorting()).unwrap();
    assert_eq!(out, "[zeta]\na = 2\nb = 1\n\n[alpha]\nc = 2\nd = 1\n\n[zeta.inner]\nx = 2\ny = 1\n");
}

#[test]
fn comments_around_headers_are_kept() {
    let text = "# about the file\n\n# about dependencies\n[dependencies] # trailing\n# about b\nb = 1\n\n# about a\na = 2\n\n# the end\n";
    let out = fmt_toml(text, &sorting()).unwrap();
    assert_eq!(
        out,
        "# about the file\n\n# about dependencies\n[dependencies] # trailing\n\n# about a\na = 2\n# about b\nb = 1\n\n# the end\n"
    );
}

#[test]
fn a_whole_manifest() {
    let text = "\
[package]
name = \"demo\"
version = \"0.1.0\"
edition = \"2021\"
authors = [\"someone\"]

[lib]
path = \"src/lib.rs\"
name = \"demo\"

[[bin]]
path = \"src/main.rs\"
name = \"demo\"

[features]
serde = [\"dep:serde\"]
default = [ \"serde\" ]

[dependencies]
serde = {version = \"1\", optional = true}
anyhow = \"1\"

[target.'cfg(unix)'.dependencies]
nix = \"0.29\"
libc = \"0.2\"

[workspace]
members = [\"crates/b\", \"crates/a\"]

[profile.release]
opt-level = 3
lto = true
";
    let expected = "\
[package]
name = \"demo\"
version = \"0.1.0\"
edition = \"2021\"
authors = [\"someone\"]

[lib]
name = \"demo\"
path = \"src/lib.rs\"

[[bin]]
name = \"demo\"
path = \"src/main.rs\"

[features]
default = [\"serde\"]
serde = [\"dep:serde\"]

[dependencies]
anyhow = \"1\"
serde = { version = \"1\", optional = true }

[target.'cfg(unix)'.dependencies]
libc = \"0.2\"
nix = \"0.29\"

[workspace]
members = [
    \"crates/b\",
    \"crates/a\",
]

[profile.release]
lto = true
opt-level = 3
";
    let out = fmt_toml(text, &sorting()).unwrap();
    assert_eq!(out, expected);
    assert_eq!(fmt_toml(expected, &sorting()).unwrap(), expected);
}

#[test]
fn formatting_twice_is_formatting_once() {
    let samples = [
        "",
        "a = [ 1,\n 2 ]\n",
        "[features]\nz = []\ndefault = []\na.default = 1\na.b = 2\n",
        "[workspace]\nmembers = []\n",
        "[x]\nb = { z = 1, a = [ 1,2 ] }\na.c = 1\na.b = 2\n\n[[x.y]]\nq = 1\np = 2\n\n[[x.y]]\n",
        "[package]\nz = 1\na = 2\n[package.metadata]\nz = 1\na = 2\n",
    ];
    for text in samples {
        for config in [sorting(), keeping()] {
            let once = fmt_toml(text, &config).unwrap();
            let twice = fmt_toml(&once, &config).unwrap();
            assert_eq!(once, twice);
        }
    }
}
