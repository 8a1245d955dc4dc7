//! Canonical layout for package manifests written in TOML.
//!
//! A manifest is parsed into a `toml_edit` document, the document is put
//! into canonical form, and it is written out again. Canonical form means:
//! the keys of every table sorted (where the policy asks for it), every array
//! on one line, every inline table with plain spacing; but the `package`
//! table is left as it is, the `features` table has `default` first, and the
//! members of a workspace stand one per line. Comments stay with the keys,
//! values and headers they belong to.
//!
//! - [`tree`] is the mathematical model of a document tree.
//! - [`adapter`] and [`paths`] state what the library relies on of
//!   `toml_edit` and of `std::path`.
//! - [`order`] holds the orders in which keys are laid out.
//! - [`fmt`] is the canonicaliser; [`laws`] states what holds of it.
//! - [`config`] resolves the policy of a run, [`cli`] holds the options of
//!   the command line, and [`driver`] decides what a run does with a
//!   manifest.
pub mod adapter;
pub mod cli;
pub mod config;
pub mod driver;
pub mod error;
pub mod fmt;
pub mod laws;
mod lemmas;
pub mod order;
pub mod paths;
pub mod tree;
