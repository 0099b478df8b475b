//! Scaffolds project files from a catalogue of templates.
//!
//! A run names files, alone or by groups, and gives definitions and alias
//! rules. [`options`] reads the command line and [`groups`] expands the
//! groups. [`builder`] makes the [`context`] of the run from the persisted
//! [`config`], the definitions and what the environment gives. [`locator`]
//! finds the address of the template of a file, [`placeholder`] finds the
//! placeholders in contents and paths, [`template`] puts the values of the
//! context in their place, and [`task`] leads the work on one file from its
//! specifier to the written file. The library reads no file, asks no network and prints nothing: its
//! caller does, and reports to it.
//!
//! [`ident`] holds the grammar of variable names and [`keys`] the names that
//! the library itself sets, [`diag`] the warnings, [`text`] the work on
//! characters, and [`outside`] the calls into other crates.

pub mod builder;
pub mod config;
pub mod context;
pub mod diag;
pub mod groups;
pub mod ident;
pub mod keys;
pub mod locator;
pub mod options;
pub mod outside;
pub mod placeholder;
pub mod task;
pub mod template;
pub mod text;
