//! The state of a terminal directory browser: a directory, its listing, a
//! filter over the listing, and a cursor among the entries that the filter
//! lets through. The user moves the cursor, types a filter, goes up to the
//! parent or down into the selected directory, and in the end confirms a
//! directory or cancels.
//!
//! The crate holds the state and every rule of the browser. It reads no
//! files and no keys and draws nothing: the program around it does that, and
//! hands in what it read.
//!
//! - [`text`]: the order of paths and the substring test of the filter.
//! - [`path`]: the name and the parent of a path.
//! - [`listing`]: entries, and the order of a listing.
//! - [`reading`]: what reading a directory gives, and which of it is listed.
//! - [`filter`]: the entries that a query shows.
//! - [`cursor`]: the cursor and its steps.
//! - [`model`]: the state as a mathematical value, and what always holds of
//!   it.
//! - [`app`]: the state and its operations.
//! - [`command`]: the commands of the user, carried out one by one.
//! - [`breadcrumb`]: the current directory as the header shows it.
//!
//! Verus proves every contract in the crate but those of the items below,
//! which say what code outside the crate does and are taken on trust:
//!
//! - in [`cursor`], `ratatui`'s `ListState` with `default`, `select` and
//!   `selected`;
//! - in [`text`], `str::to_lowercase`, `String::push` and `String::pop`;
//! - in [`path`], `Path::file_name` and `Path::parent`.

pub mod app;
pub mod breadcrumb;
pub mod command;
pub mod cursor;
pub mod filter;
pub mod listing;
pub mod model;
pub mod path;
pub mod reading;
pub mod text;
