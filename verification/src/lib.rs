//! A keyboard-driven terminal file manager: the verified core of its state,
//! navigation, key handling, search ranking, path handling and display rules.
pub mod text;
pub mod path;
pub mod order;
pub mod messages;
pub mod icons;
pub mod navigator;
pub mod trash;
pub mod fuzzy;
pub mod config;
pub mod app;
pub mod keys;
pub mod outcomes;
pub mod search;
pub mod updates;
pub mod view;
