//! A wiki whose pages are org-mode files kept in a git repository.
//!
//! The library holds the rules of the wiki: how request paths become page
//! paths, how pages map to cached HTML files, how page metadata is read from
//! the org keyword preamble, how commit messages are built, how webhook
//! signatures are checked and how configuration sources are merged.
pub mod text;
pub mod paths;
pub mod cache;
pub mod git;
pub mod page;
pub mod webhook;
pub mod export;
pub mod config;
pub mod api;
pub mod view;
