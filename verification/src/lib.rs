//! A clipboard-history capture engine.
//!
//! The engine takes in what the system clipboard holds (plain text, rich
//! text, images, lists of files), tells distinct content apart by a
//! fingerprint, and keeps one record per distinct content in a history
//! that can be listed, searched, tagged, pinned and cleaned up by age.
//!
//! Reading the clipboard, writing files and keeping the history on disk
//! are left to the application around the library. The library decides:
//! it is handed plain values and hands plain values back.
//!
//! - [`item`], [`time`]: the records and their instants.
//! - [`fingerprint`]: the identity of content.
//! - [`db`], [`listing`], [`query`], [`tags`]: the store, the order in
//!   which it lists its rows, search, and the tag index.
//! - [`capture`], [`clipboard`]: what is recorded for each kind of
//!   content, and the capture protocol that keeps one record per content.
//! - [`clipboard_monitor`]: the poller's memory of what it saw last.
//! - [`extract`], [`pixels`]: normalising what the platforms deliver.
//! - [`cleanup`]: retention requests and their validation.
//! - [`codec`], [`json`], [`layout`]: rows as they are persisted, and where.
//! - [`settings`]: shortcuts and their collisions.
//! - [`format`], [`precision`], [`text`]: numbers and text.
//! - [`laws`]: what holds of capture, retention and search in general.

pub mod capture;
pub mod cleanup;
pub mod clipboard;
pub mod clipboard_monitor;
pub mod codec;
pub mod db;
pub mod extract;
pub mod fingerprint;
pub mod format;
pub mod item;
pub mod json;
pub mod laws;
pub mod layout;
pub mod listing;
pub mod pixels;
pub mod precision;
pub mod query;
pub mod settings;
pub mod tags;
pub mod text;
pub mod time;
