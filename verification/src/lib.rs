//! Core logic of a playlist synchroniser between two music catalogs.
//!
//! Tracks are matched across catalogs by their recording code (ISRC); when a
//! code maps to several catalog entries, descriptive metadata (album name and
//! release date) breaks the tie through a distance score.  The modules below
//! cover the identity resolver, the calendar handling behind release dates,
//! the pagination and batching rules of the catalog gateways, the
//! authorization handshake state machine, and the playlist name matching that
//! drives a sync run.  Network transport, JSON traversal and the interactive
//! browser flow live outside this crate.

pub mod amp;
pub mod auth;
pub mod lev;
pub mod resolve;
pub mod source;
pub mod target;
pub mod batch;
pub mod dates;
pub mod paging;
pub mod sync;
pub mod text;
