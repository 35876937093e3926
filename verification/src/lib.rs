//! Screenshot index and single-slot sharing: screenshots are grouped by the
//! application that owns them, sorted by file name, and at most one of them
//! is published at a time behind an unguessable token.

pub mod text;
pub mod order;
pub mod paths;
pub mod screenshot;
pub mod catalog;
pub mod index;
pub mod share;
pub mod app;
pub mod selection;
pub mod ui;
