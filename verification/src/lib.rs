//! A verified simulation engine for Conway's Game of Life on a toroidal grid.
//!
//! The [`universe::Universe`] owns a flat, row-major buffer of binary
//! [`cell::Cell`] states together with its grid dimensions.  Every operation
//! — sizing, per-cell editing, bulk seeding, the generation step `tick`, and
//! the textual rendering — carries a contract that pins down its full effect
//! on the grid.

pub mod cell;
pub mod laws;
pub mod universe;
