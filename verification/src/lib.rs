//! Exchange the base names of two filesystem entries.
//!
//! Given two resolved, absolute, existence-checked paths, the library decides
//! how to swap their base names so that each entry ends up carrying the
//! other's former name while keeping its own parent directory and, for files,
//! its own extension. The decision work — classifying the relationship of the
//! two paths, planning collision-free temporary names, sequencing the rename
//! operations, and mapping failures to a stable error taxonomy — is verified
//! here. The renames themselves, and everything else that touches the
//! operating system, are left to the embedding program, which hands this
//! library plain values and carries out the plan it returns.

pub mod exchange;
pub mod file_rename;
pub mod fs_model;
pub mod path_checkout;
pub mod path_text;
pub mod sequencer;
pub mod types;
