//! Aggregation of per-header API fragments into one cross-referenced document.
//!
//! The library walks a tree of header directories, classifies and loads the
//! fragment records found beside each header's boundary file, folds the OS
//! affinity tags of every entity into its header, resolves type-alias
//! references into embedded copies, and assembles the sorted document.

pub mod affinity;
pub mod document;
pub mod fragment;
pub mod loader;
pub mod model;
pub mod order;
pub mod reference;
pub mod text;
pub mod walk;
