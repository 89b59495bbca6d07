//! Filesystem operations for a desktop editor: the decisions behind reading,
//! creating, renaming, moving, copying and deleting paths, with the disk access
//! itself left to the caller.
//!
//! - `resolver`: existence and kind checks before an operation.
//! - `collision`, `naming`: where a copy lands without overwriting anything.
//! - `tree`, `order`: directory levels in listing order.
//! - `transfer`: where moves and copies land, and the steps of a tree copy.
//! - `binary`: base64 transfer of file contents.
//! - `config`, `fonts`, `window`, `greeting`: the settings layer.

pub mod binary;
pub mod collision;
pub mod config;
pub mod error;
pub mod fonts;
pub mod greeting;
pub mod naming;
pub mod order;
pub mod paths;
pub mod resolver;
pub mod transfer;
pub mod tree;
pub mod window;
