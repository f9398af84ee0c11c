//! A sandboxed file-system explorer service: directory listings with
//! normalized metadata, UTF-8 text reads, and renames confined to a base
//! directory under the user's home.
//!
//! The filesystem itself is touched only by a thin host layer; everything
//! this crate exports computes over plain values (names, byte buffers,
//! timestamps) and carries a contract.

pub mod errors;
pub mod listing;
pub mod paths;
pub mod rename;
pub mod text;
pub mod timefmt;
