//! A read-only parser and traversal engine for Windows Registry hive files.
//!
//! A hive is a single byte buffer: a fixed 4096-byte base block followed by a
//! run of hive bins holding variable-length cells. Cells form a tree of named
//! keys, each owning named values and pointing at subkey lists and a shared
//! security descriptor. The traversal engine walks that tree depth-first and
//! emits one record per value, in a deterministic order.

pub mod baseblock;
pub mod cell;
pub mod db;
pub mod errors;
pub mod hive;
pub mod hivebin;
pub mod lf;
pub mod lh;
pub mod li;
pub mod nk;
pub mod record;
pub mod ri;
pub mod sk;
pub mod utils;
pub mod vk;
