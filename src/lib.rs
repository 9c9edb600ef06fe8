//! A directory-listing engine in the manner of `ls -l -a -F`: flag parsing,
//! permission strings, block totals, name collation, identity fallback and
//! row rendering, all over plain values captured from the file system.

pub mod text;
pub mod mode;
pub mod flags;
pub mod identity;
pub mod entry;
pub mod order;
pub mod blocks;
pub mod listing;
