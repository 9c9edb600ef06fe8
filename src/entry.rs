//! One captured directory entry and the text of its row.

use chrono::TimeZone;
use vstd::prelude::*;
use crate::identity::{resolved_name, IdentityCache};
use crate::mode::{format_permissions, get_file_classification_char, kind_of_mode, mode_string, suffix_of};
use crate::text::{decimal_of, decimal_text, pad_left, padded_left};

verus! {

/// The metadata of one directory entry, read once per listing: every later
/// step (block total, sort, rows) sees these same values.
pub struct EntryInfo {
    /// The base name (`.` and `..` for the synthesized rows).
    pub name: String,
    /// The raw `st_mode`: file-type bits and permission bits.
    pub mode: u32,
    /// The hard-link count.
    pub nlink: u64,
    /// The numeric owner id.
    pub uid: u32,
    /// The numeric group id.
    pub gid: u32,
    /// The size in bytes.
    pub size: u64,
    /// The modification time, in seconds since the Unix epoch.
    pub mtime: i64,
    /// The allocated storage, in 512-byte units.
    pub blocks: u64,
}

/// Width of the link-count column.
pub const LINKS_WIDTH: usize = 3;

/// Width of the size column.
pub const SIZE_WIDTH: usize = 6;

/// The suffix that `-F` adds to the name of an entry with mode `mode`.
pub open spec fn shown_suffix(mode: u32, classify: bool) -> Seq<char> {
    if classify {
        suffix_of(mode)
    } else {
        Seq::empty()
    }
}

/// The name column: the base name, then the classification suffix if asked.
pub open spec fn name_column(e: EntryInfo, classify: bool) -> Seq<char> {
    e.name@ + shown_suffix(e.mode, classify)
}

/// A long row: mode string, link count (width 3), owner, group, size
/// (width 6), modification time and name column, joined by single blanks.
pub open spec fn long_row(
    e: EntryInfo,
    owner: Seq<char>,
    group: Seq<char>,
    time: Seq<char>,
    classify: bool,
) -> Seq<char> {
    mode_string(kind_of_mode(e.mode), e.mode) + seq![' '] + padded_left(
        decimal_of(e.nlink as nat),
        LINKS_WIDTH as nat,
    ) + seq![' '] + owner + seq![' '] + group + seq![' '] + padded_left(
        decimal_of(e.size as nat),
        SIZE_WIDTH as nat,
    ) + seq![' '] + time + seq![' '] + name_column(e, classify)
}

/// The text shown for `e`: its long row under `long_format` (with owner and
/// group resolved through `ids`), else its name column.
pub open spec fn entry_text(
    e: EntryInfo,
    ids: IdentityCache,
    time: Seq<char>,
    classify: bool,
    long_format: bool,
) -> Seq<char> {
    if long_format {
        long_row(
            e,
            resolved_name(ids.owner_names(), e.uid),
            resolved_name(ids.group_names(), e.gid),
            time,
            classify,
        )
    } else {
        name_column(e, classify)
    }
}

/// Relies on chrono's `Local.timestamp_opt(secs, 0)` and, on a single local
/// time, its `format("%b %e %H:%M")`: three-letter month, space-padded day,
/// two-digit hour and minute, twelve characters in all. Which text comes out
/// depends on the machine's time zone; `None` is an out-of-range time.
#[verifier::external_body]
pub(crate) fn local_time_text(secs: i64) -> (r: Option<String>)
    ensures
        match r {
            Some(t) => t@.len() == 12,
            None => true,
        },
{
    match chrono::Local.timestamp_opt(secs, 0) {
        chrono::LocalResult::Single(dt) => Some(dt.format("%b %e %H:%M").to_string()),
        _ => None,
    }
}

fn push_blank(s: &mut String)
    ensures
        final(s)@ == old(s)@ + seq![' '],
{
    proof { reveal_strlit(" "); }
    s.append(" ");
}

/// Renders the row of `e`: under `long_format` the metadata columns with the
/// given modification-time text, else the bare name; with `classify` the
/// name carries its type suffix.
pub fn list_directory_entry(
    e: &EntryInfo,
    ids: &IdentityCache,
    time: &str,
    classify: bool,
    long_format: bool,
) -> (r: String)
    ensures
        r@ == entry_text(*e, *ids, time@, classify, long_format),
{
    let mut name = e.name.clone();
    if classify {
        name.append(get_file_classification_char(e.mode));
    } else {
        assert(name@ =~= name@ + Seq::<char>::empty());
    }
    if !long_format {
        return name;
    }
    let mut row = format_permissions(e.mode);
    push_blank(&mut row);
    let links = decimal_text(e.nlink as u128);
    row.append(pad_left(links.as_str(), LINKS_WIDTH).as_str());
    push_blank(&mut row);
    row.append(ids.resolve_owner(e.uid).as_str());
    push_blank(&mut row);
    row.append(ids.resolve_group(e.gid).as_str());
    push_blank(&mut row);
    let size = decimal_text(e.size as u128);
    row.append(pad_left(size.as_str(), SIZE_WIDTH).as_str());
    push_blank(&mut row);
    row.append(time);
    push_blank(&mut row);
    row.append(name.as_str());
    row
}

} // verus!
