//! One listing pass over captured entries: filter, sort, total, rows.

use vstd::prelude::*;
use crate::blocks::{calculate_total_blocks, total_blocks_of};
use crate::entry::{entry_text, list_directory_entry, local_time_text, name_column, shown_suffix, EntryInfo};
use crate::flags::ListingRequest;
use crate::identity::IdentityCache;
use crate::mode::{kind_of_mode, mode_string};
use crate::order::{is_listing_order, listing_order};
use crate::text::{decimal_of, decimal_text};

verus! {

/// The outcome of one listing pass.
pub struct Listing {
    /// The block total in 1024-byte units; present exactly in long format.
    pub total: Option<u128>,
    /// The positions of the listed entries, in listing order.
    pub order: Vec<usize>,
    /// One row per position of `order`; `None` where the entry's
    /// modification time has no local-time rendering, so its row is skipped.
    pub rows: Vec<Option<String>>,
}

/// The optional modification-time texts, as characters.
pub open spec fn times_view(times: Seq<Option<String>>) -> Seq<Option<Seq<char>>> {
    times.map_values(
        |t: Option<String>|
            match t {
                Some(s) => Some(s@),
                None => None,
            },
    )
}

/// The row owed to entry `e`: its name column outside long format; in long
/// format its long row with the time text `time`, or no row where the time
/// could not be rendered.
pub open spec fn row_matches(
    row: Option<String>,
    e: EntryInfo,
    ids: IdentityCache,
    time: Option<Seq<char>>,
    request: ListingRequest,
) -> bool {
    if !request.long_format {
        row is Some && row->0@ == entry_text(e, ids, Seq::empty(), request.classify, false)
    } else {
        match time {
            Some(t) => row is Some && row->0@ == entry_text(e, ids, t, request.classify, true),
            None => row is None,
        }
    }
}

/// `r` is the listing of `entries` under `request`, with owners and groups
/// resolved through `ids` and `times[k]` the time text of entry `k`.
pub open spec fn listing_matches(
    entries: Seq<EntryInfo>,
    ids: IdentityCache,
    request: ListingRequest,
    times: Seq<Option<Seq<char>>>,
    r: Listing,
) -> bool {
    &&& match r.total {
        Some(t) => request.long_format && t as nat == total_blocks_of(entries, request.show_hidden),
        None => !request.long_format,
    }
    &&& is_listing_order(entries, request.show_hidden, r.order@)
    &&& r.rows@.len() == r.order@.len()
    &&& forall|k: int|
        0 <= k < r.rows@.len() ==> row_matches(
            #[trigger] r.rows@[k],
            entries[r.order@[k] as int],
            ids,
            times[r.order@[k] as int],
            request,
        )
}

/// Every time text that a rendering can hand over has twelve characters.
pub open spec fn times_well_formed(times: Seq<Option<Seq<char>>>) -> bool {
    forall|k: int| 0 <= k < times.len() ==> (#[trigger] times[k] matches Some(t) ==> t.len() == 12)
}

/// Lists `entries` under `request`, given the modification-time text of
/// each entry (`None` where it has none); `times` is read only in long format.
pub fn render_listing(
    entries: &Vec<EntryInfo>,
    request: ListingRequest,
    ids: &IdentityCache,
    times: &Vec<Option<String>>,
) -> (r: Listing)
    requires
        times@.len() == entries@.len(),
    ensures
        listing_matches(entries@, *ids, request, times_view(times@), r),
{
    let total = if request.long_format {
        Some(calculate_total_blocks(entries, request.show_hidden))
    } else {
        None
    };
    let order = listing_order(entries, request.show_hidden);
    let mut rows: Vec<Option<String>> = Vec::new();
    let mut k: usize = 0;
    while k < order.len()
        invariant
            k <= order@.len(),
            times@.len() == entries@.len(),
            is_listing_order(entries@, request.show_hidden, order@),
            rows@.len() == k,
            forall|q: int|
                0 <= q < k ==> row_matches(
                    #[trigger] rows@[q],
                    entries@[order@[q] as int],
                    *ids,
                    times_view(times@)[order@[q] as int],
                    request,
                ),
        decreases order@.len() - k,
    {
        let idx = order[k];
        assert(order@[k as int] < entries@.len());
        let e = &entries[idx];
        if !request.long_format {
            proof { reveal_strlit(""); }
            rows.push(Some(list_directory_entry(e, ids, "", request.classify, false)));
        } else {
            match &times[idx] {
                Some(t) => {
                    rows.push(Some(list_directory_entry(e, ids, t.as_str(), request.classify, true)));
                },
                None => {
                    rows.push(None);
                },
            }
        }
        k = k + 1;
    }
    Listing { total, order, rows }
}

/// Lists `entries` under `request`, rendering each modification time in the
/// machine's local time zone (long format only). The total, the order and
/// every row but the time column are determined; an entry whose time has no
/// local rendering gets no row.
pub fn list_directory(
    entries: &Vec<EntryInfo>,
    request: ListingRequest,
    ids: &IdentityCache,
) -> (r: Listing)
    ensures
        exists|times: Seq<Option<Seq<char>>>|
            times.len() == entries@.len() && times_well_formed(times) && #[trigger] listing_matches(
                entries@,
                *ids,
                request,
                times,
                r,
            ),
{
    let mut times: Vec<Option<String>> = Vec::new();
    let mut k: usize = 0;
    while k < entries.len()
        invariant
            k <= entries@.len(),
            times@.len() == k,
            times_well_formed(times_view(times@)),
        decreases entries@.len() - k,
    {
        let ghost before = times@;
        if request.long_format {
            times.push(local_time_text(entries[k].mtime));
        } else {
            times.push(None);
        }
        proof {
            assert forall|q: int| 0 <= q < times@.len() implies (#[trigger] times_view(
                times@,
            )[q] matches Some(t) ==> t.len() == 12) by {
                if q < k {
                    assert(times_view(times@)[q] == times_view(before)[q]);
                }
            }
        }
        k = k + 1;
    }
    let r = render_listing(entries, request, ids, &times);
    assert(listing_matches(entries@, *ids, request, times_view(times@), r));
    r
}

/// The header line of a long listing.
pub open spec fn total_line_of(total: nat) -> Seq<char> {
    seq!['t', 'o', 't', 'a', 'l', ' '] + decimal_of(total)
}

/// Renders the header line `total <n>`.
pub fn total_line(total: u128) -> (r: String)
    ensures
        r@ == total_line_of(total as nat),
{
    proof { reveal_strlit("total "); }
    let mut line = String::from_str("total ");
    line.append(decimal_text(total).as_str());
    line
}

/// The three switches compose: outside long format a row is exactly the name
/// column, never a metadata column; in every mode a row ends with the name
/// column, so the `-F` suffix shows in bare and long rows alike; a long row
/// starts with the mode string.
pub proof fn lemma_flag_orthogonality(
    e: EntryInfo,
    ids: IdentityCache,
    time: Seq<char>,
    classify: bool,
    long_format: bool,
)
    ensures
        !long_format ==> entry_text(e, ids, time, classify, long_format) == e.name@
            + shown_suffix(e.mode, classify),
        ({
            let t = entry_text(e, ids, time, classify, long_format);
            let n = name_column(e, classify);
            t.len() >= n.len() && t.subrange(t.len() - n.len(), t.len() as int) == n
        }),
        ({
            let t = entry_text(e, ids, time, classify, long_format);
            let s = shown_suffix(e.mode, classify);
            t.len() >= s.len() && t.subrange(t.len() - s.len(), t.len() as int) == s
        }),
        long_format ==> entry_text(e, ids, time, classify, long_format).subrange(0, 10)
            == mode_string(kind_of_mode(e.mode), e.mode),
{
    let t = entry_text(e, ids, time, classify, long_format);
    let n = name_column(e, classify);
    let s = shown_suffix(e.mode, classify);
    if long_format {
        let head = t.subrange(0, t.len() - n.len());
        assert(t =~= head + n);
        assert(t.subrange(t.len() - n.len(), t.len() as int) =~= n);
        assert(mode_string(kind_of_mode(e.mode), e.mode).len() == 10);
        assert(t.subrange(0, 10) =~= mode_string(kind_of_mode(e.mode), e.mode));
    } else {
        assert(t.subrange(t.len() - n.len(), t.len() as int) =~= n);
    }
    assert(n.subrange(n.len() - s.len(), n.len() as int) =~= s);
    assert(t.subrange(t.len() - s.len(), t.len() as int) =~= n.subrange(
        n.len() - s.len(),
        n.len() as int,
    ));
}

} // verus!
