//! The `total` line: storage of the listed entries in 1024-byte units.

use vstd::prelude::*;
use crate::entry::EntryInfo;
use crate::order::{hidden_name, is_visible};

verus! {

/// The 512-byte units allocated to the entries that the hidden-file policy
/// lists (with `.` and `..` among them when hidden entries are shown).
pub open spec fn visible_blocks(entries: Seq<EntryInfo>, show_hidden: bool) -> nat
    decreases entries.len(),
{
    if entries.len() == 0 {
        0
    } else {
        visible_blocks(entries.drop_last(), show_hidden) + if is_visible(
            entries.last().name@,
            show_hidden,
        ) {
            entries.last().blocks as nat
        } else {
            0nat
        }
    }
}

/// The total in 1024-byte units: each 512-byte unit counts one half, and the
/// sum of halves is rounded up to a whole unit.
pub open spec fn total_blocks_of(entries: Seq<EntryInfo>, show_hidden: bool) -> nat {
    (visible_blocks(entries, show_hidden) + 1) / 2
}

/// Sums the storage of the listed entries and converts it from 512-byte to
/// 1024-byte units, rounding up.
pub fn calculate_total_blocks(entries: &Vec<EntryInfo>, all: bool) -> (r: u128)
    ensures
        r as nat == total_blocks_of(entries@, all),
{
    let mut sum: u128 = 0;
    let mut i: usize = 0;
    while i < entries.len()
        invariant
            i <= entries@.len(),
            sum as nat == visible_blocks(entries@.take(i as int), all),
            sum <= i as nat * 0xffff_ffff_ffff_ffffnat,
        decreases entries@.len() - i,
    {
        proof {
            assert(entries@.take(i + 1).drop_last() =~= entries@.take(i as int));
        }
        if all || !hidden_name(entries[i].name.as_str()) {
            proof {
                let k = i as nat;
                assert(k < 0x1_0000_0000_0000_0000nat);
                assert((k + 1) * 0xffff_ffff_ffff_ffffnat < 0xffff_ffff_ffff_ffff_ffff_ffff_ffff_ffffnat)
                    by (nonlinear_arith)
                    requires
                        k < 0x1_0000_0000_0000_0000nat,
                ;
                assert(k * 0xffff_ffff_ffff_ffffnat + 0xffff_ffff_ffff_ffffnat == (k + 1)
                    * 0xffff_ffff_ffff_ffffnat) by (nonlinear_arith);
            }
            sum = sum + entries[i].blocks as u128;
        } else {
            proof {
                assert(sum <= (i + 1) as nat * 0xffff_ffff_ffff_ffffnat) by (nonlinear_arith)
                    requires
                        sum <= i as nat * 0xffff_ffff_ffff_ffffnat,
                ;
            }
        }
        i = i + 1;
    }
    proof {
        assert(entries@.take(entries@.len() as int) =~= entries@);
    }
    sum / 2 + sum % 2
}

/// Adding an entry never lowers the total.
pub proof fn lemma_total_monotone(entries: Seq<EntryInfo>, e: EntryInfo, show_hidden: bool)
    ensures
        total_blocks_of(entries.push(e), show_hidden) >= total_blocks_of(entries, show_hidden),
{
    assert(entries.push(e).drop_last() =~= entries);
    let a = visible_blocks(entries, show_hidden);
    let b = visible_blocks(entries.push(e), show_hidden);
    assert(b >= a);
    assert((b + 1) / 2 >= (a + 1) / 2) by (nonlinear_arith)
        requires
            b >= a,
    ;
}

/// With hidden entries left out, a directory whose entries are all hidden
/// (at least `.` and `..`) totals zero, as does one with no entries at all.
pub proof fn lemma_total_of_hidden_only(entries: Seq<EntryInfo>)
    requires
        forall|k: int| 0 <= k < entries.len() ==> !is_visible(#[trigger] entries[k].name@, false),
    ensures
        total_blocks_of(entries, false) == 0,
    decreases entries.len(),
{
    if entries.len() > 0 {
        let rest = entries.drop_last();
        assert forall|k: int| 0 <= k < rest.len() implies !is_visible(
            #[trigger] rest[k].name@,
            false,
        ) by {
            assert(rest[k] == entries[k]);
        }
        lemma_total_of_hidden_only(rest);
        assert(!is_visible(entries[entries.len() - 1].name@, false));
    }
}

} // verus!
