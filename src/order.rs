//! Collation of entry names: `.` and `..` first, then names compared without
//! one leading dot and in lower case, ties kept in enumeration order.

use vstd::prelude::*;
use crate::entry::EntryInfo;
use crate::text::{lower_of, lowercase};

verus! {

/// Whether a name is hidden: it starts with `.`.
pub open spec fn is_hidden(name: Seq<char>) -> bool {
    name.len() > 0 && name[0] == '.'
}

/// Whether an entry is listed under the hidden-file policy.
pub open spec fn is_visible(name: Seq<char>, show_hidden: bool) -> bool {
    show_hidden || !is_hidden(name)
}

/// Whether a name is `.` or `..`.
pub open spec fn is_dot_entry(name: Seq<char>) -> bool {
    name == seq!['.'] || name == seq!['.', '.']
}

/// The collation key of a name: empty for `.` and `..`; otherwise the name
/// without one leading dot, in lower case.
pub open spec fn sort_key_of(name: Seq<char>) -> Seq<char> {
    if is_dot_entry(name) {
        Seq::empty()
    } else if is_hidden(name) {
        lower_of(name.drop_first())
    } else {
        lower_of(name)
    }
}

/// Lexicographic order of character sequences by code point (the order of
/// `str` comparison).
pub open spec fn key_le(a: Seq<char>, b: Seq<char>) -> bool
    decreases a.len(),
{
    if a.len() == 0 {
        true
    } else if b.len() == 0 {
        false
    } else if a[0] != b[0] {
        a[0] < b[0]
    } else {
        key_le(a.drop_first(), b.drop_first())
    }
}

pub proof fn lemma_key_le_reflexive(a: Seq<char>)
    ensures
        key_le(a, a),
    decreases a.len(),
{
    if a.len() > 0 {
        lemma_key_le_reflexive(a.drop_first());
    }
}

pub proof fn lemma_key_le_total(a: Seq<char>, b: Seq<char>)
    ensures
        key_le(a, b) || key_le(b, a),
    decreases a.len(),
{
    if a.len() > 0 && b.len() > 0 && a[0] == b[0] {
        lemma_key_le_total(a.drop_first(), b.drop_first());
    }
}

pub proof fn lemma_key_le_antisymmetric(a: Seq<char>, b: Seq<char>)
    requires
        key_le(a, b),
        key_le(b, a),
    ensures
        a == b,
    decreases a.len(),
{
    if a.len() > 0 && b.len() > 0 {
        if a[0] == b[0] {
            lemma_key_le_antisymmetric(a.drop_first(), b.drop_first());
            assert(a =~= seq![a[0]] + a.drop_first());
            assert(b =~= seq![b[0]] + b.drop_first());
        } else {
            assert(a[0] != b[0]);
        }
    } else {
        assert(a.len() == 0 && b.len() == 0);
        assert(a =~= b);
    }
}

pub proof fn lemma_key_le_transitive(a: Seq<char>, b: Seq<char>, c: Seq<char>)
    requires
        key_le(a, b),
        key_le(b, c),
    ensures
        key_le(a, c),
    decreases a.len(),
{
    if a.len() > 0 && b.len() > 0 && c.len() > 0 && a[0] == b[0] && b[0] == c[0] {
        lemma_key_le_transitive(a.drop_first(), b.drop_first(), c.drop_first());
    }
}

/// The collation key of entry `i`.
pub open spec fn key_at(entries: Seq<EntryInfo>, i: int) -> Seq<char> {
    sort_key_of(entries[i].name@)
}

/// `order` lists entries by their collation keys, ties in enumeration order.
pub open spec fn is_sorted_stably(entries: Seq<EntryInfo>, order: Seq<usize>) -> bool {
    &&& forall|a: int, b: int|
        0 <= a < b < order.len() ==> key_le(
            #[trigger] key_at(entries, order[a] as int),
            #[trigger] key_at(entries, order[b] as int),
        )
    &&& forall|a: int, b: int|
        0 <= a < b < order.len() && key_at(entries, order[a] as int) == key_at(
            entries,
            order[b] as int,
        ) ==> #[trigger] order[a] < #[trigger] order[b]
}

/// `order` holds each listed entry exactly once, and nothing else.
pub open spec fn lists_visible(entries: Seq<EntryInfo>, show_hidden: bool, order: Seq<usize>) -> bool {
    &&& forall|a: int|
        0 <= a < order.len() ==> #[trigger] order[a] < entries.len() && is_visible(
            entries[order[a] as int].name@,
            show_hidden,
        )
    &&& forall|k: int|
        0 <= k < entries.len() && is_visible(#[trigger] entries[k].name@, show_hidden)
            ==> order.contains(k as usize)
    &&& forall|a: int, b: int| 0 <= a < b < order.len() ==> order[a] != order[b]
}

/// `order` is the listing order of `entries`: the listed entries, sorted
/// stably by collation key.
pub open spec fn is_listing_order(
    entries: Seq<EntryInfo>,
    show_hidden: bool,
    order: Seq<usize>,
) -> bool {
    lists_visible(entries, show_hidden, order) && is_sorted_stably(entries, order)
}

/// Whether `name` is hidden.
pub fn hidden_name(name: &str) -> (r: bool)
    ensures
        r == is_hidden(name@),
{
    name.unicode_len() > 0 && name.get_char(0) == '.'
}

fn str_chars(s: &str) -> (r: Vec<char>)
    ensures
        r@ == s@,
{
    let n = s.unicode_len();
    let mut out: Vec<char> = Vec::new();
    let mut i: usize = 0;
    while i < n
        invariant
            n == s@.len(),
            i <= n,
            out@ == s@.take(i as int),
        decreases n - i,
    {
        out.push(s.get_char(i));
        i = i + 1;
        assert(out@ =~= s@.take(i as int));
    }
    assert(s@.take(n as int) =~= s@);
    out
}

/// The collation key of `name`, as characters.
pub fn sort_key(name: &str) -> (r: Vec<char>)
    ensures
        r@ == sort_key_of(name@),
{
    let n = name.unicode_len();
    if n == 1 && name.get_char(0) == '.' {
        assert(name@ =~= seq!['.']);
        return Vec::new();
    }
    if n == 2 && name.get_char(0) == '.' && name.get_char(1) == '.' {
        assert(name@ =~= seq!['.', '.']);
        return Vec::new();
    }
    assert(!is_dot_entry(name@)) by {
        if name@ == seq!['.'] || name@ == seq!['.', '.'] {
            assert(name@[0] == '.');
        }
    }
    if n > 0 && name.get_char(0) == '.' {
        let rest = name.substring_char(1, n);
        assert(rest@ =~= name@.drop_first());
        let folded = lowercase(rest);
        str_chars(folded.as_str())
    } else {
        let folded = lowercase(name);
        str_chars(folded.as_str())
    }
}

/// Compares two keys in lexicographic code-point order.
pub fn key_less_or_equal(a: &Vec<char>, b: &Vec<char>) -> (r: bool)
    ensures
        r == key_le(a@, b@),
{
    let mut i: usize = 0;
    assert(a@.skip(0) =~= a@);
    assert(b@.skip(0) =~= b@);
    assert(a@.take(0) =~= b@.take(0));
    while i < a.len()
        invariant
            i <= a@.len(),
            i <= b@.len(),
            a@.take(i as int) == b@.take(i as int),
            key_le(a@, b@) == key_le(a@.skip(i as int), b@.skip(i as int)),
        decreases a@.len() - i,
    {
        if i >= b.len() {
            return false;
        }
        if a[i] != b[i] {
            return a[i] < b[i];
        }
        assert(a@.skip(i as int).drop_first() =~= a@.skip(i + 1));
        assert(b@.skip(i as int).drop_first() =~= b@.skip(i + 1));
        assert(a@.take(i + 1) =~= a@.take(i as int).push(a@[i as int]));
        assert(b@.take(i + 1) =~= b@.take(i as int).push(b@[i as int]));
        i = i + 1;
    }
    true
}

proof fn lemma_insert_keeps_order(
    entries: Seq<EntryInfo>,
    old_order: Seq<usize>,
    j: int,
    i: usize,
)
    requires
        0 <= j <= old_order.len(),
        i < entries.len(),
        is_sorted_stably(entries, old_order),
        forall|a: int| 0 <= a < old_order.len() ==> #[trigger] old_order[a] < i,
        j > 0 ==> key_le(key_at(entries, old_order[j - 1] as int), key_at(entries, i as int)),
        forall|q: int|
            j <= q < old_order.len() ==> !key_le(
                #[trigger] key_at(entries, old_order[q] as int),
                key_at(entries, i as int),
            ),
    ensures
        is_sorted_stably(entries, old_order.insert(j, i)),
{
    let new_order = old_order.insert(j, i);
    let ki = key_at(entries, i as int);
    assert forall|a: int, b: int| 0 <= a < b < new_order.len() implies key_le(
        #[trigger] key_at(entries, new_order[a] as int),
        #[trigger] key_at(entries, new_order[b] as int),
    ) && (key_at(entries, new_order[a] as int) == key_at(entries, new_order[b] as int)
        ==> new_order[a] < new_order[b]) by {
        let ka = key_at(entries, new_order[a] as int);
        let kb = key_at(entries, new_order[b] as int);
        if b < j {
            assert(new_order[a] == old_order[a] && new_order[b] == old_order[b]);
            assert(key_le(key_at(entries, old_order[a] as int), key_at(entries, old_order[b] as int)));
        } else if b == j {
            assert(new_order[a] == old_order[a]);
            assert(new_order[b] == i);
            assert(old_order[a] < i);
            if a < j - 1 {
                assert(key_le(
                    key_at(entries, old_order[a] as int),
                    key_at(entries, old_order[j - 1] as int),
                ));
                lemma_key_le_transitive(ka, key_at(entries, old_order[j - 1] as int), ki);
            }
        } else if a > j {
            assert(new_order[a] == old_order[a - 1] && new_order[b] == old_order[b - 1]);
            assert(key_le(
                key_at(entries, old_order[a - 1] as int),
                key_at(entries, old_order[b - 1] as int),
            ));
        } else if a == j {
            assert(new_order[a] == i);
            assert(new_order[b] == old_order[b - 1]);
            assert(!key_le(kb, ki));
            lemma_key_le_total(kb, ki);
            if ka == kb {
                lemma_key_le_reflexive(ki);
            }
        } else {
            assert(new_order[a] == old_order[a] && new_order[b] == old_order[b - 1]);
            assert(key_le(
                key_at(entries, old_order[a] as int),
                key_at(entries, old_order[b - 1] as int),
            ));
        }
    }
}

/// The listing order of `entries`: the positions of the entries that the
/// hidden-file policy lets through, sorted stably by collation key.
pub fn listing_order(entries: &Vec<EntryInfo>, show_hidden: bool) -> (r: Vec<usize>)
    ensures
        is_listing_order(entries@, show_hidden, r@),
{
    let n = entries.len();
    let mut keys: Vec<Vec<char>> = Vec::new();
    let mut k: usize = 0;
    while k < n
        invariant
            n == entries@.len(),
            k <= n,
            keys@.len() == k,
            forall|q: int| 0 <= q < k ==> #[trigger] keys@[q]@ == key_at(entries@, q),
        decreases n - k,
    {
        keys.push(sort_key(entries[k].name.as_str()));
        k = k + 1;
    }
    let mut order: Vec<usize> = Vec::new();
    let mut i: usize = 0;
    while i < n
        invariant
            n == entries@.len(),
            i <= n,
            keys@.len() == n,
            forall|q: int| 0 <= q < n ==> #[trigger] keys@[q]@ == key_at(entries@, q),
            forall|a: int|
                0 <= a < order@.len() ==> #[trigger] order@[a] < i && is_visible(
                    entries@[order@[a] as int].name@,
                    show_hidden,
                ),
            forall|q: int|
                0 <= q < i && is_visible(#[trigger] entries@[q].name@, show_hidden)
                    ==> order@.contains(q as usize),
            forall|a: int, b: int| 0 <= a < b < order@.len() ==> order@[a] != order@[b],
            is_sorted_stably(entries@, order@),
        decreases n - i,
    {
        if show_hidden || !hidden_name(entries[i].name.as_str()) {
            let mut j: usize = order.len();
            while j > 0 && !key_less_or_equal(&keys[order[j - 1]], &keys[i])
                invariant
                    j <= order@.len(),
                    i < n,
                    keys@.len() == n,
                    forall|a: int| 0 <= a < order@.len() ==> #[trigger] order@[a] < i,
                    forall|q: int|
                        j <= q < order@.len() ==> !key_le(
                            #[trigger] keys@[order@[q] as int]@,
                            keys@[i as int]@,
                        ),
                decreases j,
            {
                j = j - 1;
            }
            let ghost old_order = order@;
            proof {
                assert forall|q: int| j <= q < old_order.len() implies !key_le(
                    #[trigger] key_at(entries@, old_order[q] as int),
                    key_at(entries@, i as int),
                ) by {
                    assert(keys@[old_order[q] as int]@ == key_at(entries@, old_order[q] as int));
                }
                if j > 0 {
                    assert(keys@[old_order[j - 1] as int]@ == key_at(
                        entries@,
                        old_order[j - 1] as int,
                    ));
                }
                lemma_insert_keeps_order(entries@, old_order, j as int, i);
            }
            order.insert(j, i);
            proof {
                assert forall|a: int| 0 <= a < order@.len() implies #[trigger] order@[a] < i + 1
                    && is_visible(entries@[order@[a] as int].name@, show_hidden) by {
                    if a > j {
                        assert(order@[a] == old_order[a - 1]);
                    }
                }
                assert forall|q: int|
                    0 <= q < i + 1 && is_visible(
                        #[trigger] entries@[q].name@,
                        show_hidden,
                    ) implies order@.contains(q as usize) by {
                    if q == i {
                        assert(order@[j as int] == i);
                    } else {
                        assert(old_order.contains(q as usize));
                        let a = choose|a: int| 0 <= a < old_order.len() && old_order[a] == q as usize;
                        if a < j {
                            assert(order@[a] == q as usize);
                        } else {
                            assert(order@[a + 1] == q as usize);
                        }
                    }
                }
                assert forall|a: int, b: int| 0 <= a < b < order@.len() implies order@[a]
                    != order@[b] by {
                    if a == j {
                        assert(order@[b] == old_order[b - 1]);
                    } else if b == j {
                        assert(order@[a] == old_order[a]);
                    } else if a > j {
                        assert(order@[a] == old_order[a - 1] && order@[b] == old_order[b - 1]);
                    } else if b > j {
                        assert(order@[a] == old_order[a] && order@[b] == old_order[b - 1]);
                    } else {
                        assert(order@[a] == old_order[a] && order@[b] == old_order[b]);
                    }
                }
            }
        } else {
            proof {
                assert forall|a: int| 0 <= a < order@.len() implies #[trigger] order@[a] < i + 1
                    && is_visible(entries@[order@[a] as int].name@, show_hidden) by {}
            }
        }
        i = i + 1;
    }
    order
}

proof fn lemma_stable_orders_agree(entries: Seq<EntryInfo>, o1: Seq<usize>, o2: Seq<usize>)
    requires
        is_sorted_stably(entries, o1),
        is_sorted_stably(entries, o2),
        forall|a: int, b: int| 0 <= a < b < o1.len() ==> o1[a] != o1[b],
        forall|a: int, b: int| 0 <= a < b < o2.len() ==> o2[a] != o2[b],
        forall|x: usize| o1.contains(x) <==> o2.contains(x),
    ensures
        o1 == o2,
    decreases o1.len(),
{
    if o1.len() == 0 {
        if o2.len() > 0 {
            assert(o2.contains(o2[0]));
        }
        assert(o1 =~= o2);
    } else {
        assert(o1.contains(o1[0]));
        let x = o1[0];
        let y = o2[0];
        if x != y {
            assert(o2.contains(y));
            let b = choose|b: int| 0 <= b < o1.len() && o1[b] == y;
            let c = choose|c: int| 0 <= c < o2.len() && o2[c] == x;
            let kx = key_at(entries, x as int);
            let ky = key_at(entries, y as int);
            assert(key_le(key_at(entries, o1[0] as int), key_at(entries, o1[b] as int)));
            assert(key_le(key_at(entries, o2[0] as int), key_at(entries, o2[c] as int)));
            lemma_key_le_antisymmetric(kx, ky);
            assert(o1[0] < o1[b]);
            assert(o2[0] < o2[c]);
        }
        let s1 = o1.drop_first();
        let s2 = o2.drop_first();
        assert forall|z: usize| s1.contains(z) <==> s2.contains(z) by {
            if s1.contains(z) {
                let a = choose|a: int| 0 <= a < s1.len() && s1[a] == z;
                assert(o1[a + 1] == z);
                assert(o1.contains(z));
                let c = choose|c: int| 0 <= c < o2.len() && o2[c] == z;
                assert(c != 0);
                assert(s2[c - 1] == z);
            }
            if s2.contains(z) {
                let a = choose|a: int| 0 <= a < s2.len() && s2[a] == z;
                assert(o2[a + 1] == z);
                assert(o2.contains(z));
                let c = choose|c: int| 0 <= c < o1.len() && o1[c] == z;
                assert(c != 0);
                assert(s1[c - 1] == z);
            }
        }
        assert forall|a: int, b: int| 0 <= a < b < s1.len() implies key_le(
            #[trigger] key_at(entries, s1[a] as int),
            #[trigger] key_at(entries, s1[b] as int),
        ) && (key_at(entries, s1[a] as int) == key_at(entries, s1[b] as int) ==> s1[a] < s1[b])
            && s1[a] != s1[b] by {
            assert(s1[a] == o1[a + 1] && s1[b] == o1[b + 1]);
            assert(key_le(key_at(entries, o1[a + 1] as int), key_at(entries, o1[b + 1] as int)));
        }
        assert forall|a: int, b: int| 0 <= a < b < s2.len() implies key_le(
            #[trigger] key_at(entries, s2[a] as int),
            #[trigger] key_at(entries, s2[b] as int),
        ) && (key_at(entries, s2[a] as int) == key_at(entries, s2[b] as int) ==> s2[a] < s2[b])
            && s2[a] != s2[b] by {
            assert(s2[a] == o2[a + 1] && s2[b] == o2[b + 1]);
            assert(key_le(key_at(entries, o2[a + 1] as int), key_at(entries, o2[b + 1] as int)));
        }
        lemma_stable_orders_agree(entries, s1, s2);
        assert(o1 =~= seq![x] + s1);
        assert(o2 =~= seq![y] + s2);
    }
}

/// The listing order is determined: two orders that both list exactly the
/// visible entries, sorted stably by collation key, are the same order.
pub proof fn lemma_listing_order_unique(
    entries: Seq<EntryInfo>,
    show_hidden: bool,
    o1: Seq<usize>,
    o2: Seq<usize>,
)
    requires
        is_listing_order(entries, show_hidden, o1),
        is_listing_order(entries, show_hidden, o2),
    ensures
        o1 == o2,
{
    assert forall|x: usize| o1.contains(x) <==> o2.contains(x) by {
        if o1.contains(x) {
            let a = choose|a: int| 0 <= a < o1.len() && o1[a] == x;
            assert(is_visible(entries[x as int].name@, show_hidden));
        }
        if o2.contains(x) {
            let a = choose|a: int| 0 <= a < o2.len() && o2[a] == x;
            assert(is_visible(entries[x as int].name@, show_hidden));
        }
    }
    lemma_stable_orders_agree(entries, o1, o2);
}

} // verus!
