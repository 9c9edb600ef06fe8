//! Command-line flags of a listing: bundled short options and the three
//! display switches.

use vstd::prelude::*;

verus! {

/// The character sequences that a vector of strings holds.
pub open spec fn strings_view(v: Seq<String>) -> Seq<Seq<char>> {
    v.map_values(|s: String| s@)
}

/// The character sequences that a slice of string slices holds.
pub open spec fn strs_view(v: Seq<&str>) -> Seq<Seq<char>> {
    v.map_values(|s: &str| s@)
}

/// Whether a token bundles several short options (`-la`): it starts with `-`
/// and holds more than two characters.
pub open spec fn is_bundle(t: Seq<char>) -> bool {
    t.len() > 2 && t[0] == '-'
}

/// The flags that one token stands for: a bundle gives one `-x` per letter
/// after the dash, any other token stands for itself.
pub open spec fn expand_token(t: Seq<char>) -> Seq<Seq<char>> {
    if is_bundle(t) {
        Seq::new((t.len() - 1) as nat, |i: int| seq!['-', t[i + 1]])
    } else {
        seq![t]
    }
}

/// The flags that a list of tokens stands for, in order.
pub open spec fn parsed_flags(args: Seq<Seq<char>>) -> Seq<Seq<char>>
    decreases args.len(),
{
    if args.len() == 0 {
        Seq::empty()
    } else {
        parsed_flags(args.drop_last()) + expand_token(args.last())
    }
}

/// Whether `t` is the single short option `-letter`.
pub open spec fn is_option(t: Seq<char>, letter: char) -> bool {
    t == seq!['-', letter]
}

/// Whether some flag of `flags` is `-letter`.
pub open spec fn has_option(flags: Seq<Seq<char>>, letter: char) -> bool {
    exists|i: int| 0 <= i < flags.len() && #[trigger] is_option(flags[i], letter)
}

/// Splits bundled short options into single ones (`-laF` gives `-l`, `-a`,
/// `-F`); every other token is kept as it is.
pub fn parse_flags(args: &[&str]) -> (r: Vec<String>)
    ensures
        strings_view(r@) == parsed_flags(strs_view(args@)),
{
    let mut parsed: Vec<String> = Vec::new();
    let mut k: usize = 0;
    while k < args.len()
        invariant
            k <= args@.len(),
            strings_view(parsed@) == parsed_flags(strs_view(args@).take(k as int)),
        decreases args@.len() - k,
    {
        let arg: &str = args[k];
        let n = arg.unicode_len();
        let ghost before = strings_view(parsed@);
        if n > 2 && arg.get_char(0) == '-' {
            let mut j: usize = 1;
            while j < n
                invariant
                    1 <= j <= n,
                    n == arg@.len(),
                    is_bundle(arg@),
                    strings_view(parsed@) == before + expand_token(arg@).take(j - 1),
                decreases n - j,
            {
                let letter = arg.substring_char(j, j + 1);
                proof { reveal_strlit("-"); }
                let mut flag = String::from_str("-");
                flag.append(letter);
                let ghost prev = parsed@;
                parsed.push(flag);
                proof {
                    assert(flag@ =~= expand_token(arg@)[j - 1]);
                    assert(expand_token(arg@).take(j as int) =~= expand_token(arg@).take(j - 1)
                        + seq![expand_token(arg@)[j - 1]]);
                    assert(strings_view(parsed@) =~= strings_view(prev) + seq![flag@]);
                }
                j = j + 1;
            }
            proof {
                assert(expand_token(arg@).take(n - 1) =~= expand_token(arg@));
            }
        } else {
            let ghost prev = parsed@;
            parsed.push(String::from_str(arg));
            proof {
                assert(strings_view(parsed@) =~= strings_view(prev) + seq![arg@]);
            }
        }
        proof {
            let a = strs_view(args@);
            assert(a.take(k + 1).drop_last() =~= a.take(k as int));
            assert(a.take(k + 1).last() == arg@);
        }
        k = k + 1;
    }
    proof {
        assert(strs_view(args@).take(args@.len() as int) =~= strs_view(args@));
    }
    parsed
}

/// The three independent display switches of one listing.
#[derive(Clone, Copy, Debug, PartialEq, Eq, Structural)]
pub struct ListingRequest {
    /// `-l`: one row of metadata per entry, after a `total` line.
    pub long_format: bool,
    /// `-a`: include names that start with `.`, and the `.` and `..` rows.
    pub show_hidden: bool,
    /// `-F`: append a type suffix to each name.
    pub classify: bool,
}

/// The request that a list of parsed flags selects.
pub open spec fn request_of(flags: Seq<Seq<char>>) -> ListingRequest {
    ListingRequest {
        long_format: has_option(flags, 'l'),
        show_hidden: has_option(flags, 'a'),
        classify: has_option(flags, 'F'),
    }
}

fn is_option_text(t: &String, letter: char) -> (r: bool)
    ensures
        r == is_option(t@, letter),
{
    let s = t.as_str();
    if s.unicode_len() != 2 {
        return false;
    }
    let r = s.get_char(0) == '-' && s.get_char(1) == letter;
    proof {
        if r {
            assert(t@ =~= seq!['-', letter]);
        }
    }
    r
}

fn contains_option(flags: &Vec<String>, letter: char) -> (r: bool)
    ensures
        r == has_option(strings_view(flags@), letter),
{
    let mut i: usize = 0;
    while i < flags.len()
        invariant
            i <= flags@.len(),
            forall|j: int| 0 <= j < i ==> !is_option(#[trigger] strings_view(flags@)[j], letter),
        decreases flags@.len() - i,
    {
        if is_option_text(&flags[i], letter) {
            assert(is_option(strings_view(flags@)[i as int], letter));
            return true;
        }
        i = i + 1;
    }
    false
}

/// Reads the switches `-l`, `-a` and `-F` out of parsed flags; each is
/// recognised wherever it stands.
pub fn request_from_flags(flags: &Vec<String>) -> (r: ListingRequest)
    ensures
        r == request_of(strings_view(flags@)),
{
    ListingRequest {
        long_format: contains_option(flags, 'l'),
        show_hidden: contains_option(flags, 'a'),
        classify: contains_option(flags, 'F'),
    }
}

/// Whether a parsed token names a directory rather than an option.
pub open spec fn is_operand(t: Seq<char>) -> bool {
    t.len() == 0 || t[0] != '-'
}

/// The position of the first token that is not an option, if any: the
/// directory to list.
pub fn first_operand(flags: &Vec<String>) -> (r: Option<usize>)
    ensures
        match r {
            Some(i) => i < flags@.len() && is_operand(flags@[i as int]@) && forall|j: int|
                0 <= j < i ==> !is_operand(#[trigger] flags@[j]@),
            None => forall|j: int| 0 <= j < flags@.len() ==> !is_operand(#[trigger] flags@[j]@),
        },
{
    let mut i: usize = 0;
    while i < flags.len()
        invariant
            i <= flags@.len(),
            forall|j: int| 0 <= j < i ==> !is_operand(#[trigger] flags@[j]@),
        decreases flags@.len() - i,
    {
        let s = flags[i].as_str();
        if s.unicode_len() == 0 || s.get_char(0) != '-' {
            return Some(i);
        }
        i = i + 1;
    }
    None
}

} // verus!
