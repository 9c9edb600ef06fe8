use dirlist::blocks::calculate_total_blocks;
use dirlist::entry::EntryInfo;
use dirlist::flags::ListingRequest;
use dirlist::identity::IdentityCache;
use dirlist::mode::format_permissions;
use dirlist::listing::{list_directory, render_listing, total_line};
use dirlist::order::{hidden_name, key_less_or_equal, listing_order, sort_key};

fn entry(name: &str, mode: u32, blocks: u64) -> EntryInfo {
    EntryInfo {
        name: name.to_string(),
        mode,
        nlink: 1,
        uid: 1000,
        gid: 1000,
        size: 5,
        mtime: 1_700_000_000,
        blocks,
    }
}

fn names(entries: &[EntryInfo], order: &[usize]) -> Vec<String> {
    order.iter().map(|&i| entries[i].name.clone()).collect()
}

fn request(long_format: bool, show_hidden: bool, classify: bool) -> ListingRequest {
    ListingRequest { long_format, show_hidden, classify }
}

#[test]
fn sort_anchors_dot_entries_and_ignores_case_and_leading_dot() {
    let entries = vec![
        entry(".hidden", 0o100644, 0),
        entry("Banana", 0o100644, 0),
        entry("apple", 0o100644, 0),
        entry(".", 0o040755, 0),
        entry("..", 0o040755, 0),
    ];
    let order = listing_order(&entries, true);
    assert_eq!(names(&entries, &order), vec![".", "..", "apple", "Banana", ".hidden"]);
    let order = listing_order(&entries, false);
    assert_eq!(names(&entries, &order), vec!["apple", "Banana"]);
}

#[test]
fn sort_is_stable_on_equal_keys() {
    let entries = vec![
        entry("b", 0o100644, 0),
        entry("README", 0o100644, 0),
        entry(".readme", 0o100644, 0),
        entry("readme", 0o100644, 0),
        entry("A", 0o100644, 0),
    ];
    let order = listing_order(&entries, true);
    assert_eq!(names(&entries, &order), vec!["A", "b", "README", ".readme", "readme"]);
}

#[test]
fn sort_keys() {
    assert_eq!(sort_key("."), Vec::<char>::new());
    assert_eq!(sort_key(".."), Vec::<char>::new());
    assert_eq!(sort_key(".Bashrc"), vec!['b', 'a', 's', 'h', 'r', 'c']);
    assert_eq!(sort_key("ABC"), vec!['a', 'b', 'c']);
    assert_eq!(sort_key("...x"), vec!['.', '.', 'x']);
    assert!(key_less_or_equal(&vec!['a'], &vec!['a', 'b']));
    assert!(!key_less_or_equal(&vec!['b'], &vec!['a', 'b']));
    assert!(key_less_or_equal(&vec![], &vec![]));
    assert!(hidden_name(".git"));
    assert!(!hidden_name("git"));
    assert!(!hidden_name(""));
}

#[test]
fn total_rounds_half_units_up() {
    let entries = vec![entry("a", 0o100644, 8), entry("b", 0o100644, 1)];
    assert_eq!(calculate_total_blocks(&entries, false), 5);
    let entries = vec![entry("a", 0o100644, 1)];
    assert_eq!(calculate_total_blocks(&entries, false), 1);
    let entries = vec![entry("a", 0o100644, 0)];
    assert_eq!(calculate_total_blocks(&entries, false), 0);
}

#[test]
fn total_counts_dot_entries_only_when_hidden_shown() {
    let entries = vec![
        entry(".", 0o040755, 8),
        entry("..", 0o040755, 8),
        entry(".cache", 0o040755, 8),
        entry("notes", 0o100644, 16),
    ];
    assert_eq!(calculate_total_blocks(&entries, false), 8);
    assert_eq!(calculate_total_blocks(&entries, true), 20);
}

#[test]
fn total_of_empty_directory_is_zero() {
    assert_eq!(calculate_total_blocks(&vec![], false), 0);
    assert_eq!(calculate_total_blocks(&vec![], true), 0);
    let dots = vec![entry(".", 0o040755, 8), entry("..", 0o040755, 8)];
    assert_eq!(calculate_total_blocks(&dots, false), 0);
}

#[test]
fn total_never_drops_when_a_file_is_added() {
    let mut entries = vec![entry("a", 0o100644, 3)];
    let before = calculate_total_blocks(&entries, false);
    entries.push(entry("b", 0o100644, 1));
    let after = calculate_total_blocks(&entries, false);
    assert_eq!((before, after), (2, 2));
    entries.push(entry("c", 0o100644, 1));
    assert_eq!(calculate_total_blocks(&entries, false), 3);
    assert_eq!(calculate_total_blocks(&vec![entry("m", 0o100644, u64::MAX)], false), 1u128 << 63);
}

#[test]
fn total_line_text() {
    assert_eq!(total_line(0), "total 0");
    assert_eq!(total_line(42), "total 42");
}

fn fixed_set() -> Vec<EntryInfo> {
    vec![
        entry(".", 0o040755, 8),
        entry("..", 0o040755, 8),
        entry("tool", 0o100755, 8),
        entry(".profile", 0o100644, 8),
        entry("docs", 0o040755, 8),
    ]
}

#[test]
fn all_flag_combinations_compose() {
    let entries = fixed_set();
    let ids = IdentityCache::new();
    let times: Vec<Option<String>> = entries.iter().map(|_| Some("Nov 14 22:13".to_string())).collect();
    for bits in 0..8u32 {
        let req = request(bits & 1 != 0, bits & 2 != 0, bits & 4 != 0);
        let listing = render_listing(&entries, req, &ids, &times);
        assert_eq!(listing.total.is_some(), req.long_format);
        let expected: Vec<&str> = if req.show_hidden {
            vec![".", "..", "docs", ".profile", "tool"]
        } else {
            vec!["docs", "tool"]
        };
        assert_eq!(names(&entries, &listing.order), expected);
        assert_eq!(listing.rows.len(), expected.len());
        for (row, &i) in listing.rows.iter().zip(listing.order.iter()) {
            let row = row.as_ref().unwrap();
            let e = &entries[i];
            let suffix = if !req.classify {
                ""
            } else if e.mode & 0o170000 == 0o040000 {
                "/"
            } else if e.mode & 0o111 != 0 {
                "*"
            } else {
                ""
            };
            let name = format!("{}{}", e.name, suffix);
            if req.long_format {
                assert!(row.ends_with(&format!(" Nov 14 22:13 {}", name)));
                assert!(row.starts_with(&format_permissions(e.mode)));
                assert!(row.contains(" 1000 1000 "));
            } else {
                assert_eq!(row, &name);
                assert!(!row.contains("rwx"));
                assert!(!row.contains("1000"));
            }
        }
    }
}

#[test]
fn long_listing_with_hidden_entries() {
    let entries = fixed_set();
    let mut ids = IdentityCache::new();
    ids.record_owner(1000, Some("dev".to_string()));
    let times: Vec<Option<String>> = entries.iter().map(|_| Some("Nov 14 22:13".to_string())).collect();
    let listing = render_listing(&entries, request(true, true, false), &ids, &times);
    assert_eq!(listing.total, Some(20));
    let rows: Vec<String> = listing.rows.into_iter().map(|r| r.unwrap()).collect();
    assert_eq!(
        rows,
        vec![
            "drwxr-xr-x   1 dev 1000      5 Nov 14 22:13 .",
            "drwxr-xr-x   1 dev 1000      5 Nov 14 22:13 ..",
            "drwxr-xr-x   1 dev 1000      5 Nov 14 22:13 docs",
            "-rw-r--r--   1 dev 1000      5 Nov 14 22:13 .profile",
            "-rwxr-xr-x   1 dev 1000      5 Nov 14 22:13 tool",
        ]
    );
}

#[test]
fn row_without_local_time_is_skipped() {
    let entries = vec![entry("a", 0o100644, 2), entry("b", 0o100644, 2)];
    let ids = IdentityCache::new();
    let times = vec![None, Some("Jan  1 00:00".to_string())];
    let listing = render_listing(&entries, request(true, false, false), &ids, &times);
    assert_eq!(listing.total, Some(2));
    assert_eq!(listing.order, vec![0, 1]);
    assert_eq!(listing.rows[0], None);
    assert_eq!(
        listing.rows[1].as_deref(),
        Some("-rw-r--r--   1 1000 1000      5 Jan  1 00:00 b")
    );
    let bare = render_listing(&entries, request(false, false, false), &ids, &times);
    assert_eq!(bare.rows, vec![Some("a".to_string()), Some("b".to_string())]);
    assert_eq!(bare.total, None);
}

#[test]
fn one_file_and_one_subdirectory_long_classified() {
    let mut ids = IdentityCache::new();
    ids.record_owner(1000, Some("alice".to_string()));
    ids.record_group(1000, Some("alice".to_string()));
    let mut file = entry("a.txt", 0o100644, 8);
    file.size = 5;
    let mut dir = entry("sub", 0o040755, 8);
    dir.nlink = 2;
    dir.size = 4096;
    let entries = vec![entry(".", 0o040755, 8), entry("..", 0o040755, 8), file, dir];
    let listing = list_directory(&entries, request(true, false, true), &ids);
    assert_eq!(listing.total, Some(8));
    assert_eq!(listing.rows.len(), 2);
    let a = listing.rows[0].as_ref().unwrap();
    let s = listing.rows[1].as_ref().unwrap();
    assert!(a.starts_with("-rw-r--r--"));
    assert!(a.ends_with(" a.txt"));
    assert!(s.starts_with("drwxr-xr-x"));
    assert!(s.ends_with(" sub/"));
    assert!(a.starts_with("-rw-r--r--   1 alice alice      5 "));
    assert_eq!(a.chars().count(), "-rw-r--r--   1 alice alice      5 ".len() + 12 + " a.txt".len());
}

#[test]
fn bare_listing_needs_no_time() {
    let entries = vec![entry("zeta", 0o100644, 0), entry("Alpha", 0o040755, 0)];
    let ids = IdentityCache::new();
    let listing = list_directory(&entries, request(false, false, true), &ids);
    assert_eq!(listing.total, None);
    assert_eq!(listing.rows, vec![Some("Alpha/".to_string()), Some("zeta".to_string())]);
}
