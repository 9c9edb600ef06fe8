use dirlist::entry::{list_directory_entry, EntryInfo};
use dirlist::flags::{first_operand, parse_flags, request_from_flags, ListingRequest};
use dirlist::identity::IdentityCache;
use dirlist::mode::{file_kind, format_mode, format_permissions, get_file_classification_char, FileKind};
use dirlist::text::{decimal_text, pad_left};

fn entry(name: &str, mode: u32, nlink: u64, uid: u32, gid: u32, size: u64) -> EntryInfo {
    EntryInfo {
        name: name.to_string(),
        mode,
        nlink,
        uid,
        gid,
        size,
        mtime: 0,
        blocks: 8,
    }
}

const TABLE: [&str; 8] = ["---", "--x", "-w-", "-wx", "r--", "r-x", "rw-", "rwx"];

#[test]
fn permission_strings_cover_every_triad_combination() {
    for owner in 0u32..8 {
        for group in 0u32..8 {
            for other in 0u32..8 {
                let mode = 0o100000 | (owner << 6) | (group << 3) | other;
                let expected = format!(
                    "-{}{}{}",
                    TABLE[owner as usize], TABLE[group as usize], TABLE[other as usize]
                );
                assert_eq!(format_permissions(mode), expected);
            }
        }
    }
}

#[test]
fn permission_type_characters() {
    assert_eq!(format_permissions(0o040755), "drwxr-xr-x");
    assert_eq!(format_permissions(0o100644), "-rw-r--r--");
    assert_eq!(format_permissions(0o120777), "lrwxrwxrwx");
    assert_eq!(format_permissions(0o020620), "crw--w----");
    assert_eq!(format_permissions(0o060660), "brw-rw----");
    assert_eq!(format_permissions(0o140755), "srwxr-xr-x");
    assert_eq!(format_permissions(0o010644), "prw-r--r--");
    assert_eq!(format_permissions(0o000000), "?---------");
    assert_eq!(format_permissions(0o170777), "?rwxrwxrwx");
}

#[test]
fn special_bits_are_not_rendered() {
    assert_eq!(format_permissions(0o104755), "-rwxr-xr-x");
    assert_eq!(format_permissions(0o041777), "drwxrwxrwx");
}

#[test]
fn format_mode_takes_the_kind_apart_from_the_bits() {
    assert_eq!(format_mode(FileKind::Directory, 0o750), "drwxr-x---");
    assert_eq!(format_mode(FileKind::Unknown, 0o1), "?--------x");
}

#[test]
fn file_kinds_from_mode() {
    assert_eq!(file_kind(0o040000), FileKind::Directory);
    assert_eq!(file_kind(0o100644), FileKind::Regular);
    assert_eq!(file_kind(0o120777), FileKind::Symlink);
    assert_eq!(file_kind(0o020000), FileKind::CharDevice);
    assert_eq!(file_kind(0o060000), FileKind::BlockDevice);
    assert_eq!(file_kind(0o140000), FileKind::Socket);
    assert_eq!(file_kind(0o010000), FileKind::Pipe);
    assert_eq!(file_kind(0o777), FileKind::Unknown);
}

#[test]
fn classification_suffixes() {
    assert_eq!(get_file_classification_char(0o040755), "/");
    assert_eq!(get_file_classification_char(0o120777), "@");
    assert_eq!(get_file_classification_char(0o100755), "*");
    assert_eq!(get_file_classification_char(0o100001), "*");
    assert_eq!(get_file_classification_char(0o100644), "");
}

#[test]
fn decimal_and_padding() {
    assert_eq!(decimal_text(0), "0");
    assert_eq!(decimal_text(7), "7");
    assert_eq!(decimal_text(1234), "1234");
    assert_eq!(decimal_text(u64::MAX as u128), "18446744073709551615");
    assert_eq!(pad_left("5", 6), "     5");
    assert_eq!(pad_left("1234567", 6), "1234567");
    assert_eq!(pad_left("", 3), "   ");
}

#[test]
fn bundled_flags_are_split() {
    let parsed = parse_flags(&["-la", "-F"]);
    assert_eq!(parsed, vec!["-l", "-a", "-F"]);
    let parsed = parse_flags(&["-l", "dir", "-", "-aF"]);
    assert_eq!(parsed, vec!["-l", "dir", "-", "-a", "-F"]);
    assert!(parse_flags(&[]).is_empty());
}

#[test]
fn request_switches_are_recognised_in_any_order() {
    let r = request_from_flags(&parse_flags(&["-Fla"]));
    assert_eq!(r, ListingRequest { long_format: true, show_hidden: true, classify: true });
    let r = request_from_flags(&parse_flags(&["-a"]));
    assert_eq!(r, ListingRequest { long_format: false, show_hidden: true, classify: false });
    let r = request_from_flags(&parse_flags(&["notes", "-lx"]));
    assert_eq!(r, ListingRequest { long_format: true, show_hidden: false, classify: false });
}

#[test]
fn first_operand_names_the_directory() {
    let flags = parse_flags(&["-l", "src", "other"]);
    assert_eq!(first_operand(&flags), Some(1));
    let flags = parse_flags(&["-la"]);
    assert_eq!(first_operand(&flags), None);
}

#[test]
fn unresolved_ids_fall_back_to_decimal() {
    let mut ids = IdentityCache::new();
    assert_eq!(ids.resolve_owner(4321), "4321");
    assert_eq!(ids.resolve_group(0), "0");
    assert_eq!(ids.record_owner(1000, None), "1000");
    assert_eq!(ids.record_group(55, None), "55");
    assert_eq!(ids.resolve_owner(1000), "1000");
    assert_eq!(ids.resolve_group(55), "55");
    assert!(!ids.resolve_owner(u32::MAX).is_empty());
}

#[test]
fn resolved_names_are_cached() {
    let mut ids = IdentityCache::new();
    assert!(!ids.has_owner(1000));
    assert_eq!(ids.record_owner(1000, Some("alice".to_string())), "alice");
    assert_eq!(ids.record_group(100, Some("staff".to_string())), "staff");
    assert!(ids.has_owner(1000));
    assert!(ids.has_group(100));
    assert!(!ids.has_group(1000));
    assert_eq!(ids.resolve_owner(1000), "alice");
    assert_eq!(ids.resolve_group(100), "staff");
    assert_eq!(ids.resolve_group(1000), "1000");
}

#[test]
fn long_row_layout() {
    let mut ids = IdentityCache::new();
    ids.record_owner(1000, Some("alice".to_string()));
    ids.record_group(100, Some("staff".to_string()));
    let e = entry("a.txt", 0o100644, 1, 1000, 100, 5);
    assert_eq!(
        list_directory_entry(&e, &ids, "Jan  5 09:03", false, true),
        "-rw-r--r--   1 alice staff      5 Jan  5 09:03 a.txt"
    );
    let d = entry("sub", 0o040755, 2, 1000, 7, 4096);
    assert_eq!(
        list_directory_entry(&d, &ids, "Dec 31 23:59", true, true),
        "drwxr-xr-x   2 alice 7   4096 Dec 31 23:59 sub/"
    );
    let big = entry("big", 0o100755, 1234, 5, 6, 12345678);
    assert_eq!(
        list_directory_entry(&big, &ids, "Mar 10 00:00", true, true),
        "-rwxr-xr-x 1234 5 6 12345678 Mar 10 00:00 big*"
    );
}

#[test]
fn bare_rows() {
    let ids = IdentityCache::new();
    let e = entry("run.sh", 0o100755, 1, 0, 0, 10);
    assert_eq!(list_directory_entry(&e, &ids, "", false, false), "run.sh");
    assert_eq!(list_directory_entry(&e, &ids, "", true, false), "run.sh*");
    let l = entry("link", 0o120777, 1, 0, 0, 4);
    assert_eq!(list_directory_entry(&l, &ids, "", true, false), "link@");
}
