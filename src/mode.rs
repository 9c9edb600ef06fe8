//! File types and permission bits: the ten-character mode string and the
//! one-character classification suffix.

use vstd::prelude::*;

verus! {

/// The type of a file-system entry, as encoded in the type bits of its mode.
#[derive(Clone, Copy, Debug, PartialEq, Eq, Structural)]
pub enum FileKind {
    Regular,
    Directory,
    Symlink,
    CharDevice,
    BlockDevice,
    Socket,
    Pipe,
    Unknown,
}

/// The file type that the type bits of `mode` encode (POSIX values, as on Linux).
pub open spec fn kind_of_mode(mode: u32) -> FileKind {
    let t = mode & 0o170000u32;
    if t == 0o040000u32 {
        FileKind::Directory
    } else if t == 0o020000u32 {
        FileKind::CharDevice
    } else if t == 0o060000u32 {
        FileKind::BlockDevice
    } else if t == 0o100000u32 {
        FileKind::Regular
    } else if t == 0o120000u32 {
        FileKind::Symlink
    } else if t == 0o140000u32 {
        FileKind::Socket
    } else if t == 0o010000u32 {
        FileKind::Pipe
    } else {
        FileKind::Unknown
    }
}

/// The leading character of a mode string.
pub open spec fn type_char(kind: FileKind) -> char {
    match kind {
        FileKind::Directory => 'd',
        FileKind::CharDevice => 'c',
        FileKind::BlockDevice => 'b',
        FileKind::Regular => '-',
        FileKind::Symlink => 'l',
        FileKind::Socket => 's',
        FileKind::Pipe => 'p',
        FileKind::Unknown => '?',
    }
}

/// The fixed rendering of a three-bit permission pattern (read, write, execute).
pub open spec fn triad(bits: u32) -> Seq<char> {
    if bits == 0 {
        seq!['-', '-', '-']
    } else if bits == 1 {
        seq!['-', '-', 'x']
    } else if bits == 2 {
        seq!['-', 'w', '-']
    } else if bits == 3 {
        seq!['-', 'w', 'x']
    } else if bits == 4 {
        seq!['r', '-', '-']
    } else if bits == 5 {
        seq!['r', '-', 'x']
    } else if bits == 6 {
        seq!['r', 'w', '-']
    } else {
        seq!['r', 'w', 'x']
    }
}

/// The nine permission characters of `mode`: owner, group, other.
pub open spec fn permission_triads(mode: u32) -> Seq<char> {
    triad((mode >> 6u32) & 7u32) + triad((mode >> 3u32) & 7u32) + triad(mode & 7u32)
}

/// The ten-character mode string of an entry of type `kind` with permission
/// bits `mode`.
pub open spec fn mode_string(kind: FileKind, mode: u32) -> Seq<char> {
    seq![type_char(kind)] + permission_triads(mode)
}

/// Whether any execute bit (owner, group or other) is set.
pub open spec fn any_execute(mode: u32) -> bool {
    mode & 0o111u32 != 0
}

/// The classification suffix of an entry with mode `mode`: `/` for a
/// directory, `@` for a symbolic link, `*` when an execute bit is set,
/// nothing otherwise.
pub open spec fn suffix_of(mode: u32) -> Seq<char> {
    if kind_of_mode(mode) == FileKind::Directory {
        seq!['/']
    } else if kind_of_mode(mode) == FileKind::Symlink {
        seq!['@']
    } else if any_execute(mode) {
        seq!['*']
    } else {
        Seq::empty()
    }
}

/// The three-bit pattern that a rendered triad spells out.
pub open spec fn triad_bits(s: Seq<char>) -> nat {
    (if s[0] == 'r' { 4nat } else { 0nat }) + (if s[1] == 'w' { 2nat } else { 0nat }) + (if s[2]
        == 'x' {
        1nat
    } else {
        0nat
    })
}

/// The nine permission bits that a rendered owner/group/other string spells out.
pub open spec fn permission_bits_of(s: Seq<char>) -> nat {
    64 * triad_bits(s.subrange(0, 3)) + 8 * triad_bits(s.subrange(3, 6)) + triad_bits(
        s.subrange(6, 9),
    )
}

proof fn lemma_triad_round_trip(bits: u32)
    requires
        bits < 8,
    ensures
        triad(bits).len() == 3,
        triad_bits(triad(bits)) == bits as nat,
{
}

/// Every one of the 512 permission patterns is rendered as nine characters
/// from the fixed triad table, and reading the bits back from those
/// characters gives the permission bits of the mode again.
pub proof fn lemma_permission_round_trip(mode: u32)
    ensures
        permission_triads(mode).len() == 9,
        permission_bits_of(permission_triads(mode)) == (mode & 0o777u32) as nat,
{
    let o = (mode >> 6u32) & 7u32;
    let g = (mode >> 3u32) & 7u32;
    let t = mode & 7u32;
    assert(o < 8 && g < 8 && t < 8) by (bit_vector)
        requires
            o == (mode >> 6u32) & 7u32,
            g == (mode >> 3u32) & 7u32,
            t == mode & 7u32,
    ;
    assert(mode & 0o777u32 == o * 64 + g * 8 + t) by (bit_vector)
        requires
            o == (mode >> 6u32) & 7u32,
            g == (mode >> 3u32) & 7u32,
            t == mode & 7u32,
    ;
    lemma_triad_round_trip(o);
    lemma_triad_round_trip(g);
    lemma_triad_round_trip(t);
    let s = permission_triads(mode);
    assert(s.subrange(0, 3) =~= triad(o));
    assert(s.subrange(3, 6) =~= triad(g));
    assert(s.subrange(6, 9) =~= triad(t));
}

/// Relies on libc::S_IFMT: the mask of the file-type bits, 0o170000 on Linux.
#[verifier::external_body]
fn type_mask() -> (r: u32)
    ensures
        r == 0o170000u32,
{
    libc::S_IFMT
}

/// Relies on libc::S_IFDIR: the type bits of a directory, 0o040000 on Linux.
#[verifier::external_body]
fn type_directory() -> (r: u32)
    ensures
        r == 0o040000u32,
{
    libc::S_IFDIR
}

/// Relies on libc::S_IFCHR: the type bits of a character device, 0o020000 on Linux.
#[verifier::external_body]
fn type_char_device() -> (r: u32)
    ensures
        r == 0o020000u32,
{
    libc::S_IFCHR
}

/// Relies on libc::S_IFBLK: the type bits of a block device, 0o060000 on Linux.
#[verifier::external_body]
fn type_block_device() -> (r: u32)
    ensures
        r == 0o060000u32,
{
    libc::S_IFBLK
}

/// Relies on libc::S_IFREG: the type bits of a regular file, 0o100000 on Linux.
#[verifier::external_body]
fn type_regular() -> (r: u32)
    ensures
        r == 0o100000u32,
{
    libc::S_IFREG
}

/// Relies on libc::S_IFLNK: the type bits of a symbolic link, 0o120000 on Linux.
#[verifier::external_body]
fn type_symlink() -> (r: u32)
    ensures
        r == 0o120000u32,
{
    libc::S_IFLNK
}

/// Relies on libc::S_IFSOCK: the type bits of a socket, 0o140000 on Linux.
#[verifier::external_body]
fn type_socket() -> (r: u32)
    ensures
        r == 0o140000u32,
{
    libc::S_IFSOCK
}

/// Relies on libc::S_IFIFO: the type bits of a named pipe, 0o010000 on Linux.
#[verifier::external_body]
fn type_pipe() -> (r: u32)
    ensures
        r == 0o010000u32,
{
    libc::S_IFIFO
}

/// Decodes the file type from the type bits of `mode`.
pub fn file_kind(mode: u32) -> (r: FileKind)
    ensures
        r == kind_of_mode(mode),
{
    let t = mode & type_mask();
    if t == type_directory() {
        FileKind::Directory
    } else if t == type_char_device() {
        FileKind::CharDevice
    } else if t == type_block_device() {
        FileKind::BlockDevice
    } else if t == type_regular() {
        FileKind::Regular
    } else if t == type_symlink() {
        FileKind::Symlink
    } else if t == type_socket() {
        FileKind::Socket
    } else if t == type_pipe() {
        FileKind::Pipe
    } else {
        FileKind::Unknown
    }
}

fn type_text(kind: FileKind) -> (r: &'static str)
    ensures
        r@ == seq![type_char(kind)],
{
    match kind {
        FileKind::Directory => {
            proof { reveal_strlit("d"); }
            "d"
        },
        FileKind::CharDevice => {
            proof { reveal_strlit("c"); }
            "c"
        },
        FileKind::BlockDevice => {
            proof { reveal_strlit("b"); }
            "b"
        },
        FileKind::Regular => {
            proof { reveal_strlit("-"); }
            "-"
        },
        FileKind::Symlink => {
            proof { reveal_strlit("l"); }
            "l"
        },
        FileKind::Socket => {
            proof { reveal_strlit("s"); }
            "s"
        },
        FileKind::Pipe => {
            proof { reveal_strlit("p"); }
            "p"
        },
        FileKind::Unknown => {
            proof { reveal_strlit("?"); }
            "?"
        },
    }
}

fn triad_text(bits: u32) -> (r: &'static str)
    requires
        bits < 8,
    ensures
        r@ == triad(bits),
{
    if bits == 0 {
        proof { reveal_strlit("---"); }
        "---"
    } else if bits == 1 {
        proof { reveal_strlit("--x"); }
        "--x"
    } else if bits == 2 {
        proof { reveal_strlit("-w-"); }
        "-w-"
    } else if bits == 3 {
        proof { reveal_strlit("-wx"); }
        "-wx"
    } else if bits == 4 {
        proof { reveal_strlit("r--"); }
        "r--"
    } else if bits == 5 {
        proof { reveal_strlit("r-x"); }
        "r-x"
    } else if bits == 6 {
        proof { reveal_strlit("rw-"); }
        "rw-"
    } else {
        proof { reveal_strlit("rwx"); }
        "rwx"
    }
}

/// Renders the type character of `kind` followed by the owner, group and
/// other permission triads of `mode`.
pub fn format_mode(kind: FileKind, mode: u32) -> (r: String)
    ensures
        r@ == mode_string(kind, mode),
        r@.len() == 10,
{
    let mut perms = String::from_str(type_text(kind));
    assert((mode >> 6u32) & 7u32 < 8) by (bit_vector);
    assert((mode >> 3u32) & 7u32 < 8) by (bit_vector);
    assert(mode & 7u32 < 8) by (bit_vector);
    perms.append(triad_text((mode >> 6) & 7));
    perms.append(triad_text((mode >> 3) & 7));
    perms.append(triad_text(mode & 7));
    assert(perms@ =~= mode_string(kind, mode));
    perms
}

/// Renders the full mode string of a raw `st_mode` value: the file type read
/// from its type bits, then the nine permission characters.
pub fn format_permissions(mode: u32) -> (r: String)
    ensures
        r@ == mode_string(kind_of_mode(mode), mode),
        r@.len() == 10,
{
    let kind = file_kind(mode);
    format_mode(kind, mode)
}

/// The classification suffix of an entry with raw mode `mode`.
pub fn get_file_classification_char(mode: u32) -> (r: &'static str)
    ensures
        r@ == suffix_of(mode),
{
    let kind = file_kind(mode);
    if kind == FileKind::Directory {
        proof { reveal_strlit("/"); }
        "/"
    } else if kind == FileKind::Symlink {
        proof { reveal_strlit("@"); }
        "@"
    } else if mode & 0o111 != 0 {
        proof { reveal_strlit("*"); }
        "*"
    } else {
        proof { reveal_strlit(""); }
        ""
    }
}

} // verus!
