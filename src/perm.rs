//! The permission column and the decoding of device numbers.

use vstd::prelude::*;

use crate::meta::{EntryMeta, FileKind};
use crate::text::push_char;

verus! {

/// The type letter that starts a permission string.
pub open spec fn type_char(kind: FileKind) -> char {
    match kind {
        FileKind::Directory => 'd',
        FileKind::Symlink => 'l',
        FileKind::CharDevice => 'c',
        FileKind::BlockDevice => 'b',
        FileKind::Fifo => 'p',
        FileKind::Socket => 's',
        FileKind::Regular => '-',
    }
}

/// Whether any bit of `bits` is set in `mode`.
pub open spec fn has_bit(mode: u32, bits: u32) -> bool {
    mode & bits != 0
}

/// `c` when the bit is set, `-` otherwise.
pub open spec fn flag_char(set: bool, c: char) -> char {
    if set {
        c
    } else {
        '-'
    }
}

/// An execute position: the special bit shows as `lower` over execute and as
/// `upper` without it.
pub open spec fn exec_char(exec: bool, special: bool, lower: char, upper: char) -> char {
    if special {
        if exec {
            lower
        } else {
            upper
        }
    } else {
        flag_char(exec, 'x')
    }
}

/// The permission string: type letter, the user, group and other triplets with
/// setuid, setgid and sticky shown on the execute positions, and `+` for an ACL.
pub open spec fn permission_text(kind: FileKind, mode: u32, acl: bool) -> Seq<char> {
    seq![
        type_char(kind),
        flag_char(has_bit(mode, 0o400), 'r'),
        flag_char(has_bit(mode, 0o200), 'w'),
        exec_char(has_bit(mode, 0o100), has_bit(mode, 0o4000), 's', 'S'),
        flag_char(has_bit(mode, 0o040), 'r'),
        flag_char(has_bit(mode, 0o020), 'w'),
        exec_char(has_bit(mode, 0o010), has_bit(mode, 0o2000), 's', 'S'),
        flag_char(has_bit(mode, 0o004), 'r'),
        flag_char(has_bit(mode, 0o002), 'w'),
        exec_char(has_bit(mode, 0o001), has_bit(mode, 0o1000), 't', 'T'),
    ] + if acl {
        seq!['+']
    } else {
        Seq::empty()
    }
}

/// The type letter of an entry.
pub fn get_file_type(kind: FileKind) -> (c: char)
    ensures
        c == type_char(kind),
{
    match kind {
        FileKind::Directory => 'd',
        FileKind::Symlink => 'l',
        FileKind::CharDevice => 'c',
        FileKind::BlockDevice => 'b',
        FileKind::Fifo => 'p',
        FileKind::Socket => 's',
        FileKind::Regular => '-',
    }
}

fn flag_letter(mode: u32, bits: u32, c: char) -> (r: char)
    ensures
        r == flag_char(has_bit(mode, bits), c),
{
    if mode & bits != 0 {
        c
    } else {
        '-'
    }
}

fn exec_letter(mode: u32, exec: u32, special: u32, lower: char, upper: char) -> (r: char)
    ensures
        r == exec_char(has_bit(mode, exec), has_bit(mode, special), lower, upper),
{
    let x = mode & exec != 0;
    if mode & special != 0 {
        if x {
            lower
        } else {
            upper
        }
    } else if x {
        'x'
    } else {
        '-'
    }
}

/// The permission column of an entry, ten characters, eleven with an ACL.
pub fn get_permissions(metadata: &EntryMeta) -> (r: String)
    ensures
        r@ == permission_text(metadata.kind, metadata.mode, metadata.has_acl),
        r@.len() == if metadata.has_acl {
            11int
        } else {
            10int
        },
{
    let mode = metadata.mode;
    let mut p = String::new();
    push_char(&mut p, get_file_type(metadata.kind));
    push_char(&mut p, flag_letter(mode, 0o400, 'r'));
    push_char(&mut p, flag_letter(mode, 0o200, 'w'));
    push_char(&mut p, exec_letter(mode, 0o100, 0o4000, 's', 'S'));
    push_char(&mut p, flag_letter(mode, 0o040, 'r'));
    push_char(&mut p, flag_letter(mode, 0o020, 'w'));
    push_char(&mut p, exec_letter(mode, 0o010, 0o2000, 's', 'S'));
    push_char(&mut p, flag_letter(mode, 0o004, 'r'));
    push_char(&mut p, flag_letter(mode, 0o002, 'w'));
    push_char(&mut p, exec_letter(mode, 0o001, 0o1000, 't', 'T'));
    if metadata.has_acl {
        push_char(&mut p, '+');
    }
    proof {
        assert(p@ =~= permission_text(metadata.kind, mode, metadata.has_acl));
    }
    p
}

/// Setuid shows as `s` in the fourth position over the user's execute bit, and as
/// `S` without it; the type letter always comes first, whatever the mode.
pub proof fn lemma_setuid_marker(kind: FileKind, mode: u32, acl: bool)
    ensures
        permission_text(kind, mode, acl)[0] == type_char(kind),
        has_bit(mode, 0o4000) && has_bit(mode, 0o100) ==> permission_text(kind, mode, acl)[3]
            == 's',
        has_bit(mode, 0o4000) && !has_bit(mode, 0o100) ==> permission_text(kind, mode, acl)[3]
            == 'S',
        has_bit(mode, 0o1000) && has_bit(mode, 0o001) ==> permission_text(kind, mode, acl)[9]
            == 't',
        has_bit(mode, 0o1000) && !has_bit(mode, 0o001) ==> permission_text(kind, mode, acl)[9]
            == 'T',
{
}

/// The major number: bits 8–19 of the device number, then its bits from 44 on.
pub open spec fn major_of(dev: u64) -> u64 {
    ((dev >> 8u64) & 0xfff) | ((dev >> 32u64) & !0xfffu64)
}

/// The minor number: bits 0–7 of the device number, then its bits 20–31.
pub open spec fn minor_of(dev: u64) -> u64 {
    (dev & 0xff) | ((dev >> 12u64) & 0xfff00)
}

/// The device number of a (major, minor) pair in the same layout.
pub open spec fn device_number(major: u64, minor: u64) -> u64 {
    (minor & 0xff) | ((major & 0xfff) << 8u64) | ((minor & 0xfff00) << 12u64) | ((major
        & 0xfffff000) << 32u64)
}

/// The major and minor numbers of a device number.
pub fn get_major_minor(dev: u64) -> (r: (u64, u64))
    ensures
        r == (major_of(dev), minor_of(dev)),
{
    let major = ((dev >> 8u64) & 0xfff) | ((dev >> 32u64) & !0xfffu64);
    let minor = (dev & 0xff) | ((dev >> 12u64) & 0xfff00);
    (major, minor)
}

/// Decoding undoes encoding: a major below 2^32 and a minor below 2^20 come back
/// out of the device number built from them.
pub proof fn lemma_major_minor_round_trip(major: u64, minor: u64)
    requires
        major < 0x1_0000_0000,
        minor < 0x10_0000,
    ensures
        major_of(device_number(major, minor)) == major,
        minor_of(device_number(major, minor)) == minor,
{
    assert(((((minor & 0xff) | ((major & 0xfff) << 8u64) | ((minor & 0xfff00) << 12u64) | ((major
        & 0xfffff000) << 32u64)) >> 8u64) & 0xfff) | ((((minor & 0xff) | ((major & 0xfff) << 8u64)
        | ((minor & 0xfff00) << 12u64) | ((major & 0xfffff000) << 32u64)) >> 32u64) & !0xfffu64)
        == major) by (bit_vector)
        requires
            major < 0x1_0000_0000,
    ;
    assert(((((minor & 0xff) | ((major & 0xfff) << 8u64) | ((minor & 0xfff00) << 12u64) | ((major
        & 0xfffff000) << 32u64)) & 0xff) | ((((minor & 0xff) | ((major & 0xfff) << 8u64) | ((minor
        & 0xfff00) << 12u64) | ((major & 0xfffff000) << 32u64)) >> 12u64) & 0xfff00)) == minor)
        by (bit_vector)
        requires
            minor < 0x10_0000,
    ;
}

} // verus!
