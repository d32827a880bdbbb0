//! One row of the long listing: permissions, links, owner, group, size (or device
//! numbers), time and decorated name.

use vstd::prelude::*;

use crate::flags::Flag;
use crate::meta::{EntryMeta, FileKind};
use crate::names::{decorated, decorated_text, format_path, quote_if_needed, quoted};
use crate::perm::{get_major_minor, get_permissions, major_of, minor_of, permission_text};
use crate::text::{decimal, decimal_string, push_str, visible};
use crate::time::{get_modified_at, modified_text, TimeZonePolicy};

verus! {

/// The owner column: the name the database gave, else the decimal id.
pub open spec fn owner_text(id: u32, name: Option<String>) -> Seq<char> {
    match name {
        Some(s) => s@,
        None => decimal(id as nat),
    }
}

/// An owner or group name, falling back to the decimal id when the lookup failed.
pub fn owner_name(id: u32, name: &Option<String>) -> (r: String)
    ensures
        r@ == owner_text(id, *name),
{
    match name {
        Some(s) => s.clone(),
        None => decimal_string(id as u64),
    }
}

/// The user and group columns of an entry.
pub fn get_owners_info(metadata: &EntryMeta) -> (r: (String, String))
    ensures
        r.0@ == owner_text(metadata.uid, metadata.user_name),
        r.1@ == owner_text(metadata.gid, metadata.group_name),
{
    (owner_name(metadata.uid, &metadata.user_name), owner_name(metadata.gid, &metadata.group_name))
}

/// Whether an entry is a character or block device.
pub open spec fn is_device(kind: FileKind) -> bool {
    kind == FileKind::CharDevice || kind == FileKind::BlockDevice
}

/// The size column: `major, minor` for a device, the size in bytes otherwise.
pub open spec fn size_text(metadata: EntryMeta) -> Seq<char> {
    if is_device(metadata.kind) {
        decimal(major_of(metadata.rdev) as nat) + ", "@ + decimal(minor_of(metadata.rdev) as nat)
    } else {
        decimal(metadata.size as nat)
    }
}

/// The size column of an entry.
pub fn size_field(metadata: &EntryMeta) -> (r: String)
    ensures
        r@ == size_text(*metadata),
{
    if metadata.kind == FileKind::CharDevice || metadata.kind == FileKind::BlockDevice {
        let (major, minor) = get_major_minor(metadata.rdev);
        let mut res = decimal_string(major);
        push_str(&mut res, ", ");
        let m = decimal_string(minor);
        push_str(&mut res, m.as_str());
        res
    } else {
        decimal_string(metadata.size)
    }
}

/// The seven fields of a long-listing row but the name, in column order.
pub open spec fn meta_fields(row: Seq<String>, metadata: EntryMeta, now: i64, zone: TimeZonePolicy) -> bool {
    &&& row.len() == 7
    &&& row[0]@ == permission_text(metadata.kind, metadata.mode, metadata.has_acl)
    &&& row[1]@ == decimal(metadata.nlink as nat)
    &&& row[2]@ == owner_text(metadata.uid, metadata.user_name)
    &&& row[3]@ == owner_text(metadata.gid, metadata.group_name)
    &&& row[4]@ == size_text(metadata)
    &&& row[5]@ == modified_text(metadata.mtime, now, zone)
}

/// The fields of a long-listing row, the name quoted and decorated last.
pub open spec fn row_fields(
    row: Seq<String>,
    name: Seq<char>,
    metadata: EntryMeta,
    flags: Flag,
    now: i64,
    zone: TimeZonePolicy,
) -> bool {
    &&& meta_fields(row, metadata, now, zone)
    &&& decorated(row[6]@, quoted(name), metadata, flags)
    &&& visible(row[6]@) == decorated_text(quoted(name), metadata, flags)
}

/// The blocks an entry adds to a running total: half its count of 512-byte blocks.
pub open spec fn entry_blocks(m: EntryMeta) -> nat {
    (m.blocks / 2) as nat
}

/// Adds, capped at the largest `u64`.
pub open spec fn sat_add(a: u64, b: nat) -> u64 {
    if a + b > u64::MAX {
        u64::MAX
    } else {
        (a + b) as u64
    }
}

/// The larger of two numbers.
pub open spec fn max_nat(a: nat, b: nat) -> nat {
    if a >= b {
        a
    } else {
        b
    }
}

/// The width of a row's size field (the fifth), 0 for a row without one.
pub open spec fn row_width(row: Seq<String>) -> nat {
    if row.len() > 4 {
        row[4]@.len()
    } else {
        0
    }
}

/// The long-listing row of the entry called `name`, described by `metadata`, with
/// `now` as the present for the time column. When `count_blocks`, the entry's
/// halved block count is added to the running `total_blocks`; `max_len` is widened
/// to the row's size field.
pub fn get_detailed_file_info(
    name: &str,
    metadata: &EntryMeta,
    flags: &Flag,
    now: i64,
    zone: TimeZonePolicy,
    total_blocks: &mut u64,
    count_blocks: bool,
    max_len: &mut usize,
) -> (r: Vec<String>)
    ensures
        row_fields(r@, name@, *metadata, *flags, now, zone),
        *final(total_blocks) == if count_blocks {
            sat_add(*old(total_blocks), entry_blocks(*metadata))
        } else {
            *old(total_blocks)
        },
        *final(max_len) == max_nat(*old(max_len) as nat, size_text(*metadata).len()),
{
    let permission = get_permissions(metadata);
    let size = size_field(metadata);
    let width = size.as_str().unicode_len();
    if width > *max_len {
        *max_len = width;
    }
    if count_blocks {
        *total_blocks = total_blocks.saturating_add(metadata.blocks / 2);
    }
    let mut file_name = name.to_string();
    quote_if_needed(&mut file_name);
    format_path(metadata, &mut file_name, flags);
    let (user_owner, group_owner) = get_owners_info(metadata);
    let n_link = decimal_string(metadata.nlink);
    let modified_at = get_modified_at(metadata.mtime, now, zone);
    let mut row: Vec<String> = Vec::new();
    row.push(permission);
    row.push(n_link);
    row.push(user_owner);
    row.push(group_owner);
    row.push(size);
    row.push(modified_at);
    row.push(file_name);
    row
}

} // verus!
