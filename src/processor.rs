//! Building a listing: which entries are shown, in which order, and the rows
//! and block total that come of them.

use vstd::prelude::*;

use crate::color::{colorize_dir, painted_then, suffix_if, Color};
use crate::entry::{
    entry_blocks, get_detailed_file_info, max_nat, meta_fields, row_fields, row_width, sat_add,
};
use crate::flags::Flag;
use crate::meta::EntryMeta;
use crate::names::{decorated, decorated_text, format_path};
use crate::order::{clean_string, is_permutation, sort_key, sort_order, stably_sorted};
use crate::text::{lemma_visible_plain, visible};
use crate::time::TimeZonePolicy;

verus! {

/// One name read from a directory, with its metadata when it could be read.
#[derive(Clone, Debug)]
pub struct DirEntry {
    pub name: String,
    pub meta: Option<EntryMeta>,
}

/// The listing of one directory: its rows, the widest size field, and the total of
/// allocated blocks.
#[derive(Clone, Debug)]
pub struct Directory {
    pub path: String,
    pub entries: Vec<Vec<String>>,
    pub max_len: usize,
    pub total_blocks: u64,
}

/// A file named on the command line, with its metadata.
#[derive(Clone, Debug)]
pub struct FileTarget {
    /// The path as given.
    pub path: String,
    /// Its last component.
    pub name: String,
    pub meta: EntryMeta,
}

/// Builds the rows of a listing.
pub struct LsProcessor;

/// Whether a name is listed: dotfiles only under `-a`.
pub open spec fn shown(name: Seq<char>, show_all: bool) -> bool {
    show_all || !(name.len() > 0 && name[0] == '.')
}

/// Whether an entry is listed: shown, and its metadata could be read.
pub open spec fn listed(e: DirEntry, show_all: bool) -> bool {
    shown(e.name@, show_all) && e.meta is Some
}

/// The indices, ascending, of the listed entries among the first `n`.
pub open spec fn kept_upto(entries: Seq<DirEntry>, show_all: bool, n: int) -> Seq<int>
    decreases n,
{
    if n <= 0 {
        Seq::empty()
    } else if listed(entries[n - 1], show_all) {
        kept_upto(entries, show_all, n - 1).push(n - 1)
    } else {
        kept_upto(entries, show_all, n - 1)
    }
}

/// The indices, ascending, of the listed entries.
pub open spec fn kept(entries: Seq<DirEntry>, show_all: bool) -> Seq<int> {
    kept_upto(entries, show_all, entries.len() as int)
}

/// The sort keys of the listed entries, in index order.
pub open spec fn kept_keys(entries: Seq<DirEntry>, show_all: bool) -> Seq<Seq<char>> {
    let k = kept(entries, show_all);
    Seq::new(k.len(), |j: int| sort_key(entries[k[j]].name@))
}

/// The running block total after the first `n` listed entries taken in `order`;
/// blocks count in the long form only.
pub open spec fn blocks_in_order(
    entries: Seq<DirEntry>,
    order: Seq<usize>,
    flags: Flag,
    start: u64,
    n: int,
) -> u64
    decreases n,
{
    if n <= 0 {
        start
    } else {
        let t = blocks_in_order(entries, order, flags, start, n - 1);
        if flags.l {
            sat_add(t, entry_blocks(entries[kept(entries, flags.a)[order[n - 1] as int]].meta->0))
        } else {
            t
        }
    }
}

/// Whether `row` is the row of the entry `name`: the seven long fields under `-l`,
/// else the decorated name alone.
pub open spec fn row_ok(
    row: Vec<String>,
    name: Seq<char>,
    m: EntryMeta,
    flags: Flag,
    now: i64,
    zone: TimeZonePolicy,
) -> bool {
    if flags.l {
        row_fields(row@, name, m, flags, now, zone)
    } else {
        row@.len() == 1 && decorated(row@[0]@, name, m, flags) && visible(row@[0]@)
            == decorated_text(name, m, flags)
    }
}

/// Whether `row` is the row of the dot entry `name`: the name painted as a
/// directory, with `/` under `-F`, after the long fields of `m` under `-l`.
pub open spec fn dot_row_ok(
    row: Vec<String>,
    name: Seq<char>,
    m: EntryMeta,
    flags: Flag,
    now: i64,
    zone: TimeZonePolicy,
) -> bool {
    let shown_name = if flags.l {
        row@[6]@
    } else {
        row@[0]@
    };
    &&& if flags.l {
        meta_fields(row@, m, now, zone)
    } else {
        row@.len() == 1
    }
    &&& painted_then(shown_name, name, Color::Blue, suffix_if(flags.f, '/'))
    &&& visible(shown_name) == visible(name) + suffix_if(flags.f, '/')
}

/// Whether `rows` lists the entries in `order` over the listed ones.
pub open spec fn rows_in_order(
    rows: Seq<Vec<String>>,
    entries: Seq<DirEntry>,
    flags: Flag,
    order: Seq<usize>,
    now: i64,
    zone: TimeZonePolicy,
) -> bool {
    let k = kept(entries, flags.a);
    &&& rows.len() == order.len()
    &&& forall|j: int|
        0 <= j < rows.len() ==> row_ok(
            #[trigger] rows[j],
            entries[k[order[j] as int]].name@,
            entries[k[order[j] as int]].meta->0,
            flags,
            now,
            zone,
        )
}

proof fn lemma_kept(entries: Seq<DirEntry>, show_all: bool, n: int)
    requires
        0 <= n <= entries.len(),
    ensures
        forall|j: int|
            0 <= j < kept_upto(entries, show_all, n).len() ==> (#[trigger] kept_upto(
                entries,
                show_all,
                n,
            )[j] < n && listed(entries[kept_upto(entries, show_all, n)[j]], show_all)),
    decreases n,
{
    if n > 0 {
        lemma_kept(entries, show_all, n - 1);
        let prev = kept_upto(entries, show_all, n - 1);
        let cur = kept_upto(entries, show_all, n);
        assert forall|j: int| 0 <= j < cur.len() implies (#[trigger] cur[j] < n && listed(
            entries[cur[j]],
            show_all,
        )) by {
            if listed(entries[n - 1], show_all) {
                assert(cur == prev.push(n - 1));
            } else {
                assert(cur == prev);
            }
            if j < prev.len() {
                assert(cur[j] == prev[j]);
                assert(prev[j] < n - 1 && listed(entries[prev[j]], show_all));
            }
        }
    }
}

/// The row of one entry: its decorated name, or its long fields under `-l`, which
/// also add the entry's blocks to `total_blocks` and widen `max_len`.
pub fn describe_entry(
    name: &str,
    m: &EntryMeta,
    flags: &Flag,
    now: i64,
    zone: TimeZonePolicy,
    total_blocks: &mut u64,
    max_len: &mut usize,
) -> (r: Vec<String>)
    ensures
        row_ok(r, name@, *m, *flags, now, zone),
        *final(total_blocks) == if flags.l {
            sat_add(*old(total_blocks), entry_blocks(*m))
        } else {
            *old(total_blocks)
        },
        *final(max_len) == max_nat(*old(max_len) as nat, row_width(r@)),
{
    if flags.l {
        get_detailed_file_info(name, m, flags, now, zone, total_blocks, true, max_len)
    } else {
        let mut file_name = name.to_string();
        format_path(m, &mut file_name, flags);
        let mut row: Vec<String> = Vec::new();
        row.push(file_name);
        row
    }
}

/// The widest size field (the fifth) among the first `n` rows; rows without one count 0.
pub open spec fn size_width_upto(rows: Seq<Vec<String>>, n: int) -> nat
    decreases n,
{
    if n <= 0 {
        0
    } else {
        max_nat(size_width_upto(rows, n - 1), row_width(rows[n - 1]@))
    }
}

/// How many rows the dot entries take.
pub open spec fn dot_rows(flags: Flag) -> int {
    if flags.a {
        2
    } else {
        0
    }
}

/// The block total the dot entries start a listing with: their blocks under `-a`
/// in the long form, else nothing.
pub open spec fn dot_blocks(flags: Flag, dot: EntryMeta, dotdot: EntryMeta) -> u64 {
    if flags.a && flags.l {
        sat_add(sat_add(0, entry_blocks(dot)), entry_blocks(dotdot))
    } else {
        0
    }
}

/// Whether the name is listed: dotfiles only under `-a`.
pub fn is_shown(name: &str, show_all: bool) -> (r: bool)
    ensures
        r == shown(name@, show_all),
{
    if show_all {
        return true;
    }
    let n = name.unicode_len();
    !(n > 0 && name.get_char(0) == '.')
}

impl LsProcessor {
    /// Appends the rows of a directory's entries: dotfiles dropped unless `-a`,
    /// entries whose metadata could not be read skipped, the rest in the stable
    /// order of their sort keys; under `-l` adds their blocks to the total, in that
    /// order, and widens `max_len` to their size fields.
    pub fn process_directory_entries(
        entries: &Vec<DirEntry>,
        flags: &Flag,
        now: i64,
        zone: TimeZonePolicy,
        dir_entry_result: &mut Vec<Vec<String>>,
        total_blocks: &mut u64,
        max_len: &mut usize,
    )
        ensures
            *final(max_len) == max_nat(
                *old(max_len) as nat,
                size_width_upto(
                    final(dir_entry_result)@.skip(old(dir_entry_result)@.len() as int),
                    kept(entries@, flags.a).len() as int,
                ),
            ),
            final(dir_entry_result)@.len() == old(dir_entry_result)@.len() + kept(
                entries@,
                flags.a,
            ).len(),
            final(dir_entry_result)@.take(old(dir_entry_result)@.len() as int) == old(
                dir_entry_result,
            )@,
            exists|order: Seq<usize>|
                is_permutation(order, kept(entries@, flags.a).len())
                    && stably_sorted(kept_keys(entries@, flags.a), order) && rows_in_order(
                    final(dir_entry_result)@.skip(old(dir_entry_result)@.len() as int),
                    entries@,
                    *flags,
                    order,
                    now,
                    zone,
                ) && *final(total_blocks) == blocks_in_order(
                    entries@,
                    order,
                    *flags,
                    *old(total_blocks),
                    order.len() as int,
                ),
    {
        let ghost start = dir_entry_result@;
        let n = entries.len();
        let mut kept_idx: Vec<usize> = Vec::new();
        let mut keys: Vec<String> = Vec::new();
        let mut i: usize = 0;
        while i < n
            invariant
                n == entries.len(),
                i <= n,
                kept_idx@.len() == kept_upto(entries@, flags.a, i as int).len(),
                forall|j: int|
                    0 <= j < kept_idx@.len() ==> kept_idx@[j] as int == kept_upto(
                        entries@,
                        flags.a,
                        i as int,
                    )[j],
                keys@.len() == kept_idx@.len(),
                forall|j: int|
                    0 <= j < keys@.len() ==> #[trigger] keys@[j]@ == sort_key(
                        entries@[kept_idx@[j] as int].name@,
                    ),
                *total_blocks == *old(total_blocks),
                *max_len == *old(max_len),
                dir_entry_result@ == start,
            decreases n - i,
        {
            let e = &entries[i];
            let ghost before = kept_idx@;
            if is_shown(e.name.as_str(), flags.a) {
                match &e.meta {
                    Some(_) => {
                        kept_idx.push(i);
                        keys.push(clean_string(e.name.clone()));
                    },
                    None => {},
                }
            }
            proof {
                let prev = kept_upto(entries@, flags.a, i as int);
                let cur = kept_upto(entries@, flags.a, i + 1);
                if listed(entries@[i as int], flags.a) {
                    assert(cur == prev.push(i as int));
                    assert forall|j: int| 0 <= j < kept_idx@.len() implies kept_idx@[j] as int
                        == cur[j] by {
                        if j < before.len() {
                            assert(kept_idx@[j] == before[j]);
                        }
                    }
                } else {
                    assert(cur == prev);
                }
            }
            i = i + 1;
        }
        let ghost k = kept(entries@, flags.a);
        proof {
            lemma_kept(entries@, flags.a, n as int);
            assert(keys@.map_values(|s: String| s@) =~= kept_keys(entries@, flags.a));
        }
        let order = sort_order(&keys);
        let m = order.len();
        let mut j: usize = 0;
        while j < m
            invariant
                n == entries.len(),
                m == order@.len() == k.len() == kept_idx@.len(),
                k == kept(entries@, flags.a),
                forall|t: int| 0 <= t < kept_idx@.len() ==> kept_idx@[t] as int == k[t],
                forall|t: int|
                    0 <= t < k.len() ==> (#[trigger] k[t] < n && listed(entries@[k[t]], flags.a)),
                is_permutation(order@, k.len()),
                j <= m,
                dir_entry_result@.len() == start.len() + j,
                dir_entry_result@.take(start.len() as int) == start,
                *total_blocks == blocks_in_order(entries@, order@, *flags, *old(total_blocks), j as int),
                *max_len == max_nat(
                    *old(max_len) as nat,
                    size_width_upto(dir_entry_result@.skip(start.len() as int), j as int),
                ),
                forall|t: int|
                    0 <= t < j ==> row_ok(
                        #[trigger] dir_entry_result@[start.len() + t],
                        entries@[k[order@[t] as int]].name@,
                        entries@[k[order@[t] as int]].meta->0,
                        *flags,
                        now,
                        zone,
                    ),
            decreases m - j,
        {
            let idx = kept_idx[order[j]];
            proof {
                assert(k[order@[j as int] as int] < n);
            }
            let e = &entries[idx];
            match &e.meta {
                Some(md) => {
                    let row = describe_entry(e.name.as_str(), md, flags, now, zone, total_blocks, max_len);
                    let ghost prev = dir_entry_result@;
                    dir_entry_result.push(row);
                    proof {
                        assert(dir_entry_result@.skip(start.len() as int).take(j as int) =~= prev.skip(
                            start.len() as int,
                        ));
                        assert(dir_entry_result@.skip(start.len() as int)[j as int] == dir_entry_result@[start.len() + j]);
                        lemma_size_width_prefix(
                            dir_entry_result@.skip(start.len() as int),
                            prev.skip(start.len() as int),
                            j as int,
                        );
                        assert(dir_entry_result@.take(start.len() as int) =~= prev.take(
                            start.len() as int,
                        ));
                        assert forall|t: int| 0 <= t < j + 1 implies row_ok(
                            #[trigger] dir_entry_result@[start.len() + t],
                            entries@[k[order@[t] as int]].name@,
                            entries@[k[order@[t] as int]].meta->0,
                            *flags,
                            now,
                            zone,
                        ) by {
                            if t < j {
                                assert(dir_entry_result@[start.len() + t] == prev[start.len() + t]);
                            }
                        }
                    }
                },
                None => {
                    proof {
                        assert(listed(entries@[k[order@[j as int] as int]], flags.a));
                    }
                },
            }
            j = j + 1;
        }
        proof {
            let rows = dir_entry_result@.skip(start.len() as int);
            assert forall|t: int| 0 <= t < rows.len() implies row_ok(
                #[trigger] rows[t],
                entries@[k[order@[t] as int]].name@,
                entries@[k[order@[t] as int]].meta->0,
                *flags,
                now,
                zone,
            ) by {
                assert(rows[t] == dir_entry_result@[start.len() + t]);
            }
            assert(rows_in_order(rows, entries@, *flags, order@, now, zone));
        }
    }

    /// The listing of one directory: `.` and `..` first under `-a`, then its
    /// listed entries in order, with the block total and the widest size field.
    pub fn process_directory(
        path: &str,
        dot: &EntryMeta,
        dotdot: &EntryMeta,
        entries: &Vec<DirEntry>,
        flags: &Flag,
        now: i64,
        zone: TimeZonePolicy,
    ) -> (d: Directory)
        ensures
            d.path@ == path@,
            d.entries@.len() == dot_rows(*flags) + kept(entries@, flags.a).len(),
            flags.a ==> dot_row_ok(d.entries@[0], "."@, *dot, *flags, now, zone),
            flags.a ==> dot_row_ok(d.entries@[1], ".."@, *dotdot, *flags, now, zone),
            exists|order: Seq<usize>|
                is_permutation(order, kept(entries@, flags.a).len())
                    && stably_sorted(kept_keys(entries@, flags.a), order) && rows_in_order(
                    d.entries@.skip(dot_rows(*flags)),
                    entries@,
                    *flags,
                    order,
                    now,
                    zone,
                ) && d.total_blocks == blocks_in_order(
                    entries@,
                    order,
                    *flags,
                    dot_blocks(*flags, *dot, *dotdot),
                    order.len() as int,
                ),
            d.max_len == size_width_upto(d.entries@, d.entries@.len() as int),
    {
        let mut rows: Vec<Vec<String>> = Vec::new();
        let mut total_blocks: u64 = 0;
        let mut max_len: usize = 0;
        if flags.a {
            add_dot_entries(dot, dotdot, &mut rows, &mut total_blocks, &mut max_len, flags, now, zone);
        }
        let ghost dots = rows@;
        proof {
            if flags.a {
                assert(size_width_upto(dots, 1) == max_nat(size_width_upto(dots, 0), row_width(dots[0]@)));
                assert(size_width_upto(dots, 2) == max_nat(size_width_upto(dots, 1), row_width(dots[1]@)));
            }
            assert(max_len == size_width_upto(dots, dots.len() as int));
        }
        Self::process_directory_entries(
            entries,
            flags,
            now,
            zone,
            &mut rows,
            &mut total_blocks,
            &mut max_len,
        );
        proof {
            if flags.a {
                assert(rows@[0] == rows@.take(2)[0]);
                assert(rows@[1] == rows@.take(2)[1]);
            }
            let dn = dots.len() as int;
            lemma_size_width_split(rows@, dn, rows@.len() - dn);
            lemma_size_width_prefix(rows@, dots, dn);
            assert(rows@.len() - dn == kept(entries@, flags.a).len());
        }
        Directory { path: path.to_string(), entries: rows, max_len, total_blocks }
    }

    /// The directories to list, in the stable order of their sort keys.
    pub fn order_directories(directories: &Vec<String>) -> (r: Vec<String>)
        ensures
            exists|order: Seq<usize>|
                is_permutation(order, directories@.len()) && stably_sorted(
                    Seq::new(directories@.len(), |i: int| sort_key(directories@[i]@)),
                    order,
                ) && r@.len() == order.len() && forall|j: int|
                    0 <= j < order.len() ==> #[trigger] r@[j]@ == directories@[order[j] as int]@,
    {
        let mut keys: Vec<String> = Vec::new();
        let mut i: usize = 0;
        while i < directories.len()
            invariant
                i <= directories@.len(),
                keys@.len() == i,
                forall|k: int| 0 <= k < i ==> #[trigger] keys@[k]@ == sort_key(directories@[k]@),
            decreases directories@.len() - i,
        {
            keys.push(clean_string(directories[i].clone()));
            i = i + 1;
        }
        proof {
            assert(keys@.map_values(|s: String| s@) =~= Seq::new(
                directories@.len(),
                |i: int| sort_key(directories@[i]@),
            ));
        }
        let order = sort_order(&keys);
        let mut r: Vec<String> = Vec::new();
        let mut j: usize = 0;
        while j < order.len()
            invariant
                is_permutation(order@, directories@.len()),
                j <= order@.len(),
                r@.len() == j,
                forall|t: int| 0 <= t < j ==> #[trigger] r@[t]@ == directories@[order@[t] as int]@,
            decreases order@.len() - j,
        {
            r.push(directories[order[j]].clone());
            j = j + 1;
        }
        r
    }

    /// Appends the rows of the files named on the command line, in the order given:
    /// the path alone in the short form, the long fields of its last component under
    /// `-l`; widens `max_files_len` to their size fields.
    pub fn process_files(
        files: &Vec<FileTarget>,
        flags: &Flag,
        now: i64,
        zone: TimeZonePolicy,
        max_files_len: &mut usize,
        file_result: &mut Vec<Vec<String>>,
    )
        ensures
            final(file_result)@.len() == old(file_result)@.len() + files@.len(),
            final(file_result)@.take(old(file_result)@.len() as int) == old(file_result)@,
            forall|j: int|
                0 <= j < files@.len() ==> if flags.l {
                    row_fields(
                        (#[trigger] final(file_result)@[old(file_result)@.len() + j])@,
                        files@[j].name@,
                        files@[j].meta,
                        *flags,
                        now,
                        zone,
                    )
                } else {
                    final(file_result)@[old(file_result)@.len() + j]@.len() == 1
                        && final(file_result)@[old(file_result)@.len() + j]@[0]@ == files@[j].path@
                },
            *final(max_files_len) == max_nat(
                *old(max_files_len) as nat,
                size_width_upto(
                    final(file_result)@.skip(old(file_result)@.len() as int),
                    files@.len() as int,
                ),
            ),
    {
        let ghost start = file_result@;
        let mut i: usize = 0;
        while i < files.len()
            invariant
                i <= files@.len(),
                file_result@.len() == start.len() + i,
                file_result@.take(start.len() as int) == start,
                forall|j: int|
                    0 <= j < i ==> if flags.l {
                        row_fields(
                            (#[trigger] file_result@[start.len() + j])@,
                            files@[j].name@,
                            files@[j].meta,
                            *flags,
                            now,
                            zone,
                        )
                    } else {
                        file_result@[start.len() + j]@.len() == 1 && file_result@[start.len()
                            + j]@[0]@ == files@[j].path@
                    },
                *max_files_len == max_nat(
                    *old(max_files_len) as nat,
                    size_width_upto(file_result@.skip(start.len() as int), i as int),
                ),
            decreases files@.len() - i,
        {
            let f = &files[i];
            let row = if flags.l {
                let mut no_total: u64 = 0;
                get_detailed_file_info(
                    f.name.as_str(),
                    &f.meta,
                    flags,
                    now,
                    zone,
                    &mut no_total,
                    false,
                    max_files_len,
                )
            } else {
                let mut row: Vec<String> = Vec::new();
                row.push(f.path.clone());
                row
            };
            let ghost prev = file_result@;
            file_result.push(row);
            proof {
                assert(file_result@.take(start.len() as int) =~= prev.take(start.len() as int));
                assert(file_result@.skip(start.len() as int).take(i as int) =~= prev.skip(
                    start.len() as int,
                ));
                assert(file_result@.skip(start.len() as int)[i as int] == file_result@[start.len()
                    + i]);
                lemma_size_width_prefix(file_result@.skip(start.len() as int), prev.skip(start.len() as int), i as int);
                assert forall|j: int| 0 <= j < i + 1 implies if flags.l {
                    row_fields(
                        (#[trigger] file_result@[start.len() + j])@,
                        files@[j].name@,
                        files@[j].meta,
                        *flags,
                        now,
                        zone,
                    )
                } else {
                    file_result@[start.len() + j]@.len() == 1 && file_result@[start.len()
                        + j]@[0]@ == files@[j].path@
                } by {
                    if j < i {
                        assert(file_result@[start.len() + j] == prev[start.len() + j]);
                    }
                }
            }
            i = i + 1;
        }
    }
}

/// The row of a dot entry: its name painted as a directory, after the long fields
/// of `m` under `-l`.
fn dot_row(
    name: &str,
    m: &EntryMeta,
    flags: &Flag,
    now: i64,
    zone: TimeZonePolicy,
    total_blocks: &mut u64,
    max_len: &mut usize,
) -> (r: Vec<String>)
    ensures
        dot_row_ok(r, name@, *m, *flags, now, zone),
        *final(total_blocks) == if flags.l {
            sat_add(*old(total_blocks), entry_blocks(*m))
        } else {
            *old(total_blocks)
        },
        *final(max_len) == max_nat(*old(max_len) as nat, row_width(r@)),
{
    let mut shown = name.to_string();
    colorize_dir(&mut shown, flags);
    if flags.l {
        let mut row = get_detailed_file_info(name, m, flags, now, zone, total_blocks, true, max_len);
        let ghost fields = row@;
        row.pop();
        row.push(shown);
        proof {
            assert forall|i: int| 0 <= i < 6 implies row@[i] == fields[i] by {}
        }
        row
    } else {
        let mut row: Vec<String> = Vec::new();
        row.push(shown);
        row
    }
}

/// Puts the rows of `.` and `..` in front of `result`; under `-l` adds their blocks
/// and widens `max_len` to their size fields.
pub fn add_dot_entries(
    dot: &EntryMeta,
    dotdot: &EntryMeta,
    result: &mut Vec<Vec<String>>,
    total_blocks: &mut u64,
    max_len: &mut usize,
    flags: &Flag,
    now: i64,
    zone: TimeZonePolicy,
)
    ensures
        final(result)@.len() == old(result)@.len() + 2,
        dot_row_ok(final(result)@[0], "."@, *dot, *flags, now, zone),
        dot_row_ok(final(result)@[1], ".."@, *dotdot, *flags, now, zone),
        final(result)@.skip(2) == old(result)@,
        *final(total_blocks) == if flags.l {
            sat_add(sat_add(*old(total_blocks), entry_blocks(*dot)), entry_blocks(*dotdot))
        } else {
            *old(total_blocks)
        },
        *final(max_len) == max_nat(
            max_nat(*old(max_len) as nat, row_width(final(result)@[0]@)),
            row_width(final(result)@[1]@),
        ),
{
    let dot_info = dot_row(".", dot, flags, now, zone, total_blocks, max_len);
    let dotdot_info = dot_row("..", dotdot, flags, now, zone, total_blocks, max_len);
    result.insert(0, dotdot_info);
    result.insert(0, dot_info);
    proof {
        assert(result@.skip(2) =~= old(result)@);
    }
}

/// A short and a long listing of the same directory hold the same number of rows:
/// decoration never adds or drops an entry.
pub proof fn lemma_short_long_same_count(entries: Seq<DirEntry>, short: Flag, long: Flag)
    requires
        short.a == long.a,
        !short.l,
        long.l,
    ensures
        dot_rows(short) + kept(entries, short.a).len() == dot_rows(long) + kept(entries, long.a).len(),
{
}

/// Under `-a` an empty directory lists exactly two rows, `.` then `..`; without `-F`
/// they show as the bare names.
pub proof fn lemma_empty_directory_dots(entries: Seq<DirEntry>, flags: Flag)
    requires
        entries.len() == 0,
        flags.a,
        !flags.f,
    ensures
        dot_rows(flags) + kept(entries, flags.a).len() == 2,
        visible("."@) + suffix_if(flags.f, '/') == "."@,
        visible(".."@) + suffix_if(flags.f, '/') == ".."@,
{
    reveal_strlit(".");
    reveal_strlit("..");
    lemma_visible_plain("."@);
    lemma_visible_plain(".."@);
    assert("."@ + Seq::<char>::empty() =~= "."@);
    assert(".."@ + Seq::<char>::empty() =~= ".."@);
}

/// A broken symbolic link keeps its row, and its name (quoted in the long form)
/// starts that row's name field painted red, the broken-link colour.
pub proof fn lemma_broken_link_row(
    row: Vec<String>,
    name: Seq<char>,
    m: EntryMeta,
    flags: Flag,
    now: i64,
    zone: TimeZonePolicy,
)
    requires
        row_ok(row, name, m, flags, now, zone),
        m.kind == crate::meta::FileKind::Symlink,
        m.broken,
    ensures
        flags.l ==> exists|p: Seq<char>|
            #[trigger] crate::color::painted(p, crate::names::quoted(name), Color::Red, true)
                && p.len() <= row@[6]@.len() && row@[6]@.take(p.len() as int) == p,
        !flags.l ==> exists|p: Seq<char>|
            #[trigger] crate::color::painted(p, name, Color::Red, true) && p.len() <= row@[0]@.len()
                && row@[0]@.take(p.len() as int) == p,
{
    let field = if flags.l {
        row@[6]@
    } else {
        row@[0]@
    };
    let shown = if flags.l {
        crate::names::quoted(name)
    } else {
        name
    };
    assert(decorated(field, shown, m, flags));
    if flags.l {
        let (p, t) = choose|p: Seq<char>, t: Seq<char>|
            #![trigger crate::color::painted(p, shown, Color::Red, true), crate::names::target_shown(t, m, flags)]
            crate::color::painted(p, shown, Color::Red, true) && crate::names::target_shown(t, m, flags)
                && field == p + " -> "@ + t;
        assert(field == p + (" -> "@ + t));
        assert(field.take(p.len() as int) =~= p);
        assert(p.len() <= field.len());
        assert(crate::color::painted(p, shown, Color::Red, true));
    } else {
        let p = choose|p: Seq<char>|
            #[trigger] crate::color::painted(p, shown, Color::Red, true) && field == p
                + crate::names::kind_suffix(m.kind, m.mode, flags);
        assert(crate::color::painted(p, shown, Color::Red, true));
        assert(field.take(p.len() as int) =~= p);
        assert(p.len() <= field.len());
    }
}

/// The widest size field of `m + n` rows is the wider of the first `m` and the `n`
/// after them.
proof fn lemma_size_width_split(rows: Seq<Vec<String>>, m: int, n: int)
    requires
        0 <= m,
        0 <= n,
        m + n <= rows.len(),
    ensures
        size_width_upto(rows, m + n) == max_nat(size_width_upto(rows, m), size_width_upto(rows.skip(m), n)),
    decreases n,
{
    if n > 0 {
        lemma_size_width_split(rows, m, n - 1);
        assert(rows.skip(m)[n - 1] == rows[m + n - 1]);
    }
}

/// The widest size field of a prefix does not depend on the rows after it.
proof fn lemma_size_width_prefix(a: Seq<Vec<String>>, b: Seq<Vec<String>>, n: int)
    requires
        0 <= n <= b.len(),
        n <= a.len(),
        forall|j: int| 0 <= j < n ==> a[j] == b[j],
    ensures
        size_width_upto(a, n) == size_width_upto(b, n),
    decreases n,
{
    if n > 0 {
        lemma_size_width_prefix(a, b, n - 1);
    }
}

} // verus!
