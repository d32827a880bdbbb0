//! Rendering of listings: the aligned long table, the short grid or joined line,
//! and the whole output with headings and totals.

use vstd::prelude::*;

use crate::flags::Flag;
use crate::layout::{grid_text, render_grid};
use crate::processor::Directory;
use crate::text::{
    decimal, decimal_string, push_char, push_spaces, push_str, spaces, strip_ansi_codes, trim_ws,
    trimmed, visible,
};

verus! {

/// Renders listings as text.
pub struct LsOutput;

/// The index of the first `c` in `s`, or its length when there is none.
pub open spec fn first_index_of(s: Seq<char>, c: char) -> nat
    decreases s.len(),
{
    if s.len() == 0 {
        0
    } else if s[0] == c {
        0
    } else {
        1 + first_index_of(s.skip(1), c)
    }
}

proof fn lemma_first_index_of(s: Seq<char>, c: char, i: int)
    requires
        0 <= i <= s.len(),
        forall|k: int| 0 <= k < i ==> s[k] != c,
        i == s.len() || s[i] == c,
    ensures
        first_index_of(s, c) == i,
    decreases i,
{
    if i > 0 {
        lemma_first_index_of(s.skip(1), c, i - 1);
    }
}

/// The index of the first `c` in `s`, or its length.
fn find_char(s: &str, c: char) -> (r: usize)
    ensures
        r == first_index_of(s@, c),
        r <= s@.len(),
{
    let n = s.unicode_len();
    let mut i: usize = 0;
    while i < n && s.get_char(i) != c
        invariant
            n == s@.len(),
            i <= n,
            forall|k: int| 0 <= k < i ==> s@[k] != c,
        decreases n - i,
    {
        i = i + 1;
    }
    proof {
        lemma_first_index_of(s@, c, i as int);
    }
    i
}

/// A device size field `major, minor` with spaces before the minor number so that
/// it is `max_size_len` wide; a field without a comma stays as it is.
pub open spec fn size_aligned(info: Seq<char>, max_size_len: nat) -> Seq<char> {
    let c = first_index_of(info, ',') as int;
    if c < info.len() {
        let rest = info.skip(c + 1);
        let gap: nat = if max_size_len > info.len() {
            (max_size_len - info.len()) as nat
        } else {
            0
        };
        trimmed(info.take(c)) + ", "@ + spaces(gap) + trimmed(rest.take(first_index_of(rest, ',') as int))
    } else {
        info
    }
}

/// `s` right-justified in `w` columns.
pub open spec fn pad_left(s: Seq<char>, w: nat) -> Seq<char> {
    if s.len() < w {
        spaces((w - s.len()) as nat) + s
    } else {
        s
    }
}

/// `s` left-justified in `w` columns.
pub open spec fn pad_right(s: Seq<char>, w: nat) -> Seq<char> {
    if s.len() < w {
        s + spaces((w - s.len()) as nat)
    } else {
        s
    }
}

/// The width recorded for column `i`, 0 when none is.
pub open spec fn width_at(max_lens: Seq<usize>, i: int) -> nat {
    if 0 <= i < max_lens.len() {
        max_lens[i] as nat
    } else {
        0
    }
}

/// Field `i` of a long row: the last flush, the link count and size right-justified,
/// the others left-justified, each but the last followed by a space.
pub open spec fn field_text(
    info: Seq<char>,
    i: int,
    last: bool,
    max_lens: Seq<usize>,
    max_size_len: nat,
) -> Seq<char> {
    let w = width_at(max_lens, i);
    if last {
        info
    } else if i == 1 {
        pad_left(info, w) + " "@
    } else if i == 4 {
        pad_left(size_aligned(info, max_size_len), w) + " "@
    } else {
        pad_right(info, w) + " "@
    }
}

/// The first `n` fields of a long row, rendered.
pub open spec fn row_text(
    row: Seq<String>,
    max_lens: Seq<usize>,
    max_size_len: nat,
    n: int,
) -> Seq<char>
    decreases n,
{
    if n <= 0 {
        Seq::empty()
    } else {
        row_text(row, max_lens, max_size_len, n - 1) + field_text(
            row[n - 1]@,
            n - 1,
            n - 1 == row.len() - 1,
            max_lens,
            max_size_len,
        )
    }
}

fn push_pad_left(out: &mut String, s: &str, w: usize)
    ensures
        final(out)@ == old(out)@ + pad_left(s@, w as nat),
{
    let n = s.unicode_len();
    if n < w {
        push_spaces(out, w - n);
    }
    push_str(out, s);
    proof {
        if n >= w {
            assert(final(out)@ == old(out)@ + s@);
        }
    }
}

fn push_pad_right(out: &mut String, s: &str, w: usize)
    ensures
        final(out)@ == old(out)@ + pad_right(s@, w as nat),
{
    let n = s.unicode_len();
    push_str(out, s);
    if n < w {
        push_spaces(out, w - n);
        proof {
            assert(old(out)@ + s@ + spaces((w - n) as nat) =~= old(out)@ + (s@ + spaces(
                (w - n) as nat,
            )));
        }
    }
}

/// The size field aligned on its comma.
pub fn align_size(info: &str, max_size_len: usize) -> (r: String)
    ensures
        r@ == size_aligned(info@, max_size_len as nat),
{
    let n = info.unicode_len();
    let c = find_char(info, ',');
    if c < n {
        let rest = info.substring_char(c + 1, n);
        proof {
            assert(rest@ =~= info@.skip(c + 1));
        }
        let c2 = find_char(rest, ',');
        let before = info.substring_char(0, c);
        let after = rest.substring_char(0, c2);
        proof {
            assert(before@ =~= info@.take(c as int));
            assert(after@ =~= rest@.take(c2 as int));
        }
        let mut out = trim_ws(before);
        push_str(&mut out, ", ");
        let gap: usize = if max_size_len > n {
            max_size_len - n
        } else {
            0
        };
        push_spaces(&mut out, gap);
        let tail = trim_ws(after);
        push_str(&mut out, tail.as_str());
        out
    } else {
        info.to_string()
    }
}

/// One row of the long listing, its columns padded to `max_lens`.
pub fn format_detailed_file_info(max_lens: &Vec<usize>, path: &Vec<String>, max_size_len: usize) -> (r:
    String)
    ensures
        r@ == row_text(path@, max_lens@, max_size_len as nat, path@.len() as int),
{
    let mut result = String::new();
    let n = path.len();
    let mut i: usize = 0;
    while i < n
        invariant
            n == path@.len(),
            i <= n,
            result@ == row_text(path@, max_lens@, max_size_len as nat, i as int),
        decreases n - i,
    {
        let info = path[i].as_str();
        let max_width: usize = if i < max_lens.len() {
            max_lens[i]
        } else {
            0
        };
        if i == n - 1 {
            push_str(&mut result, info);
        } else if i == 1 {
            push_pad_left(&mut result, info, max_width);
            push_char(&mut result, ' ');
        } else if i == 4 {
            let aligned = align_size(info, max_size_len);
            push_pad_left(&mut result, aligned.as_str(), max_width);
            push_char(&mut result, ' ');
        } else {
            push_pad_right(&mut result, info, max_width);
            push_char(&mut result, ' ');
        }
        proof {
            reveal_strlit(" ");
            assert(result@ =~= row_text(path@, max_lens@, max_size_len as nat, i + 1));
        }
        i = i + 1;
    }
    result
}

/// The width of column `i` over the first `n` rows: its widest field, 0 when no
/// row reaches it.
pub open spec fn col_max(rows: Seq<Vec<String>>, i: int, n: int) -> nat
    decreases n,
{
    if n <= 0 {
        0
    } else {
        let w = if 0 <= i < rows[n - 1]@.len() {
            rows[n - 1]@[i]@.len()
        } else {
            0
        };
        let m = col_max(rows, i, n - 1);
        if w > m {
            w
        } else {
            m
        }
    }
}

/// The number of fields of the longest of the first `n` rows.
pub open spec fn max_row_len(rows: Seq<Vec<String>>, n: int) -> nat
    decreases n,
{
    if n <= 0 {
        0
    } else {
        let m = max_row_len(rows, n - 1);
        if rows[n - 1]@.len() > m {
            rows[n - 1]@.len()
        } else {
            m
        }
    }
}

/// The column widths of a long listing.
pub fn column_maxes(rows: &Vec<Vec<String>>) -> (r: Vec<usize>)
    ensures
        r@.len() == max_row_len(rows@, rows@.len() as int),
        forall|i: int| 0 <= i < r@.len() ==> r@[i] == col_max(rows@, i, rows@.len() as int),
{
    let n = rows.len();
    let mut cols: usize = 0;
    let mut k: usize = 0;
    while k < n
        invariant
            n == rows@.len(),
            k <= n,
            cols == max_row_len(rows@, k as int),
        decreases n - k,
    {
        if rows[k].len() > cols {
            cols = rows[k].len();
        }
        k = k + 1;
    }
    let mut r: Vec<usize> = Vec::new();
    let mut i: usize = 0;
    while i < cols
        invariant
            n == rows@.len(),
            cols == max_row_len(rows@, n as int),
            i <= cols,
            r@.len() == i,
            forall|t: int| 0 <= t < i ==> r@[t] == col_max(rows@, t, n as int),
        decreases cols - i,
    {
        let mut m: usize = 0;
        let mut k: usize = 0;
        while k < n
            invariant
                n == rows@.len(),
                k <= n,
                m == col_max(rows@, i as int, k as int),
            decreases n - k,
        {
            if i < rows[k].len() {
                let w = rows[k][i].as_str().unicode_len();
                if w > m {
                    m = w;
                }
            }
            k = k + 1;
        }
        r.push(m);
        i = i + 1;
    }
    r
}

/// The first `n` rows of a long listing, one line each.
pub open spec fn long_lines(
    rows: Seq<Vec<String>>,
    max_lens: Seq<usize>,
    max_size_len: nat,
    n: int,
) -> Seq<char>
    decreases n,
{
    if n <= 0 {
        Seq::empty()
    } else {
        long_lines(rows, max_lens, max_size_len, n - 1) + row_text(
            rows[n - 1]@,
            max_lens,
            max_size_len,
            rows[n - 1]@.len() as int,
        ).push('\n')
    }
}

/// The column widths of a long listing, as a sequence.
pub open spec fn maxes(rows: Seq<Vec<String>>) -> Seq<usize> {
    Seq::new(max_row_len(rows, rows.len() as int), |i: int| col_max(rows, i, rows.len() as int) as usize)
}

/// The long listing of `rows`.
pub open spec fn long_text(rows: Seq<Vec<String>>, max_size_len: nat) -> Seq<char> {
    long_lines(rows, maxes(rows), max_size_len, rows.len() as int)
}

/// The first field of a row, or nothing for an empty row.
pub open spec fn first_field(row: Vec<String>) -> Seq<char> {
    if row@.len() > 0 {
        row@[0]@
    } else {
        Seq::empty()
    }
}

/// The names of a short listing.
pub open spec fn firsts(rows: Seq<Vec<String>>) -> Seq<Seq<char>> {
    Seq::new(rows.len(), |i: int| first_field(rows[i]))
}

/// The on-screen widths of names: their length with escape sequences removed.
pub open spec fn visible_widths(names: Seq<Seq<char>>) -> Seq<usize> {
    Seq::new(names.len(), |i: int| visible(names[i]).len() as usize)
}

/// The first `n` names joined by two spaces.
pub open spec fn joined(names: Seq<Seq<char>>, n: int) -> Seq<char>
    decreases n,
{
    if n <= 0 {
        Seq::empty()
    } else if n == 1 {
        names[0]
    } else {
        joined(names, n - 1) + "  "@ + names[n - 1]
    }
}

/// The text of one batch: the long table under `-l`; otherwise the grid for a
/// known terminal width, or the names on one line.
pub open spec fn block_text(
    rows: Seq<Vec<String>>,
    max_size_len: nat,
    flags: Flag,
    term_width: Option<usize>,
) -> Seq<char> {
    if flags.l {
        long_text(rows, max_size_len)
    } else {
        match term_width {
            Some(w) => grid_text(firsts(rows), visible_widths(firsts(rows)), w as int),
            None => joined(firsts(rows), rows.len() as int).push('\n'),
        }
    }
}

/// The text of one directory's batch: its heading when several targets were
/// given, its total under `-l`, its rows, and a blank line unless it is the last.
pub open spec fn dir_text(
    d: Directory,
    i: int,
    directories_length: nat,
    files_length: nat,
    flags: Flag,
    term_width: Option<usize>,
) -> Seq<char> {
    (if directories_length + files_length > 1 {
        d.path@ + ":\n"@
    } else {
        Seq::empty()
    }) + (if flags.l {
        "total "@ + decimal(d.total_blocks as nat) + ":\n"@
    } else {
        Seq::empty()
    }) + block_text(d.entries@, d.max_len as nat, flags, term_width) + (if i + 1
        < directories_length {
        "\n"@
    } else {
        Seq::empty()
    })
}

/// The batches of the first `n` directories.
pub open spec fn dirs_text(
    dirs: Seq<Directory>,
    directories_length: nat,
    files_length: nat,
    flags: Flag,
    term_width: Option<usize>,
    n: int,
) -> Seq<char>
    decreases n,
{
    if n <= 0 {
        Seq::empty()
    } else {
        dirs_text(dirs, directories_length, files_length, flags, term_width, n - 1) + dir_text(
            dirs[n - 1],
            n - 1,
            directories_length,
            files_length,
            flags,
            term_width,
        )
    }
}

/// The whole output: the batch of bare files (and a blank line when directories
/// follow), then each directory's batch.
pub open spec fn results_text(
    file_result: Seq<Vec<String>>,
    dir_results: Seq<Directory>,
    directories_length: nat,
    files_length: nat,
    max_files_len: nat,
    flags: Flag,
    term_width: Option<usize>,
) -> Seq<char> {
    (if file_result.len() > 0 {
        block_text(file_result, max_files_len, flags, term_width) + if dir_results.len() > 0 {
            "\n"@
        } else {
            Seq::empty()
        }
    } else {
        Seq::empty()
    }) + dirs_text(
        dir_results,
        directories_length,
        files_length,
        flags,
        term_width,
        dir_results.len() as int,
    )
}

impl LsOutput {
    /// The names of a short listing, and their on-screen widths.
    fn names_and_widths(result: &Vec<Vec<String>>) -> (r: (Vec<String>, Vec<usize>))
        ensures
            r.0@.map_values(|s: String| s@) == firsts(result@),
            r.1@ == visible_widths(firsts(result@)),
    {
        let mut names: Vec<String> = Vec::new();
        let mut widths: Vec<usize> = Vec::new();
        let mut i: usize = 0;
        while i < result.len()
            invariant
                i <= result@.len(),
                names@.len() == i,
                widths@.len() == i,
                forall|k: int| 0 <= k < i ==> #[trigger] names@[k]@ == first_field(result@[k]),
                forall|k: int| 0 <= k < i ==> #[trigger] widths@[k] == visible(first_field(result@[k])).len() as usize,
            decreases result@.len() - i,
        {
            let name = if result[i].len() > 0 {
                result[i][0].clone()
            } else {
                String::new()
            };
            let clean = strip_ansi_codes(name.as_str());
            let w = clean.as_str().unicode_len();
            names.push(name);
            widths.push(w);
            i = i + 1;
        }
        proof {
            assert(names@.map_values(|s: String| s@) =~= firsts(result@));
            assert(widths@ =~= visible_widths(firsts(result@)));
        }
        (names, widths)
    }

    /// The short listing of `result` as a grid for a terminal `term_width` wide.
    pub fn format_result(result: &Vec<Vec<String>>, term_width: usize) -> (r: String)
        ensures
            r@ == grid_text(firsts(result@), visible_widths(firsts(result@)), term_width as int),
    {
        let (names, widths) = Self::names_and_widths(result);
        render_grid(&names, &widths, term_width)
    }

    /// The short listing of `result` on one line, names two spaces apart.
    pub fn format_joined(result: &Vec<Vec<String>>) -> (r: String)
        ensures
            r@ == joined(firsts(result@), result@.len() as int).push('\n'),
    {
        let (names, _widths) = Self::names_and_widths(result);
        let ghost nv = names@.map_values(|s: String| s@);
        let mut out = String::new();
        let mut i: usize = 0;
        while i < names.len()
            invariant
                i <= names@.len(),
                nv == names@.map_values(|s: String| s@),
                nv == firsts(result@),
                out@ == joined(nv, i as int),
            decreases names@.len() - i,
        {
            if i > 0 {
                push_str(&mut out, "  ");
            }
            push_str(&mut out, names[i].as_str());
            proof {
                reveal_strlit("  ");
                if i == 0 {
                    assert(out@ =~= joined(nv, 1));
                }
            }
            i = i + 1;
        }
        push_char(&mut out, '\n');
        out
    }

    /// The long listing of `rows`, columns aligned.
    pub fn format_long(rows: &Vec<Vec<String>>, max_size_len: usize) -> (r: String)
        ensures
            r@ == long_text(rows@, max_size_len as nat),
    {
        let max_lens = column_maxes(rows);
        proof {
            assert(max_lens@ =~= maxes(rows@));
        }
        let mut out = String::new();
        let mut i: usize = 0;
        while i < rows.len()
            invariant
                i <= rows@.len(),
                max_lens@ == maxes(rows@),
                out@ == long_lines(rows@, max_lens@, max_size_len as nat, i as int),
            decreases rows@.len() - i,
        {
            let line = format_detailed_file_info(&max_lens, &rows[i], max_size_len);
            push_str(&mut out, line.as_str());
            push_char(&mut out, '\n');
            i = i + 1;
        }
        out
    }

    /// The text of one batch of rows.
    pub fn format_block(
        rows: &Vec<Vec<String>>,
        max_size_len: usize,
        flags: &Flag,
        term_width: Option<usize>,
    ) -> (r: String)
        ensures
            r@ == block_text(rows@, max_size_len as nat, *flags, term_width),
    {
        if flags.l {
            Self::format_long(rows, max_size_len)
        } else {
            match term_width {
                Some(w) => Self::format_result(rows, w),
                None => Self::format_joined(rows),
            }
        }
    }

    /// The batch of one directory, the `i`-th of `directories_length`.
    pub fn format_directory(
        d: &Directory,
        i: usize,
        directories_length: usize,
        files_length: usize,
        flags: &Flag,
        term_width: Option<usize>,
    ) -> (r: String)
        ensures
            r@ == dir_text(
                *d,
                i as int,
                directories_length as nat,
                files_length as nat,
                *flags,
                term_width,
            ),
    {
        let mut heading = String::new();
        if directories_length > 1 || files_length > 1 || (directories_length == 1 && files_length
            == 1) {
            push_str(&mut heading, d.path.as_str());
            push_str(&mut heading, ":\n");
        }
        let ghost h = heading@;
        let mut total = String::new();
        if flags.l {
            push_str(&mut total, "total ");
            let t = decimal_string(d.total_blocks);
            push_str(&mut total, t.as_str());
            push_str(&mut total, ":\n");
        }
        let block = Self::format_block(&d.entries, d.max_len, flags, term_width);
        let mut tail = String::new();
        if i < directories_length && i + 1 < directories_length {
            push_str(&mut tail, "\n");
        }
        let mut out = heading;
        push_str(&mut out, total.as_str());
        push_str(&mut out, block.as_str());
        push_str(&mut out, tail.as_str());
        proof {
            assert(out@ =~= h + total@ + block@ + tail@);
        }
        out
    }

    /// The whole output of a listing.
    pub fn render_results(
        file_result: &Vec<Vec<String>>,
        dir_results: &Vec<Directory>,
        directories_length: usize,
        files_length: usize,
        max_files_len: usize,
        flags: &Flag,
        term_width: Option<usize>,
    ) -> (r: String)
        ensures
            r@ == results_text(
                file_result@,
                dir_results@,
                directories_length as nat,
                files_length as nat,
                max_files_len as nat,
                *flags,
                term_width,
            ),
    {
        let mut out = String::new();
        if file_result.len() > 0 {
            let block = Self::format_block(file_result, max_files_len, flags, term_width);
            push_str(&mut out, block.as_str());
            if dir_results.len() > 0 {
                push_char(&mut out, '\n');
            }
            proof {
                reveal_strlit("\n");
                assert("\n"@ =~= seq!['\n']);
            }
        }
        let ghost head = out@;
        let mut i: usize = 0;
        while i < dir_results.len()
            invariant
                i <= dir_results@.len(),
                out@ == head + dirs_text(
                    dir_results@,
                    directories_length as nat,
                    files_length as nat,
                    *flags,
                    term_width,
                    i as int,
                ),
            decreases dir_results@.len() - i,
        {
            let piece = Self::format_directory(
                &dir_results[i],
                i,
                directories_length,
                files_length,
                flags,
                term_width,
            );
            push_str(&mut out, piece.as_str());
            i = i + 1;
        }
        out
    }
}

} // verus!
