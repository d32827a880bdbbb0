//! Layout of a short listing: the column-major grid search bounded by the
//! terminal width.

use vstd::prelude::*;

use crate::text::{push_char, push_spaces, push_str, spaces};

verus! {

/// The smaller of two integers.
pub open spec fn min_int(a: int, b: int) -> int {
    if a <= b {
        a
    } else {
        b
    }
}

/// `n / d` rounded up.
pub open spec fn ceil_div(n: int, d: int) -> int {
    n / d + if n % d == 0 {
        0int
    } else {
        1int
    }
}

/// The largest width among `w[lo..hi]`, or 0 for an empty range.
pub open spec fn max_in(w: Seq<usize>, lo: int, hi: int) -> nat
    decreases hi - lo,
{
    if hi <= lo {
        0
    } else {
        let m = max_in(w, lo, hi - 1);
        if w[hi - 1] > m {
            w[hi - 1] as nat
        } else {
            m
        }
    }
}

/// The width of column `j` when items are laid out column-major, `rows` to a column.
pub open spec fn col_width(w: Seq<usize>, rows: int, j: int) -> nat {
    max_in(w, min_int(j * rows, w.len() as int), min_int((j + 1) * rows, w.len() as int))
}

/// The widths of the first `c` columns, added up.
pub open spec fn widths_sum(w: Seq<usize>, rows: int, c: int) -> nat
    decreases c,
{
    if c <= 0 {
        0
    } else {
        widths_sum(w, rows, c - 1) + col_width(w, rows, c - 1)
    }
}

/// How many rows `cols` columns take.
pub open spec fn rows_for(w: Seq<usize>, cols: int) -> int {
    ceil_div(w.len() as int, cols)
}

/// The width of a grid of `cols` columns: the column widths and a two-space gutter
/// between neighbouring columns.
pub open spec fn total_width(w: Seq<usize>, cols: int) -> nat {
    (widths_sum(w, rows_for(w, cols), cols) + 2 * (cols - 1)) as nat
}

/// Whether a grid of `cols` columns fits in `width`.
pub open spec fn fits(w: Seq<usize>, width: int, cols: int) -> bool {
    total_width(w, cols) <= width
}

/// The largest column count in `1..=c` that fits, or 1 when none does.
pub open spec fn best_up_to(w: Seq<usize>, width: int, c: int) -> int
    decreases c,
{
    if c <= 0 {
        1
    } else if fits(w, width, c) {
        c
    } else {
        best_up_to(w, width, c - 1)
    }
}

/// The largest column count the search tries: one per item, at most a third of the width.
pub open spec fn column_limit(n: int, width: int) -> int {
    min_int(n, width / 3)
}

/// The column count the search settles on.
pub open spec fn chosen_cols(w: Seq<usize>, width: int) -> int {
    best_up_to(w, width, column_limit(w.len() as int, width))
}

/// `n / d` rounded up.
pub fn div_ceil(n: usize, d: usize) -> (r: usize)
    requires
        d >= 1,
    ensures
        r == ceil_div(n as int, d as int),
{
    if n % d == 0 {
        n / d
    } else {
        proof {
            assert(n / d < n) by (nonlinear_arith)
                requires
                    d >= 1,
                    n % d != 0,
            {
                if d == 1 {
                    assert(n % d == 0);
                } else {
                    assert(n / d * d <= n);
                }
            }
        }
        n / d + 1
    }
}

/// The largest of `w[lo..hi]`.
fn range_max(w: &Vec<usize>, lo: usize, hi: usize) -> (m: usize)
    requires
        lo <= hi <= w.len(),
    ensures
        m == max_in(w@, lo as int, hi as int),
{
    let mut m: usize = 0;
    let mut i: usize = lo;
    while i < hi
        invariant
            lo <= i <= hi <= w.len(),
            m == max_in(w@, lo as int, i as int),
        decreases hi - i,
    {
        if w[i] > m {
            m = w[i];
        }
        i = i + 1;
    }
    m
}

/// The width of each of `cols` columns of `rows` rows.
pub fn column_widths(w: &Vec<usize>, rows: usize, cols: usize) -> (cw: Vec<usize>)
    ensures
        cw.len() == cols,
        forall|j: int| 0 <= j < cols ==> cw[j] == col_width(w@, rows as int, j),
{
    let n = w.len();
    let mut cw: Vec<usize> = Vec::new();
    let mut lo: usize = 0;
    let mut j: usize = 0;
    while j < cols
        invariant
            n == w.len(),
            j <= cols,
            cw.len() == j,
            lo == min_int(j * rows, n as int),
            forall|k: int| 0 <= k < j ==> cw[k] == col_width(w@, rows as int, k),
        decreases cols - j,
    {
        let hi: usize = if n - lo <= rows {
            n
        } else {
            lo + rows
        };
        proof {
            assert((j + 1) * rows == j * rows + rows) by (nonlinear_arith);
            assert(hi == min_int((j + 1) * rows, n as int));
        }
        let m = range_max(w, lo, hi);
        cw.push(m);
        lo = hi;
        j = j + 1;
    }
    cw
}

/// Whether a grid of `cols` columns fits in `width`.
fn grid_fits(w: &Vec<usize>, width: usize, cols: usize) -> (r: bool)
    requires
        1 <= cols <= width / 3,
    ensures
        r == fits(w@, width as int, cols as int),
{
    let n = w.len();
    let rows = div_ceil(n, cols);
    let cw = column_widths(w, rows, cols);
    let gutter: usize = 2 * (cols - 1);
    let mut total: usize = gutter;
    let mut j: usize = 0;
    while j < cols
        invariant
            j <= cols,
            cw.len() == cols,
            rows == rows_for(w@, cols as int),
            forall|k: int| 0 <= k < cols ==> cw[k] == col_width(w@, rows as int, k),
            total == widths_sum(w@, rows as int, j as int) + gutter,
            total <= width,
            gutter == 2 * (cols - 1),
        decreases cols - j,
    {
        if cw[j] > width - total {
            proof {
                lemma_widths_sum_grows(w@, rows as int, j as int + 1, cols as int);
            }
            return false;
        }
        total = total + cw[j];
        j = j + 1;
    }
    true
}

proof fn lemma_widths_sum_grows(w: Seq<usize>, rows: int, a: int, b: int)
    requires
        0 <= a <= b,
    ensures
        widths_sum(w, rows, a) <= widths_sum(w, rows, b),
    decreases b - a,
{
    if a < b {
        lemma_widths_sum_grows(w, rows, a, b - 1);
    }
}

/// The column count and row count of the grid for items of widths `w` in a
/// terminal `width` columns wide.
pub fn choose_layout(w: &Vec<usize>, width: usize) -> (r: (usize, usize))
    ensures
        r.0 == chosen_cols(w@, width as int),
        r.1 == rows_for(w@, r.0 as int),
{
    let n = w.len();
    let limit: usize = if n < width / 3 {
        n
    } else {
        width / 3
    };
    let mut best: usize = 1;
    let mut cols: usize = 1;
    while cols <= limit
        invariant
            limit == column_limit(n as int, width as int),
            n == w.len(),
            1 <= cols <= limit + 1,
            best == best_up_to(w@, width as int, cols - 1),
        decreases limit + 1 - cols,
    {
        if grid_fits(w, width, cols) {
            best = cols;
        }
        cols = cols + 1;
    }
    proof {
        lemma_best_up_to_range(w@, width as int, limit as int);
    }
    let rows = div_ceil(n, best);
    (best, rows)
}

proof fn lemma_best_up_to_range(w: Seq<usize>, width: int, c: int)
    ensures
        1 <= best_up_to(w, width, c),
        c >= 1 ==> best_up_to(w, width, c) <= c,
        best_up_to(w, width, c) > 1 ==> fits(w, width, best_up_to(w, width, c)),
        !fits(w, width, best_up_to(w, width, c)) ==> forall|k: int|
            1 <= k <= c ==> !fits(w, width, k),
    decreases c,
{
    if c > 0 && !fits(w, width, c) {
        lemma_best_up_to_range(w, width, c - 1);
    }
}

/// The search never settles on a grid wider than the terminal, unless no
/// column count fits at all, and then it takes a single column; it always
/// takes at least one column.
pub proof fn lemma_layout_within_width(w: Seq<usize>, width: int)
    ensures
        chosen_cols(w, width) >= 1,
        fits(w, width, chosen_cols(w, width)) || (chosen_cols(w, width) == 1 && forall|k: int|
            1 <= k <= column_limit(w.len() as int, width) ==> !fits(w, width, k)),
{
    lemma_best_up_to_range(w, width, column_limit(w.len() as int, width));
}

/// The cell of column `j` in line `row`: the item placed there, and, unless it is in
/// the last column or is the last item, the padding up to its column's width and
/// the gutter.
pub open spec fn grid_cell(
    names: Seq<Seq<char>>,
    w: Seq<usize>,
    rows: int,
    cols: int,
    row: int,
    j: int,
) -> Seq<char> {
    let idx = j * rows + row;
    if idx < names.len() {
        names[idx] + if j < cols - 1 && idx < names.len() - 1 {
            spaces((col_width(w, rows, j) - w[idx] + 2) as nat)
        } else {
            Seq::empty()
        }
    } else {
        Seq::empty()
    }
}

/// The first `j` cells of line `row`.
pub open spec fn grid_line(
    names: Seq<Seq<char>>,
    w: Seq<usize>,
    rows: int,
    cols: int,
    row: int,
    j: int,
) -> Seq<char>
    decreases j,
{
    if j <= 0 {
        Seq::empty()
    } else {
        grid_line(names, w, rows, cols, row, j - 1) + grid_cell(names, w, rows, cols, row, j - 1)
    }
}

/// The first `r` lines of the grid, each ended by a newline.
pub open spec fn grid_lines(names: Seq<Seq<char>>, w: Seq<usize>, rows: int, cols: int, r: int) -> Seq<
    char,
>
    decreases r,
{
    if r <= 0 {
        Seq::empty()
    } else {
        grid_lines(names, w, rows, cols, r - 1) + grid_line(names, w, rows, cols, r - 1, cols).push(
            '\n',
        )
    }
}

/// The short listing of `names`, whose widths on screen are `w`, for a terminal
/// `width` columns wide.
pub open spec fn grid_text(names: Seq<Seq<char>>, w: Seq<usize>, width: int) -> Seq<char> {
    let cols = chosen_cols(w, width);
    let rows = rows_for(w, cols);
    grid_lines(names, w, rows, cols, rows)
}

proof fn lemma_max_in_bounds(w: Seq<usize>, lo: int, hi: int, i: int)
    requires
        lo <= i < hi <= w.len(),
        0 <= lo,
    ensures
        w[i] <= max_in(w, lo, hi),
    decreases hi - lo,
{
    if i < hi - 1 {
        lemma_max_in_bounds(w, lo, hi - 1, i);
    }
}

/// Item `idx` of a grid of `rows` rows stands on line `idx % rows`, in column
/// `idx / rows`: that cell starts with the item.
pub proof fn lemma_item_position(names: Seq<Seq<char>>, w: Seq<usize>, rows: int, cols: int, idx: int)
    requires
        rows > 0,
        0 <= idx < names.len(),
    ensures
        grid_cell(names, w, rows, cols, idx % rows, idx / rows).take(names[idx].len() as int)
            == names[idx],
{
    assert((idx / rows) * rows + idx % rows == idx) by (nonlinear_arith)
        requires
            rows > 0,
    ;
    let cell = grid_cell(names, w, rows, cols, idx % rows, idx / rows);
    assert(cell.take(names[idx].len() as int) =~= names[idx]);
}

/// Lays out `names` (with on-screen widths `w`) in the grid the search picks.
pub fn render_grid(names: &Vec<String>, w: &Vec<usize>, width: usize) -> (r: String)
    requires
        names.len() == w.len(),
    ensures
        r@ == grid_text(names@.map_values(|s: String| s@), w@, width as int),
{
    let ghost nv = names@.map_values(|s: String| s@);
    let n = names.len();
    let (cols, rows) = choose_layout(w, width);
    proof {
        lemma_best_up_to_range(w@, width as int, column_limit(n as int, width as int));
    }
    let cw = column_widths(w, rows, cols);
    let mut out = String::new();
    let mut row: usize = 0;
    while row < rows
        invariant
            n == names.len() == w.len() == nv.len(),
            nv == names@.map_values(|s: String| s@),
            cols >= 1,
            cw.len() == cols,
            forall|k: int| 0 <= k < cols ==> cw[k] == col_width(w@, rows as int, k),
            row <= rows,
            out@ == grid_lines(nv, w@, rows as int, cols as int, row as int),
        decreases rows - row,
    {
        let ghost before = out@;
        let mut col: usize = 0;
        let mut idx: usize = if row < n {
            row
        } else {
            n
        };
        while col < cols
            invariant
                n == names.len() == w.len() == nv.len(),
                nv == names@.map_values(|s: String| s@),
                cols >= 1,
                cw.len() == cols,
                forall|k: int| 0 <= k < cols ==> cw[k] == col_width(w@, rows as int, k),
                row < rows,
                col <= cols,
                idx == min_int(col * rows + row, n as int),
                out@ == before + grid_line(nv, w@, rows as int, cols as int, row as int, col as int),
            decreases cols - col,
        {
            let ghost prev = out@;
            if idx < n {
                push_str(&mut out, names[idx].as_str());
                if col < cols - 1 && idx < n - 1 {
                    proof {
                        let lo = min_int(col * rows, n as int);
                        let hi = min_int((col + 1) * rows, n as int);
                        assert((col + 1) * rows == col * rows + rows) by (nonlinear_arith);
                        lemma_max_in_bounds(w@, lo, hi, idx as int);
                    }
                    let gap = cw[col] - w[idx];
                    push_spaces(&mut out, gap);
                    push_spaces(&mut out, 2);
                    proof {
                        assert(spaces(gap as nat) + spaces(2) =~= spaces((gap + 2) as nat));
                    }
                }
            }
            proof {
                assert(out@ == prev + grid_cell(nv, w@, rows as int, cols as int, row as int, col as int));
            }
            idx = if rows >= n - idx {
                n
            } else {
                idx + rows
            };
            proof {
                assert((col + 1) * rows == col * rows + rows) by (nonlinear_arith);
            }
            col = col + 1;
        }
        push_char(&mut out, '\n');
        row = row + 1;
    }
    out
}

} // verus!
