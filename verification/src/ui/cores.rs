use vstd::prelude::*;

verus! {

/// Rows the two-column core box needs for `core_count` cores: one per pair
/// of cores (one for none), as a `u16` (wrapping past 65535).
pub open spec fn core_rows_needed(core_count: nat) -> u16 {
    if core_count == 0 {
        1
    } else {
        (((core_count + 1) / 2) % 65536) as u16
    }
}

/// Number of text rows the two-column core bars take for `core_count` cores.
pub fn core_bar_rows(core_count: usize) -> (r: u16)
    ensures
        r == core_rows_needed(core_count as nat),
{
    if core_count == 0 {
        1
    } else {
        let half = core_count / 2 + core_count % 2;
        assert(half == (core_count + 1) / 2);
        (half % 65536) as u16
    }
}

/// One line of the core box.
#[derive(Debug, Clone, Copy, PartialEq, Eq, Structural)]
pub enum CoreLine {
    /// Bars for the cores `first`, `first + step`, ... (`count` of them),
    /// left to right.
    Cores { first: usize, step: usize, count: usize },
    /// A dotted divider across the box.
    Divider,
}

/// What the core box shows.
#[derive(Debug, Clone, PartialEq, Eq)]
pub enum CoreLayout {
    /// No core readings yet.
    Waiting,
    /// The columns would be too narrow to draw.
    TooNarrow,
    /// Lines of core bars, each bar `column_width` cells wide.
    Grid { column_width: usize, lines: Vec<CoreLine> },
}

/// How many of the columns `0..columns` hold a core in the line that starts
/// at core `first`, when column `c` holds core `first + c * step` of `n`.
pub open spec fn cores_in_row(n: nat, step: nat, first: nat, columns: nat) -> nat
    decreases columns,
{
    if columns == 0 {
        0
    } else {
        cores_in_row(n, step, first, (columns - 1) as nat) + if first + (columns - 1) * step < n {
            1nat
        } else {
            0nat
        }
    }
}

proof fn lemma_cores_in_row_rest(n: nat, step: nat, first: nat, c: nat, columns: nat)
    requires
        c <= columns,
        first + c * step >= n,
    ensures
        cores_in_row(n, step, first, columns) == cores_in_row(n, step, first, c),
    decreases columns - c,
{
    if columns > c {
        lemma_cores_in_row_rest(n, step, first, c, (columns - 1) as nat);
        assert(first + (columns - 1) * step >= n) by (nonlinear_arith)
            requires
                c <= columns - 1,
                first + c * step >= n,
        {}
    }
}

/// Number of cores in the line starting at `first`.
fn count_row(n: usize, step: usize, first: usize, columns: usize) -> (count: usize)
    ensures
        count == cores_in_row(n as nat, step as nat, first as nat, columns as nat),
{
    let mut count: usize = 0;
    let mut c: usize = 0;
    let mut idx: usize = first;
    let mut live = first < n;
    while c < columns && live
        invariant
            c <= columns,
            count <= c,
            count == cores_in_row(n as nat, step as nat, first as nat, c as nat),
            live ==> idx == first + c * step && idx < n,
            !live ==> first + c * step >= n,
        decreases columns - c,
    {
        assert(first + (c + 1) * step == first + c * step + step) by (nonlinear_arith);
        count = count + 1;
        c = c + 1;
        if step >= n - idx {
            live = false;
        } else {
            idx = idx + step;
        }
    }
    if !live {
        proof {
            lemma_cores_in_row_rest(n as nat, step as nat, first as nat, c as nat, columns as nat);
        }
    }
    count
}

/// The lines of the core box from data row `row` on, when `count` lines
/// are already placed: each data row shows its cores, and a divider follows
/// it while there is room and another data row comes.
pub open spec fn grid_lines(n: nat, data_rows: nat, columns: nat, rows: nat, used_rows: nat, row: nat, count: nat) -> Seq<CoreLine>
    decreases used_rows - row,
{
    if row >= used_rows {
        Seq::empty()
    } else {
        let line = CoreLine::Cores {
            first: row as usize,
            step: data_rows as usize,
            count: cores_in_row(n, data_rows, row, columns) as usize,
        };
        if count + 1 < rows && row + 1 < used_rows {
            seq![line, CoreLine::Divider] + grid_lines(n, data_rows, columns, rows, used_rows, row + 1, count + 2)
        } else {
            seq![line] + grid_lines(n, data_rows, columns, rows, used_rows, row + 1, count + 1)
        }
    }
}

/// `a / b` rounded up.
pub open spec fn div_ceil(a: nat, b: nat) -> nat {
    a / b + if a % b != 0 { 1nat } else { 0nat }
}

/// `a - b`, or zero when `b` exceeds `a`.
pub open spec fn sat_sub(a: nat, b: nat) -> nat {
    if a >= b {
        (a - b) as nat
    } else {
        0
    }
}

/// Lines the core box has room for (at least one).
pub open spec fn box_rows(height: nat) -> nat {
    if height < 1 { 1 } else { height }
}

/// Lines of the core box that hold cores: half the lines, rounded up, since
/// dividers take the others.
pub open spec fn box_data_rows(height: nat) -> nat {
    if div_ceil(box_rows(height), 2) < 1 { 1 } else { div_ceil(box_rows(height), 2) }
}

/// Columns of the core box: enough for `core_count` cores filling the data
/// rows top to bottom.
pub open spec fn box_columns(core_count: nat, height: nat) -> nat {
    if div_ceil(core_count, box_data_rows(height)) < 1 {
        1
    } else {
        div_ceil(core_count, box_data_rows(height))
    }
}

/// Width of one column of the core box: the columns share the width, one
/// cell apart.
pub open spec fn box_column_width(core_count: nat, width: nat, height: nat) -> nat {
    let columns = box_columns(core_count, height);
    sat_sub(width, (columns - 1) as nat) / columns
}

/// The lines of the core box for `core_count` cores, `height` lines high.
pub open spec fn core_box_lines(core_count: nat, height: nat) -> Seq<CoreLine> {
    let data_rows = box_data_rows(height);
    let used_rows = if core_count < data_rows { core_count } else { data_rows };
    grid_lines(core_count, data_rows, box_columns(core_count, height), box_rows(height), used_rows, 0, 0)
}

/// Narrowest column the core box draws.
pub const MIN_CORE_COLUMN: usize = 8;

/// What the core box shows for `core_count` cores in `width` by `height` cells.
pub fn core_lines(core_count: usize, width: u16, height: u16) -> (r: CoreLayout)
    ensures
        core_count == 0 ==> r is Waiting,
        core_count > 0 && box_column_width(core_count as nat, width as nat, height as nat) < MIN_CORE_COLUMN
            ==> r is TooNarrow,
        core_count > 0 && box_column_width(core_count as nat, width as nat, height as nat) >= MIN_CORE_COLUMN
            ==> (r matches CoreLayout::Grid { column_width, lines } && column_width == box_column_width(
            core_count as nat,
            width as nat,
            height as nat,
        ) && lines@ == core_box_lines(core_count as nat, height as nat)),
{
    if core_count == 0 {
        return CoreLayout::Waiting;
    }
    let rows: usize = if height < 1 {
        1
    } else {
        height as usize
    };
    let half = rows / 2 + rows % 2;
    assert(half == div_ceil(rows as nat, 2));
    let data_rows = if half < 1 {
        1
    } else {
        half
    };
    let q = core_count / data_rows;
    assert(core_count % data_rows != 0 ==> q < usize::MAX) by (nonlinear_arith)
        requires
            data_rows >= 1,
            q == core_count / data_rows,
    {
        if core_count % data_rows != 0 {
            assert(data_rows >= 2);
            assert(q * data_rows <= core_count);
        }
    }
    let per = if core_count % data_rows != 0 {
        q + 1
    } else {
        q
    };
    assert(per == div_ceil(core_count as nat, data_rows as nat)) by (nonlinear_arith)
        requires
            data_rows >= 1,
            per == core_count / data_rows + if core_count % data_rows != 0 { 1int } else { 0 },
    {}
    let columns = if per < 1 {
        1
    } else {
        per
    };
    let w = width as usize;
    let column_width = (if w >= columns - 1 {
        w - (columns - 1)
    } else {
        0
    }) / columns;
    let used_rows = if core_count < data_rows {
        core_count
    } else {
        data_rows
    };
    if column_width < MIN_CORE_COLUMN {
        return CoreLayout::TooNarrow;
    }
    let mut lines: Vec<CoreLine> = Vec::new();
    let mut row: usize = 0;
    while row < used_rows
        invariant
            row <= used_rows,
            used_rows <= data_rows,
            lines@.len() <= 2 * row,
            lines@ + grid_lines(core_count as nat, data_rows as nat, columns as nat, rows as nat, used_rows as nat, row as nat, lines@.len()) == grid_lines(core_count as nat, data_rows as nat, columns as nat, rows as nat, used_rows as nat, 0, 0),
        decreases used_rows - row,
    {
        let count = count_row(core_count, data_rows, row, columns);
        let ghost before = lines@;
        lines.push(CoreLine::Cores { first: row, step: data_rows, count });
        if lines.len() < rows && row + 1 < used_rows {
            lines.push(CoreLine::Divider);
            assert(lines@ =~= before + seq![CoreLine::Cores { first: row, step: data_rows, count }, CoreLine::Divider]);
        }
        row = row + 1;
    }
    assert(lines@ + Seq::<CoreLine>::empty() =~= lines@);
    CoreLayout::Grid { column_width, lines }
}

/// Core `k` is drawn in line `i` of `lines`, at column `c` of that line.
pub open spec fn draws_core(lines: Seq<CoreLine>, i: int, c: int, k: int) -> bool {
    0 <= i < lines.len() && match lines[i] {
        CoreLine::Cores { first, step, count } => 0 <= c < count && first + c * step == k,
        CoreLine::Divider => false,
    }
}

proof fn lemma_cores_in_row_le(n: nat, step: nat, first: nat, m: nat)
    ensures
        cores_in_row(n, step, first, m) <= m,
    decreases m,
{
    if m > 0 {
        lemma_cores_in_row_le(n, step, first, (m - 1) as nat);
    }
}

proof fn lemma_cores_in_row_monotone(n: nat, step: nat, first: nat, m1: nat, m2: nat)
    requires
        m1 <= m2,
    ensures
        cores_in_row(n, step, first, m1) <= cores_in_row(n, step, first, m2),
    decreases m2,
{
    if m2 > m1 {
        lemma_cores_in_row_monotone(n, step, first, m1, (m2 - 1) as nat);
    }
}

proof fn lemma_cores_in_row_full(n: nat, step: nat, first: nat, m: nat)
    requires
        m >= 1,
        first + (m - 1) * step < n,
    ensures
        cores_in_row(n, step, first, m) == m,
    decreases m,
{
    let prev = (m - 1) as nat;
    assert(cores_in_row(n, step, first, m) == cores_in_row(n, step, first, prev) + 1);
    if m >= 2 {
        let before = (prev - 1) as nat;
        assert(first + before * step <= first + prev * step) by (nonlinear_arith)
            requires
                before + 1 == prev,
        {}
        lemma_cores_in_row_full(n, step, first, prev);
    }
}

/// Column `c` of a line holds a core exactly when that core exists.
proof fn lemma_cores_in_row_iff(n: nat, step: nat, first: nat, columns: nat, c: nat)
    requires
        c < columns,
    ensures
        (first + c * step < n) <==> c < cores_in_row(n, step, first, columns),
{
    if first + c * step < n {
        lemma_cores_in_row_full(n, step, first, c + 1);
        lemma_cores_in_row_monotone(n, step, first, c + 1, columns);
    } else {
        lemma_cores_in_row_rest(n, step, first, c, columns);
        lemma_cores_in_row_le(n, step, first, c);
    }
}

/// Core `k` is drawn somewhere in `lines`.
pub open spec fn core_drawn(lines: Seq<CoreLine>, k: int) -> bool {
    exists|i: int, c: int| #[trigger] draws_core(lines, i, c, k)
}

/// `l` is the line of data row `r`.
pub open spec fn starts_row(l: CoreLine, r: nat) -> bool {
    match l {
        CoreLine::Cores { first, .. } => first == r,
        CoreLine::Divider => false,
    }
}

/// Some line of `s` is the line of data row `r`.
pub open spec fn row_shown(s: Seq<CoreLine>, r: nat) -> bool {
    exists|j: int| 0 <= j < s.len() && #[trigger] starts_row(s[j], r)
}

/// `l` is a divider or the line of a data row in `lo..used_rows`, with the
/// row's cores.
pub open spec fn row_line_ok(l: CoreLine, lo: nat, used_rows: nat, n: nat, data_rows: nat, columns: nat) -> bool {
    match l {
        CoreLine::Cores { first, step, count } => lo <= first < used_rows && step == data_rows && count
            == cores_in_row(n, data_rows, first as nat, columns),
        CoreLine::Divider => true,
    }
}

proof fn lemma_grid_lines_shape(n: nat, data_rows: nat, columns: nat, rows: nat, used_rows: nat, row: nat, count: nat)
    requires
        used_rows <= usize::MAX,
        data_rows <= usize::MAX,
        forall|f: nat| f < used_rows ==> #[trigger] cores_in_row(n, data_rows, f, columns) <= usize::MAX,
    ensures
        ({
            let s = grid_lines(n, data_rows, columns, rows, used_rows, row, count);
            &&& row < used_rows ==> s.len() <= 2 * (used_rows - row) - 1
            &&& row >= used_rows ==> s.len() == 0
            &&& forall|j: int| 0 <= j < s.len() ==> row_line_ok(#[trigger] s[j], row, used_rows, n, data_rows, columns)
            &&& forall|r: nat| row <= r < used_rows ==> #[trigger] row_shown(s, r)
            &&& forall|j1: int, j2: int, r: nat|
                0 <= j1 < s.len() && 0 <= j2 < s.len() && #[trigger] starts_row(s[j1], r) && #[trigger] starts_row(s[j2], r)
                    ==> j1 == j2
        }),
    decreases used_rows - row,
{
    if row < used_rows {
        let line = CoreLine::Cores {
            first: row as usize,
            step: data_rows as usize,
            count: cores_in_row(n, data_rows, row, columns) as usize,
        };
        assert(cores_in_row(n, data_rows, row, columns) <= usize::MAX);
        let s = grid_lines(n, data_rows, columns, rows, used_rows, row, count);
        let skip: int = if count + 1 < rows && row + 1 < used_rows { 2 } else { 1 };
        let t = if skip == 2 {
            grid_lines(n, data_rows, columns, rows, used_rows, row + 1, count + 2)
        } else {
            grid_lines(n, data_rows, columns, rows, used_rows, row + 1, count + 1)
        };
        if skip == 2 {
            lemma_grid_lines_shape(n, data_rows, columns, rows, used_rows, row + 1, count + 2);
            assert(s == seq![line, CoreLine::Divider] + t);
        } else {
            lemma_grid_lines_shape(n, data_rows, columns, rows, used_rows, row + 1, count + 1);
            assert(s == seq![line] + t);
        }
        assert(s[0] == line);
        assert forall|j: int| skip <= j < s.len() implies s[j] == t[j - skip] by {}
        assert forall|j: int| 0 < j < skip implies s[j] == CoreLine::Divider by {}
        assert forall|r: nat| row <= r < used_rows implies #[trigger] row_shown(s, r) by {
            if r == row {
                assert(starts_row(s[0], r));
            } else {
                assert(row_shown(t, r));
                let j = choose|j: int| 0 <= j < t.len() && #[trigger] starts_row(t[j], r);
                assert(s[j + skip] == t[j]);
                assert(starts_row(s[j + skip], r));
            }
        }
        assert forall|j: int| 0 <= j < s.len() implies row_line_ok(#[trigger] s[j], row, used_rows, n, data_rows, columns) by {
            if j >= skip {
                assert(s[j] == t[j - skip]);
                assert(row_line_ok(t[j - skip], row + 1, used_rows, n, data_rows, columns));
            }
        }
        assert forall|j1: int, j2: int, r: nat|
            0 <= j1 < s.len() && 0 <= j2 < s.len() && #[trigger] starts_row(s[j1], r) && #[trigger] starts_row(s[j2], r)
                implies j1 == j2 by {
            if j1 >= skip {
                assert(s[j1] == t[j1 - skip]);
                assert(row_line_ok(t[j1 - skip], row + 1, used_rows, n, data_rows, columns));
            }
            if j2 >= skip {
                assert(s[j2] == t[j2 - skip]);
                assert(row_line_ok(t[j2 - skip], row + 1, used_rows, n, data_rows, columns));
            }
            if j1 >= skip && j2 >= skip {
                assert(starts_row(t[j1 - skip], r) && starts_row(t[j2 - skip], r));
            }
        }
    }
}

/// The core box shows every core exactly once and nothing else, and its
/// lines fit in its height: for each core `k` there is one line and one
/// column drawing it, and every drawn core exists.
pub proof fn lemma_core_box_shows_each_core_once(core_count: nat, height: nat)
    requires
        core_count > 0,
        core_count <= usize::MAX,
        height <= u16::MAX,
    ensures
        ({
            let lines = core_box_lines(core_count, height);
            &&& lines.len() <= box_rows(height)
            &&& forall|k: int| 0 <= k < core_count ==> #[trigger] core_drawn(lines, k)
            &&& forall|i: int, c: int, k: int| #[trigger] draws_core(lines, i, c, k) ==> 0 <= k < core_count
            &&& forall|i1: int, c1: int, i2: int, c2: int, k: int|
                #[trigger] draws_core(lines, i1, c1, k) && #[trigger] draws_core(lines, i2, c2, k) ==> i1 == i2 && c1 == c2
        }),
{
    let n = core_count;
    let rows = box_rows(height);
    let dr = box_data_rows(height);
    let cols = box_columns(n, height);
    let used = if n < dr { n } else { dr };
    let lines = core_box_lines(n, height);
    assert(cols <= n) by (nonlinear_arith)
        requires
            dr >= 1,
            n >= 1,
            cols == (if n / dr + (if n % dr != 0 { 1int } else { 0 }) < 1 { 1 } else { n / dr + (if n % dr != 0 { 1int } else { 0 }) }),
    {
        vstd::arithmetic::div_mod::lemma_fundamental_div_mod(n as int, dr as int);
        if dr >= 2 {
            assert(n / dr < n);
        }
    }
    assert forall|f: nat| f < used implies #[trigger] cores_in_row(n, dr, f, cols) <= usize::MAX by {
        lemma_cores_in_row_le(n, dr, f, cols);
    }
    lemma_grid_lines_shape(n, dr, cols, rows, used, 0, 0);
    assert(dr <= rows && 2 * dr <= rows + 1);
    assert(lines.len() <= rows);
    assert forall|k: int| 0 <= k < n implies #[trigger] core_drawn(lines, k) by {
        let r = k % (dr as int);
        let c = k / (dr as int);
        vstd::arithmetic::div_mod::lemma_fundamental_div_mod(k, dr as int);
        assert(r < used);
        assert(c < cols) by (nonlinear_arith)
            requires
                dr >= 1,
                0 <= k < n,
                c == k / (dr as int),
                cols >= n / dr + if n % dr != 0 { 1int } else { 0 },
        {
            vstd::arithmetic::div_mod::lemma_fundamental_div_mod(n as int, dr as int);
            vstd::arithmetic::div_mod::lemma_fundamental_div_mod(k, dr as int);
        }
        assert(k == r + c * dr) by (nonlinear_arith)
            requires
                k == dr * c + r,
        {}
        lemma_cores_in_row_iff(n, dr, r as nat, cols, c as nat);
        assert(row_shown(lines, r as nat));
        let i = choose|j: int| 0 <= j < lines.len() && #[trigger] starts_row(lines[j], r as nat);
        assert(row_line_ok(lines[i], 0, used, n, dr, cols));
        assert(draws_core(lines, i, c, k));
    }
    assert forall|i: int, c: int, k: int| #[trigger] draws_core(lines, i, c, k) implies 0 <= k < n by {
        assert(row_line_ok(lines[i], 0, used, n, dr, cols));
        if let CoreLine::Cores { first, step, count } = lines[i] {
            lemma_cores_in_row_le(n, dr, first as nat, cols);
            lemma_cores_in_row_iff(n, dr, first as nat, cols, c as nat);
        }
    }
    assert forall|i1: int, c1: int, i2: int, c2: int, k: int|
        #[trigger] draws_core(lines, i1, c1, k) && #[trigger] draws_core(lines, i2, c2, k) implies i1 == i2 && c1 == c2 by {
        assert(row_line_ok(lines[i1], 0, used, n, dr, cols));
        assert(row_line_ok(lines[i2], 0, used, n, dr, cols));
        if let CoreLine::Cores { first: f1, step: s1, count: k1 } = lines[i1] {
            if let CoreLine::Cores { first: f2, step: s2, count: k2 } = lines[i2] {
                vstd::arithmetic::div_mod::lemma_fundamental_div_mod_converse(k, dr as int, c1, f1 as int);
                vstd::arithmetic::div_mod::lemma_fundamental_div_mod_converse(k, dr as int, c2, f2 as int);
                assert(starts_row(lines[i1], f1 as nat) && starts_row(lines[i2], f1 as nat));
            }
        }
    }
}

/// Lines of the two-column core bars: `column_width` per bar, and the
/// first cores fill the left column top to bottom.
pub open spec fn bar_lines(n: nat, rows: nat, columns: nat, row: nat) -> Seq<CoreLine>
    decreases rows - row,
{
    if row >= rows {
        Seq::empty()
    } else {
        seq![CoreLine::Cores { first: row as usize, step: rows as usize, count: cores_in_row(n, rows, row, columns) as usize }]
            + bar_lines(n, rows, columns, row + 1)
    }
}

/// Columns of the core bars: two when the width reaches 56 cells.
pub open spec fn bar_columns(width: nat) -> nat {
    if width >= 56 { 2 } else { 1 }
}

/// The two-column core bars for `core_count` cores in `width` cells.
pub fn core_bar_lines(core_count: usize, width: u16) -> (r: CoreLayout)
    ensures
        core_count == 0 ==> r is Waiting,
        core_count > 0 ==> (r matches CoreLayout::Grid { column_width, lines } && column_width == sat_sub(
            width as nat,
            (bar_columns(width as nat) - 1) as nat,
        ) / bar_columns(width as nat) && lines@ == bar_lines(
            core_count as nat,
            div_ceil(core_count as nat, bar_columns(width as nat)),
            bar_columns(width as nat),
            0,
        )),
{
    if core_count == 0 {
        return CoreLayout::Waiting;
    }
    let columns: usize = if width >= 56 {
        2
    } else {
        1
    };
    let column_width = (width as usize - (columns - 1)) / columns;
    let rows = if columns == 2 {
        core_count / 2 + core_count % 2
    } else {
        core_count
    };
    assert(rows == div_ceil(core_count as nat, columns as nat));
    let mut lines: Vec<CoreLine> = Vec::new();
    let mut row: usize = 0;
    while row < rows
        invariant
            row <= rows,
            lines@ + bar_lines(core_count as nat, rows as nat, columns as nat, row as nat) == bar_lines(core_count as nat, rows as nat, columns as nat, 0),
        decreases rows - row,
    {
        let count = count_row(core_count, rows, row, columns);
        let ghost before = lines@;
        lines.push(CoreLine::Cores { first: row, step: rows, count });
        assert(before + bar_lines(core_count as nat, rows as nat, columns as nat, row as nat) =~= lines@ + bar_lines(core_count as nat, rows as nat, columns as nat, (row + 1) as nat));
        row = row + 1;
    }
    assert(lines@ + Seq::<CoreLine>::empty() =~= lines@);
    CoreLayout::Grid { column_width, lines }
}

/// Width of the braille bar of a core line `width` cells wide whose label
/// and percentage take `label_len` and `pct_len` cells: what they and two
/// spaces leave, at least three cells.
pub open spec fn bar_cells(width: nat, label_len: nat, pct_len: nat) -> nat {
    let rest = sat_sub(width, label_len + pct_len + 2);
    if rest < 3 { 3 } else { rest }
}

/// Width of the braille bar in a core line.
pub fn braille_bar_width(width: usize, label_len: usize, pct_len: usize) -> (r: usize)
    requires
        label_len + pct_len + 2 <= usize::MAX,
    ensures
        r == bar_cells(width as nat, label_len as nat, pct_len as nat),
{
    let used = label_len + pct_len + 2;
    let rest = if width >= used {
        width - used
    } else {
        0
    };
    if rest < 3 {
        3
    } else {
        rest
    }
}

/// The braille glyph for a bar cell filled to `level` eighths (levels past
/// eight draw a full cell).
pub open spec fn bar_glyph(level: u8) -> char {
    if level == 0 {
        '\u{2800}'
    } else if level == 1 {
        '\u{2880}'
    } else if level == 2 {
        '\u{28a0}'
    } else if level == 3 {
        '\u{28b0}'
    } else if level == 4 {
        '\u{28b8}'
    } else if level == 5 {
        '\u{28f8}'
    } else if level == 6 {
        '\u{28fe}'
    } else {
        '\u{28ff}'
    }
}

/// The dots of the bar glyph for `level`: its offset in the braille block.
pub open spec fn bar_dots(level: u8) -> u8 {
    if level == 0 {
        0x00
    } else if level == 1 {
        0x80
    } else if level == 2 {
        0xa0
    } else if level == 3 {
        0xb0
    } else if level == 4 {
        0xb8
    } else if level == 5 {
        0xf8
    } else if level == 6 {
        0xfe
    } else {
        0xff
    }
}

/// A bar cell only gains dots as its level grows: every dot of the glyph
/// for `low` is also set in the glyph for `high`.
pub proof fn lemma_bar_dots_grow(low: u8, high: u8)
    by (bit_vector)
    requires
        low <= high,
    ensures
        bar_dots(low) & !bar_dots(high) == 0,
{
}

/// The glyph of one cell of a core bar filled to `level` eighths.
pub fn quantized_braille(level: u8) -> (c: char)
    ensures
        c == bar_glyph(level),
        c as u32 == 0x2800 + bar_dots(level),
{
    match level {
        0 => '\u{2800}',
        1 => '\u{2880}',
        2 => '\u{28a0}',
        3 => '\u{28b0}',
        4 => '\u{28b8}',
        5 => '\u{28f8}',
        6 => '\u{28fe}',
        _ => '\u{28ff}',
    }
}

} // verus!
