use vstd::prelude::*;

verus! {

/// The cells of a table: rows of cells, each cell holding an element or nothing. Rows may have
/// different lengths.
pub struct TableCells<T> {
    pub cells: Vec<Vec<Option<T>>>,
}

impl<T> View for TableCells<T> {
    type V = Seq<Seq<Option<T>>>;

    open spec fn view(&self) -> Seq<Seq<Option<T>>> {
        self.cells@.map_values(|r: Vec<Option<T>>| r@)
    }
}

/// The rows `c` with empty rows added until row `row` exists.
pub open spec fn with_row<T>(c: Seq<Seq<Option<T>>>, row: int) -> Seq<Seq<Option<T>>> {
    if row < c.len() {
        c
    } else {
        c + Seq::new((row + 1 - c.len()) as nat, |i: int| Seq::<Option<T>>::empty())
    }
}

/// The row `r` with empty cells added until it has `n` cells.
pub open spec fn with_len<T>(r: Seq<Option<T>>, n: int) -> Seq<Option<T>> {
    if n <= r.len() {
        r
    } else {
        r + Seq::new((n - r.len()) as nat, |i: int| None::<T>)
    }
}

/// The cells with `el` set at (`row`, `col`), the table grown to hold it.
pub open spec fn set_element_spec<T>(c: Seq<Seq<Option<T>>>, row: int, col: int, el: T) -> Seq<Seq<Option<T>>> {
    let g = with_row(c, row);
    g.update(row, with_len(g[row], col + 1).update(col, Some(el)))
}

/// The cells with row `row` starting with `data`, the table grown to hold it (the cells of the
/// row after `data` stay).
pub open spec fn set_row_spec<T>(c: Seq<Seq<Option<T>>>, row: int, data: Seq<T>) -> Seq<Seq<Option<T>>> {
    let g = with_row(c, row);
    let r = with_len(g[row], data.len() as int);
    g.update(row, Seq::new(r.len(), |i: int| if i < data.len() { Some(data[i]) } else { r[i] }))
}

/// The cells with column `col` starting with `data` (row `i` holding `data[i]`), the table
/// grown to hold it.
pub open spec fn set_column_spec<T>(c: Seq<Seq<Option<T>>>, col: int, data: Seq<T>) -> Seq<Seq<Option<T>>> {
    let g = if data.len() == 0 { c } else { with_row(c, data.len() - 1) };
    Seq::new(g.len(), |i: int| if i < data.len() { with_len(g[i], col + 1).update(col, Some(data[i])) } else { g[i] })
}

/// The cells with the rows of `data` set from row `first` on, one after another.
pub open spec fn set_rows_spec<T>(c: Seq<Seq<Option<T>>>, first: int, data: Seq<Vec<T>>) -> Seq<Seq<Option<T>>>
    decreases data.len(),
{
    if data.len() == 0 {
        c
    } else {
        set_row_spec(set_rows_spec(c, first, data.drop_last()), first + data.len() - 1, data.last()@)
    }
}

impl<T> TableCells<T> {
    /// A table without cells.
    pub fn new() -> (t: TableCells<T>)
        ensures
            t@.len() == 0,
    {
        TableCells { cells: Vec::new() }
    }

    /// Adds empty rows until row `row` exists.
    fn grow_rows(&mut self, row: usize)
        ensures
            final(self)@ == with_row(old(self)@, row as int),
    {
        let ghost c0 = self@;
        while self.cells.len() <= row
            invariant
                with_row(c0, row as int) == with_row(self@, row as int),
                self@.len() >= c0.len(),
            decreases row + 1 - self.cells@.len(),
        {
            let ghost c = self@;
            self.cells.push(Vec::new());
            proof {
                assert(self@ =~= c.push(Seq::empty()));
                assert(with_row(c, row as int) =~= with_row(c.push(Seq::empty()), row as int));
            }
        }
        assert(with_row(self@, row as int) == self@);
    }

    /// Adds empty cells to row `row` until it has `n` cells.
    fn grow_row(&mut self, row: usize, n: usize)
        requires
            row < old(self)@.len(),
        ensures
            final(self)@ == old(self)@.update(row as int, with_len(old(self)@[row as int], n as int)),
    {
        let mut r: Vec<Option<T>> = Vec::new();
        std::mem::swap(&mut r, &mut self.cells[row]);
        let ghost r0 = r@;
        while r.len() < n
            invariant
                with_len(r0, n as int) == with_len(r@, n as int),
                r@.len() >= r0.len(),
            decreases n - r@.len(),
        {
            let ghost rr = r@;
            r.push(None);
            assert(with_len(rr, n as int) =~= with_len(rr.push(None), n as int));
        }
        assert(with_len(r@, n as int) == r@);
        std::mem::swap(&mut r, &mut self.cells[row]);
        proof {
            assert(self@ =~= old(self)@.update(row as int, with_len(r0, n as int)));
        }
    }

    /// Sets the element at (`row`, `col`), growing the table to hold it.
    pub fn set_element(&mut self, row: usize, col: usize, element: T)
        requires
            col < usize::MAX,
        ensures
            final(self)@ == set_element_spec(old(self)@, row as int, col as int, element),
    {
        self.grow_rows(row);
        assert(self.cells@.len() == self@.len());
        self.grow_row(row, col + 1);
        let ghost before = self@;
        assert(self.cells@.len() == self@.len());
        assert(self.cells@[row as int]@ == self@[row as int]);
        let mut r: Vec<Option<T>> = Vec::new();
        std::mem::swap(&mut r, &mut self.cells[row]);
        r.set(col, Some(element));
        std::mem::swap(&mut r, &mut self.cells[row]);
        proof {
            assert(self@ =~= before.update(row as int, before[row as int].update(col as int, Some(element))));
        }
    }

    /// Sets the first cells of row `row` to the elements of `data`, growing the table to hold
    /// them.
    pub fn set_row(&mut self, row: usize, data: Vec<T>)
        ensures
            final(self)@ == set_row_spec(old(self)@, row as int, data@),
    {
        self.grow_rows(row);
        assert(self.cells@.len() == self@.len());
        let n = data.len();
        self.grow_row(row, n);
        let ghost g = self@;
        let ghost d = data@;
        let ghost r0 = g[row as int];
        assert(self.cells@.len() == self@.len());
        assert(self.cells@[row as int]@ == r0);
        let mut r: Vec<Option<T>> = Vec::new();
        std::mem::swap(&mut r, &mut self.cells[row]);
        let mut col: usize = 0;
        for el in it: data
            invariant
                it.seq() == d,
                d.len() == n,
                col == it.index(),
                r@.len() == r0.len(),
                r0.len() >= d.len(),
                forall|i: int| 0 <= i < r@.len() ==> #[trigger] r@[i] == (if i < col { Some(d[i]) } else { r0[i] }),
        {
            r.set(col, Some(el));
            col = col + 1;
        }
        std::mem::swap(&mut r, &mut self.cells[row]);
        proof {
            let want = Seq::new(r0.len(), |i: int| if i < d.len() { Some(d[i]) } else { r0[i] });
            assert(self.cells@[row as int]@ =~= want);
            assert(self@ =~= g.update(row as int, want));
        }
    }

    /// Sets the cells of column `col` from the top to the elements of `data`, growing the table
    /// to hold them.
    pub fn set_column(&mut self, col: usize, data: Vec<T>)
        requires
            col < usize::MAX,
        ensures
            final(self)@ == set_column_spec(old(self)@, col as int, data@),
    {
        let ghost c0 = self@;
        let ghost d = data@;
        let n = data.len();
        let mut row: usize = 0;
        for el in it: data
            invariant
                it.seq() == d,
                d.len() == n,
                row == it.index(),
                col < usize::MAX,
                self@.len() == (if row == 0 { c0 } else { with_row(c0, row - 1) }).len(),
                forall|i: int|
                    0 <= i < self@.len() ==> #[trigger] self@[i] == (if i < row {
                        with_len((if row == 0 { c0 } else { with_row(c0, row - 1) })[i], col + 1).update(col as int, Some(d[i]))
                    } else {
                        (if row == 0 { c0 } else { with_row(c0, row - 1) })[i]
                    }),
        {
            let ghost g_prev = if row == 0 { c0 } else { with_row(c0, row - 1) };
            self.set_element(row, col, el);
            proof {
                let g_now = with_row(c0, row as int);
                assert forall|i: int| 0 <= i < self@.len() implies #[trigger] self@[i] == (if i < row + 1 {
                    with_len(g_now[i], col + 1).update(col as int, Some(d[i]))
                } else {
                    g_now[i]
                }) by {
                    if i < g_prev.len() {
                        assert(g_now[i] == g_prev[i]);
                    }
                }
            }
            row = row + 1;
        }
        proof {
            let g = if d.len() == 0 { c0 } else { with_row(c0, d.len() - 1) };
            assert(self@ =~= set_column_spec(c0, col as int, d));
        }
    }

    /// Sets the rows of `data` from row `first` on, one after another (the header row is row
    /// 0, so data usually starts at row 1).
    pub fn set_rows(&mut self, first: usize, data: Vec<Vec<T>>)
        requires
            first + data@.len() <= usize::MAX,
        ensures
            final(self)@ == set_rows_spec(old(self)@, first as int, data@),
    {
        let ghost c0 = self@;
        let ghost d = data@;
        let mut i: usize = 0;
        for row_data in it: data
            invariant
                it.seq() == d,
                i == it.index(),
                first + d.len() <= usize::MAX,
                self@ == set_rows_spec(c0, first as int, d.take(i as int)),
        {
            proof {
                let t = d.take(i + 1);
                assert(t.drop_last() =~= d.take(i as int));
                assert(t.last() == row_data);
            }
            self.set_row(first + i, row_data);
            i = i + 1;
        }
        proof {
            assert(d.take(d.len() as int) =~= d);
        }
    }

    /// The number of columns: the length of the longest row.
    pub fn column_count(&self) -> (n: usize)
        ensures
            forall|r: int| 0 <= r < self@.len() ==> #[trigger] self@[r].len() <= n,
            n == 0 || exists|r: int| 0 <= r < self@.len() && #[trigger] self@[r].len() == n,
    {
        let mut n: usize = 0;
        let mut i: usize = 0;
        while i < self.cells.len()
            invariant
                i <= self@.len(),
                forall|r: int| 0 <= r < i ==> #[trigger] self@[r].len() <= n,
                n == 0 || exists|r: int| 0 <= r < i && #[trigger] self@[r].len() == n,
            decreases self@.len() - i,
        {
            assert(self.cells@[i as int]@ == self@[i as int]);
            if self.cells[i].len() > n {
                n = self.cells[i].len();
            }
            i = i + 1;
        }
        n
    }
}

// ------------------------------------------------------------------------------------------
// Sizes of rows and columns

/// How the widths of columns (or heights of rows) are chosen.
pub enum TableDimension {
    /// the same number of cells for each
    Fixed(usize),
    /// a size for each, evaluated against the table's size; where there are more columns than
    /// sizes, the last size goes on
    Manual(Vec<i32>),
    /// the largest size of the elements in each
    Auto,
}

/// The size given by `sizes` to column `i`: its own, else the last one, at least 1; 1 where
/// there is none.
pub open spec fn manual_size(sizes: Seq<i32>, i: int) -> usize {
    let s = if i < sizes.len() {
        Some(sizes[i])
    } else if sizes.len() > 0 {
        Some(sizes.last())
    } else {
        None
    };
    match s {
        Some(v) => if v < 1 {
            1
        } else {
            v as usize
        },
        None => 1,
    }
}

/// The size of a cell whose element has size `s` (`None`: an empty cell).
pub open spec fn cell_size(s: Option<usize>) -> usize {
    match s {
        Some(v) => v,
        None => 1,
    }
}

/// The largest cell size in column `col` of the measured cells `m` (rows without the column
/// left out), `None` where no row has it.
pub open spec fn column_max(m: Seq<Seq<Option<usize>>>, col: int) -> Option<usize>
    decreases m.len(),
{
    if m.len() == 0 {
        None
    } else {
        let p = column_max(m.drop_last(), col);
        if 0 <= col < m.last().len() {
            let v = cell_size(m.last()[col]);
            match p {
                Some(b) => Some(if v > b { v } else { b }),
                None => Some(v),
            }
        } else {
            p
        }
    }
}

/// The largest of the cell sizes of a row, 1 for an empty row.
pub open spec fn max_in_row(row: Seq<Option<usize>>) -> usize
    decreases row.len(),
{
    if row.len() == 0 {
        1
    } else if row.len() == 1 {
        cell_size(row[0])
    } else {
        let rest = max_in_row(row.drop_last());
        let v = cell_size(row.last());
        if v > rest {
            v
        } else {
            rest
        }
    }
}

/// The widest cell of column `col`, given the width of the element of each cell (`None` for an
/// empty cell, counted as 1); 1 where no row reaches the column.
pub fn max_width_for_column(widths: &Vec<Vec<Option<usize>>>, col: usize) -> (w: usize)
    ensures
        w == match column_max(widths@.map_values(|r: Vec<Option<usize>>| r@), col as int) {
            Some(v) => v,
            None => 1,
        },
{
    let ghost m = widths@.map_values(|r: Vec<Option<usize>>| r@);
    let mut best: Option<usize> = None;
    let mut i: usize = 0;
    while i < widths.len()
        invariant
            m == widths@.map_values(|r: Vec<Option<usize>>| r@),
            i <= m.len(),
            best == column_max(m.take(i as int), col as int),
        decreases m.len() - i,
    {
        proof {
            let t = m.take(i + 1);
            assert(t.drop_last() =~= m.take(i as int));
            assert(t.last() == m[i as int]);
            assert(m[i as int] == widths@[i as int]@);
        }
        if col < widths[i].len() {
            let v = match widths[i][col] {
                Some(v) => v,
                None => 1,
            };
            best = match best {
                Some(b) => Some(if v > b { v } else { b }),
                None => Some(v),
            };
        }
        i = i + 1;
    }
    proof {
        assert(m.take(m.len() as int) =~= m);
    }
    match best {
        Some(v) => v,
        None => 1,
    }
}

/// The tallest cell of row `row`, given the height of the element of each cell (`None` for an
/// empty cell, counted as 1); 1 where there is no such row or it has no cells.
pub fn max_height_for_row(heights: &Vec<Vec<Option<usize>>>, row: usize) -> (h: usize)
    ensures
        h == (if row < heights@.len() {
            max_in_row(heights@[row as int]@)
        } else {
            1
        }),
{
    if row >= heights.len() {
        return 1;
    }
    let r = &heights[row];
    if r.len() == 0 {
        return 1;
    }
    let mut best: usize = match r[0] {
        Some(v) => v,
        None => 1,
    };
    let mut i: usize = 1;
    while i < r.len()
        invariant
            1 <= i <= r@.len(),
            best == max_in_row(r@.take(i as int)),
        decreases r@.len() - i,
    {
        proof {
            let t = r@.take(i + 1);
            assert(t.drop_last() =~= r@.take(i as int));
        }
        let v = match r[i] {
            Some(v) => v,
            None => 1,
        };
        if v > best {
            best = v;
        }
        i = i + 1;
    }
    proof {
        assert(r@.take(r@.len() as int) =~= r@);
        assert(r@.take(1).len() == 1);
    }
    best
}

/// The sizes of `count` columns (or rows) under `dim`: the fixed size for each, the manual size
/// of each, or the measured largest (`measured`, one per column, for `Auto`).
pub open spec fn dimension_sizes(dim: TableDimension, count: nat, measured: Seq<usize>) -> Seq<usize> {
    match dim {
        TableDimension::Fixed(s) => Seq::new(count, |i: int| s),
        TableDimension::Manual(sizes) => Seq::new(count, |i: int| manual_size(sizes@, i)),
        TableDimension::Auto => measured,
    }
}

/// The sizes of `count` columns (or rows) under `dim` (see `dimension_sizes`); `measured`
/// holds the largest element size of each, used for `Auto`.
pub fn sizes_for(dim: &TableDimension, count: usize, measured: &Vec<usize>) -> (r: Vec<usize>)
    requires
        measured@.len() == count,
    ensures
        r@ == dimension_sizes(*dim, count as nat, measured@),
{
    match dim {
        TableDimension::Fixed(s) => {
            let mut out: Vec<usize> = Vec::new();
            let mut i: usize = 0;
            while i < count
                invariant
                    i <= count,
                    out@ == Seq::new(i as nat, |k: int| *s),
                decreases count - i,
            {
                out.push(*s);
                assert(out@ =~= Seq::new((i + 1) as nat, |k: int| *s));
                i = i + 1;
            }
            out
        },
        TableDimension::Manual(sizes) => {
            let mut out: Vec<usize> = Vec::new();
            let mut i: usize = 0;
            while i < count
                invariant
                    i <= count,
                    out@ == Seq::new(i as nat, |k: int| manual_size(sizes@, k)),
                decreases count - i,
            {
                let s = if i < sizes.len() {
                    Some(sizes[i])
                } else if sizes.len() > 0 {
                    Some(sizes[sizes.len() - 1])
                } else {
                    None
                };
                let v: usize = match s {
                    Some(v) => if v < 1 {
                        1
                    } else {
                        v as usize
                    },
                    None => 1,
                };
                out.push(v);
                assert(out@ =~= Seq::new((i + 1) as nat, |k: int| manual_size(sizes@, k)));
                i = i + 1;
            }
            out
        },
        TableDimension::Auto => {
            let mut out: Vec<usize> = Vec::new();
            let mut i: usize = 0;
            while i < measured.len()
                invariant
                    i <= measured@.len(),
                    out@ == measured@.take(i as int),
                decreases measured@.len() - i,
            {
                out.push(measured[i]);
                assert(out@ =~= measured@.take(i + 1));
                i = i + 1;
            }
            assert(measured@.take(measured@.len() as int) =~= measured@);
            out
        },
    }
}

// ------------------------------------------------------------------------------------------
// Where the cells go

/// Which lines a table draws (each takes one row or column of cells).
#[derive(Clone, Copy, PartialEq, Eq, Debug, Structural)]
pub struct TableLines {
    pub border: bool,
    pub header_line: bool,
    pub vertical_lines: bool,
    pub horizontal_lines: bool,
}

/// The sum of the first `n` sizes.
pub open spec fn sum_first(sizes: Seq<usize>, n: int) -> int
    decreases n,
{
    if n <= 0 {
        0
    } else {
        sum_first(sizes, n - 1) + sizes[n - 1]
    }
}

/// Where column `col` starts: after the border, the columns before it, and a vertical line
/// after each of them where there are such lines.
pub open spec fn column_start(widths: Seq<usize>, lines: TableLines, col: int) -> int {
    (if lines.border { 1int } else { 0int }) + sum_first(widths, col) + (if lines.vertical_lines { col } else { 0int })
}

/// Where row `row` starts: after the border, the rows before it, the header line below the first
/// row, and a line below each later row before it where there are such lines.
pub open spec fn row_start(heights: Seq<usize>, lines: TableLines, row: int) -> int {
    (if lines.border { 1int } else { 0int }) + sum_first(heights, row) + (if row >= 1 && lines.header_line { 1int } else { 0int })
        + (if row >= 2 && lines.horizontal_lines { row - 1 } else { 0int })
}

proof fn lemma_sum_first_mono(sizes: Seq<usize>, a: int, b: int)
    requires
        0 <= a <= b <= sizes.len(),
    ensures
        sum_first(sizes, a) <= sum_first(sizes, b),
        sum_first(sizes, b) <= b * (usize::MAX as int),
    decreases b,
{
    if b > 0 {
        if a < b {
            lemma_sum_first_mono(sizes, a, b - 1);
        }
        lemma_sum_first_mono(sizes, 0, b - 1);
    }
}

/// Where each cell of a table goes: for row `r` and column `c`, its start and end column and
/// its start and end row (see `column_start` and `row_start`), for every row and every column.
pub fn cell_positions(widths: &Vec<usize>, heights: &Vec<usize>, lines: TableLines) -> (r: Vec<
    Vec<(usize, usize, usize, usize)>,
>)
    requires
        column_start(widths@, lines, widths@.len() as int) <= usize::MAX,
        row_start(heights@, lines, heights@.len() as int) + heights@.len() <= usize::MAX,
    ensures
        r@.len() == heights@.len(),
        forall|row: int| 0 <= row < heights@.len() ==> (#[trigger] r@[row])@.len() == widths@.len(),
        forall|row: int, col: int|
            0 <= row < heights@.len() && 0 <= col < widths@.len() ==> (#[trigger] r@[row]@[col]) == (
                column_start(widths@, lines, col) as usize,
                (column_start(widths@, lines, col) + widths@[col]) as usize,
                row_start(heights@, lines, row) as usize,
                (row_start(heights@, lines, row) + heights@[row]) as usize,
            ),
{
    let b: usize = if lines.border { 1 } else { 0 };
    let mut out: Vec<Vec<(usize, usize, usize, usize)>> = Vec::new();
    let mut y: usize = b;
    let mut row: usize = 0;
    while row < heights.len()
        invariant
            b == (if lines.border { 1usize } else { 0usize }),
            column_start(widths@, lines, widths@.len() as int) <= usize::MAX,
            row_start(heights@, lines, heights@.len() as int) + heights@.len() <= usize::MAX,
            row <= heights@.len(),
            y == row_start(heights@, lines, row as int),
            out@.len() == row,
            forall|rr: int| 0 <= rr < row ==> (#[trigger] out@[rr])@.len() == widths@.len(),
            forall|rr: int, col: int|
                0 <= rr < row && 0 <= col < widths@.len() ==> (#[trigger] out@[rr]@[col]) == (
                    column_start(widths@, lines, col) as usize,
                    (column_start(widths@, lines, col) + widths@[col]) as usize,
                    row_start(heights@, lines, rr) as usize,
                    (row_start(heights@, lines, rr) + heights@[rr]) as usize,
                ),
        decreases heights@.len() - row,
    {
        proof {
            lemma_sum_first_mono(heights@, row as int + 1, heights@.len() as int);
        }
        let height = heights[row];
        let mut line: Vec<(usize, usize, usize, usize)> = Vec::new();
        let mut x: usize = b;
        let mut col: usize = 0;
        while col < widths.len()
            invariant
                b == (if lines.border { 1usize } else { 0usize }),
                column_start(widths@, lines, widths@.len() as int) <= usize::MAX,
                row < heights@.len(),
                y == row_start(heights@, lines, row as int),
                y + height <= usize::MAX,
                height == heights@[row as int],
                col <= widths@.len(),
                x == column_start(widths@, lines, col as int),
                line@.len() == col,
                forall|c: int|
                    0 <= c < col ==> (#[trigger] line@[c]) == (
                        column_start(widths@, lines, c) as usize,
                        (column_start(widths@, lines, c) + widths@[c]) as usize,
                        row_start(heights@, lines, row as int) as usize,
                        (row_start(heights@, lines, row as int) + heights@[row as int]) as usize,
                    ),
            decreases widths@.len() - col,
        {
            proof {
                lemma_sum_first_mono(widths@, col as int + 1, widths@.len() as int);
            }
            let width = widths[col];
            line.push((x, x + width, y, y + height));
            x = x + width;
            if lines.vertical_lines {
                x = x + 1;
            }
            col = col + 1;
        }
        out.push(line);
        y = y + height;
        if row == 0 {
            if lines.header_line {
                y = y + 1;
            }
        } else if lines.horizontal_lines {
            y = y + 1;
        }
        row = row + 1;
    }
    out
}

/// Neighbouring cells do not overlap: a column ends no later than the next one starts (one
/// column earlier where vertical lines are drawn between them), and a row ends no later than the
/// next one starts.
pub proof fn lemma_cells_do_not_overlap(widths: Seq<usize>, heights: Seq<usize>, lines: TableLines, col: int, row: int)
    requires
        0 <= col && col + 1 < widths.len(),
        0 <= row && row + 1 < heights.len(),
    ensures
        column_start(widths, lines, col) + widths[col] + (if lines.vertical_lines { 1int } else { 0int })
            == column_start(widths, lines, col + 1),
        row_start(heights, lines, row) + heights[row] <= row_start(heights, lines, row + 1),
{
}

// ------------------------------------------------------------------------------------------
// Where the lines go

/// The kind of a line of a table.
#[derive(Clone, Copy, PartialEq, Eq, Debug, Structural)]
pub enum LineKind {
    /// the line below the first row
    Header,
    /// a line between two later rows
    Horizontal,
    /// a line between two columns
    Vertical,
    /// the top or bottom side of the border
    BorderHorizontal,
    /// the left or right side of the border
    BorderVertical,
}

/// A side of a box-drawing character.
#[derive(Clone, Copy, PartialEq, Eq, Debug, Structural)]
pub enum TrimSide {
    Up,
    Down,
    Left,
    Right,
}

/// A step of drawing the lines of a table onto its content.
#[derive(Clone, Copy, PartialEq, Eq, Debug, Structural)]
pub enum LineOp {
    /// put the line's character at (`x`, `y`)
    Put { x: usize, y: usize, kind: LineKind },
    /// put the line's character at (`x`, `y`), joined with a box-drawing character already
    /// there
    Overlay { x: usize, y: usize, kind: LineKind },
    /// take the side `side` off the box-drawing character at (`x`, `y`)
    Trim { x: usize, y: usize, side: TrimSide },
}

/// A row of `w` steps at row `y`, from the left.
pub open spec fn row_ops(y: int, w: nat, kind: LineKind, overlay: bool) -> Seq<LineOp> {
    Seq::new(
        w,
        |x: int|
            if overlay {
                LineOp::Overlay { x: x as usize, y: y as usize, kind }
            } else {
                LineOp::Put { x: x as usize, y: y as usize, kind }
            },
    )
}

/// A column of `h` overlays at column `x`, from the top.
pub open spec fn col_ops(x: int, h: nat, kind: LineKind) -> Seq<LineOp> {
    Seq::new(h, |y: int| LineOp::Overlay { x: x as usize, y: y as usize, kind })
}

/// The rows of a table below which its horizontal lines are counted from: after the border
/// and, where there is a header line, the first row and that line.
pub open spec fn after_header(heights: Seq<usize>, lines: TableLines) -> int {
    (if lines.border { 1int } else { 0int }) + (if lines.header_line {
        (if heights.len() > 0 { heights[0] as int } else { 0int }) + 1
    } else {
        0int
    })
}

/// The row of the horizontal line below row `i` (from the second row on): the rows from the
/// second to `i` and a line after each but the last, counted from `after_header`.
pub open spec fn h_line_y(heights: Seq<usize>, lines: TableLines, i: int) -> int {
    after_header(heights, lines) + (sum_first(heights, i + 1) - heights[0]) + (i - 1)
}

/// The horizontal lines below the rows `1..n` (not below the last row).
pub open spec fn h_ops(heights: Seq<usize>, lines: TableLines, w: nat, n: int) -> Seq<LineOp>
    decreases n,
{
    if n <= 1 {
        Seq::empty()
    } else {
        h_ops(heights, lines, w, n - 1) + (if n - 1 <= heights.len() - 2 {
            row_ops(h_line_y(heights, lines, n - 1), w, LineKind::Horizontal, false)
        } else {
            Seq::empty()
        })
    }
}

/// The column of the vertical line after column `i`: the border, the columns up to `i`, and a
/// line after each column before `i` but the one at the index of the last row.
pub open spec fn v_line_x(widths: Seq<usize>, heights: Seq<usize>, lines: TableLines, i: int) -> int {
    (if lines.border { 1int } else { 0int }) + sum_first(widths, i + 1) + i - (if heights.len() - 1 < i {
        1int
    } else {
        0int
    })
}

/// The vertical lines after the columns `0..n`, but after the column at the index of the last
/// row.
pub open spec fn v_ops(widths: Seq<usize>, heights: Seq<usize>, lines: TableLines, h: nat, n: int) -> Seq<LineOp>
    decreases n,
{
    if n <= 0 {
        Seq::empty()
    } else {
        v_ops(widths, heights, lines, h, n - 1) + (if n - 1 != heights.len() - 1 {
            col_ops(v_line_x(widths, heights, lines, n - 1), h, LineKind::Vertical)
        } else {
            Seq::empty()
        })
    }
}

/// The border of a table `w` by `h`: the top and bottom rows, then the left and right
/// columns, each joined with the lines already there, then the outer side taken off each
/// character of the top, bottom, left and right edges.
pub open spec fn border_ops(w: nat, h: nat) -> Seq<LineOp> {
    row_ops(0, w, LineKind::BorderHorizontal, true) + row_ops(h - 1, w, LineKind::BorderHorizontal, true) + col_ops(
        0,
        h,
        LineKind::BorderVertical,
    ) + col_ops(w - 1, h, LineKind::BorderVertical) + Seq::new(
        w,
        |x: int| LineOp::Trim { x: x as usize, y: 0, side: TrimSide::Up },
    ) + Seq::new(w, |x: int| LineOp::Trim { x: x as usize, y: (h - 1) as usize, side: TrimSide::Down })
        + Seq::new(h, |y: int| LineOp::Trim { x: 0, y: y as usize, side: TrimSide::Left }) + Seq::new(
        h,
        |y: int| LineOp::Trim { x: (w - 1) as usize, y: y as usize, side: TrimSide::Right },
    )
}

/// The steps that draw the lines of a table `w` by `h` with columns `widths` and rows
/// `heights`: the header line below the first row, the horizontal lines below the later rows
/// but the last, the vertical lines after the columns but the one at the index of the last row,
/// and the border, as `lines` asks for each.
pub open spec fn line_plan(widths: Seq<usize>, heights: Seq<usize>, lines: TableLines, w: nat, h: nat) -> Seq<LineOp> {
    let b = if lines.border { 1int } else { 0int };
    let first = if heights.len() > 0 { heights[0] as int } else { 0int };
    (if lines.header_line {
        row_ops(b + first, w, LineKind::Header, false)
    } else {
        Seq::empty()
    }) + (if lines.horizontal_lines {
        h_ops(heights, lines, w, heights.len() - 1)
    } else {
        Seq::empty()
    }) + (if lines.vertical_lines {
        v_ops(widths, heights, lines, h, widths.len() as int)
    } else {
        Seq::empty()
    }) + (if lines.border {
        border_ops(w, h)
    } else {
        Seq::empty()
    })
}

/// Appends a row of steps (see `row_ops`).
fn push_row_ops(out: &mut Vec<LineOp>, y: usize, w: usize, kind: LineKind, overlay: bool)
    ensures
        final(out)@ == old(out)@ + row_ops(y as int, w as nat, kind, overlay),
{
    let mut x: usize = 0;
    while x < w
        invariant
            x <= w,
            out@ == old(out)@ + row_ops(y as int, x as nat, kind, overlay),
        decreases w - x,
    {
        if overlay {
            out.push(LineOp::Overlay { x, y, kind });
        } else {
            out.push(LineOp::Put { x, y, kind });
        }
        assert(out@ =~= old(out)@ + row_ops(y as int, (x + 1) as nat, kind, overlay));
        x = x + 1;
    }
}

/// Appends a column of overlays (see `col_ops`).
fn push_col_ops(out: &mut Vec<LineOp>, x: usize, h: usize, kind: LineKind)
    ensures
        final(out)@ == old(out)@ + col_ops(x as int, h as nat, kind),
{
    let mut y: usize = 0;
    while y < h
        invariant
            y <= h,
            out@ == old(out)@ + col_ops(x as int, y as nat, kind),
        decreases h - y,
    {
        out.push(LineOp::Overlay { x, y, kind });
        assert(out@ =~= old(out)@ + col_ops(x as int, (y + 1) as nat, kind));
        y = y + 1;
    }
}

/// Appends a run of trims along a row (`along_x`) or a column, at the fixed row or column
/// `at`.
fn push_trims(out: &mut Vec<LineOp>, along_x: bool, at: usize, n: usize, side: TrimSide)
    ensures
        final(out)@ == old(out)@ + Seq::new(
            n as nat,
            |k: int|
                if along_x {
                    LineOp::Trim { x: k as usize, y: at, side }
                } else {
                    LineOp::Trim { x: at, y: k as usize, side }
                },
        ),
{
    let mut k: usize = 0;
    while k < n
        invariant
            k <= n,
            out@ == old(out)@ + Seq::new(
                k as nat,
                |j: int|
                    if along_x {
                        LineOp::Trim { x: j as usize, y: at, side }
                    } else {
                        LineOp::Trim { x: at, y: j as usize, side }
                    },
            ),
        decreases n - k,
    {
        if along_x {
            out.push(LineOp::Trim { x: k, y: at, side });
        } else {
            out.push(LineOp::Trim { x: at, y: k, side });
        }
        assert(out@ =~= old(out)@ + Seq::new(
            (k + 1) as nat,
            |j: int|
                if along_x {
                    LineOp::Trim { x: j as usize, y: at, side }
                } else {
                    LineOp::Trim { x: at, y: j as usize, side }
                },
        ));
        k = k + 1;
    }
}

/// Appends the horizontal lines below the rows but the first and the last (see `h_ops`),
/// starting from row `y`, `after_header`.
fn push_horizontal_ops(out: &mut Vec<LineOp>, heights: &Vec<usize>, lines: TableLines, ww: usize, y0: usize)
    requires
        y0 == after_header(heights@, lines),
        after_header(heights@, lines) + sum_first(heights@, heights@.len() as int) + heights@.len() <= usize::MAX,
    ensures
        final(out)@ == old(out)@ + h_ops(heights@, lines, ww as nat, heights@.len() - 1),
{
    let n = heights.len();
    let mut y = y0;
    proof {
        lemma_sum_first_mono(heights@, 0, heights@.len() as int);
        if n > 0 {
            assert(sum_first(heights@, 1) == heights@[0]);
        }
    }
    let mut i: usize = 1;
    while i + 1 < n
        invariant
            n == heights@.len(),
            1 <= i,
            n >= 2 ==> i <= n - 1,
            n <= 1 ==> i == 1,
            after_header(heights@, lines) + sum_first(heights@, heights@.len() as int) + heights@.len() <= usize::MAX,
            y == after_header(heights@, lines) + sum_first(heights@, i as int) - heights@[0] + (i - 1),
            out@ == old(out)@ + h_ops(heights@, lines, ww as nat, i as int),
        decreases n - i,
    {
        proof {
            lemma_sum_first_mono(heights@, i + 1, heights@.len() as int);
        }
        y = y + heights[i];
        assert(y == h_line_y(heights@, lines, i as int));
        push_row_ops(out, y, ww, LineKind::Horizontal, false);
        y = y + 1;
        i = i + 1;
    }
    proof {
        if n >= 2 {
            assert(i == n - 1);
        } else {
            assert(h_ops(heights@, lines, ww as nat, i as int) =~= Seq::<LineOp>::empty());
            assert(h_ops(heights@, lines, ww as nat, n - 1) =~= Seq::<LineOp>::empty());
        }
    }
}

/// Appends the vertical lines after the columns but the one at the index of the last row (see
/// `v_ops`).
fn push_vertical_ops(out: &mut Vec<LineOp>, widths: &Vec<usize>, heights: &Vec<usize>, lines: TableLines, hh: usize)
    requires
        1 + sum_first(widths@, widths@.len() as int) + widths@.len() <= usize::MAX,
        widths@.len() > 0 ==> heights@.len() > 0,
    ensures
        final(out)@ == old(out)@ + v_ops(widths@, heights@, lines, hh as nat, widths@.len() as int),
{
    let b: usize = if lines.border { 1 } else { 0 };
    let mut x: usize = b;
    let mut i: usize = 0;
    while i < widths.len()
        invariant
            i <= widths@.len(),
            widths@.len() > 0 ==> heights@.len() > 0,
            1 + sum_first(widths@, widths@.len() as int) + widths@.len() <= usize::MAX,
            b == (if lines.border { 1usize } else { 0usize }),
            heights@.len() > 0 ==> x == b + sum_first(widths@, i as int) + i - (if heights@.len() - 1 < i {
                1int
            } else {
                0int
            }),
            out@ == old(out)@ + v_ops(widths@, heights@, lines, hh as nat, i as int),
        decreases widths@.len() - i,
    {
        proof {
            lemma_sum_first_mono(widths@, i + 1, widths@.len() as int);
        }
        x = x + widths[i];
        if i == heights.len() - 1 {
            i = i + 1;
        } else {
            assert(x == v_line_x(widths@, heights@, lines, i as int));
            push_col_ops(out, x, hh, LineKind::Vertical);
            x = x + 1;
            i = i + 1;
        }
    }
}

/// Appends the border of a table `ww` by `hh` (see `border_ops`).
fn push_border_ops(out: &mut Vec<LineOp>, ww: usize, hh: usize)
    requires
        ww > 0 && hh > 0,
    ensures
        final(out)@ == old(out)@ + border_ops(ww as nat, hh as nat),
{
    push_row_ops(out, 0, ww, LineKind::BorderHorizontal, true);
    push_row_ops(out, hh - 1, ww, LineKind::BorderHorizontal, true);
    push_col_ops(out, 0, hh, LineKind::BorderVertical);
    push_col_ops(out, ww - 1, hh, LineKind::BorderVertical);
    push_trims(out, true, 0, ww, TrimSide::Up);
    push_trims(out, true, hh - 1, ww, TrimSide::Down);
    push_trims(out, false, 0, hh, TrimSide::Left);
    push_trims(out, false, ww - 1, hh, TrimSide::Right);
    assert(final(out)@ =~= old(out)@ + border_ops(ww as nat, hh as nat));
}

/// The steps that draw the lines of a table `w` by `h` (see `line_plan`). Each line is one
/// row or column; the content is `w` by `h`, so steps outside it change nothing.
pub fn table_line_plan(widths: &Vec<usize>, heights: &Vec<usize>, lines: TableLines, w: u16, h: u16) -> (r: Vec<LineOp>)
    requires
        after_header(heights@, lines) + sum_first(heights@, heights@.len() as int) + heights@.len() <= usize::MAX,
        1 + sum_first(widths@, widths@.len() as int) + widths@.len() <= usize::MAX,
        lines.vertical_lines && widths@.len() > 0 ==> heights@.len() > 0,
        lines.border ==> w > 0 && h > 0,
    ensures
        r@ == line_plan(widths@, heights@, lines, w as nat, h as nat),
{
    let ww = w as usize;
    let hh = h as usize;
    let b: usize = if lines.border { 1 } else { 0 };
    let mut out: Vec<LineOp> = Vec::new();
    let mut y: usize = b;
    proof {
        lemma_sum_first_mono(heights@, 0, heights@.len() as int);
        if heights@.len() > 0 {
            lemma_sum_first_mono(heights@, 1, heights@.len() as int);
            assert(sum_first(heights@, 1) == heights@[0]);
        }
    }
    if lines.header_line {
        let first = if heights.len() > 0 { heights[0] } else { 0 };
        y = y + first;
        push_row_ops(&mut out, y, ww, LineKind::Header, false);
        y = y + 1;
    }
    let ghost s1 = out@;
    if lines.horizontal_lines {
        push_horizontal_ops(&mut out, heights, lines, ww, y);
    }
    let ghost s2 = out@;
    if lines.vertical_lines {
        push_vertical_ops(&mut out, widths, heights, lines, hh);
    }
    let ghost s3 = out@;
    if lines.border {
        push_border_ops(&mut out, ww, hh);
    }
    proof {
        assert(s2 =~= s1 + (if lines.horizontal_lines {
            h_ops(heights@, lines, ww as nat, heights@.len() - 1)
        } else {
            Seq::empty()
        }));
        assert(s3 =~= s2 + (if lines.vertical_lines {
            v_ops(widths@, heights@, lines, hh as nat, widths@.len() as int)
        } else {
            Seq::empty()
        }));
        assert(out@ =~= s3 + (if lines.border { border_ops(ww as nat, hh as nat) } else { Seq::empty() }));
    }
    assert(out@ =~= line_plan(widths@, heights@, lines, w as nat, h as nat));
    out
}

} // verus!
