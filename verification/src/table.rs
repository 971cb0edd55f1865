//! Plain-text tables: columns as wide as their widest visible cell.
use vstd::prelude::*;
use crate::term::{ansi_stripped, visible_len};
use crate::text::{push_str_chars, string_from_chars};
use crate::log::{dim, dimmed_text};

verus! {

/// The views of a row of cells.
pub open spec fn row_view(r: Vec<String>) -> Seq<Seq<char>> {
    r@.map_values(|c: String| c@)
}

/// The views of the rows.
pub open spec fn rows_view(rows: Seq<Vec<String>>) -> Seq<Seq<Seq<char>>> {
    rows.map_values(|r: Vec<String>| row_view(r))
}

/// How many characters of a cell are visible once escape sequences are
/// removed.
pub open spec fn vis(cell: Seq<char>) -> int {
    ansi_stripped(cell).len() as int
}

/// The width of column `i` over the first `k` rows: the header's length in
/// bytes, widened to the visible length of each cell of the column.
pub open spec fn width_upto(header_len: int, rows: Seq<Seq<Seq<char>>>, i: int, k: int) -> int
    decreases k,
{
    if k <= 0 || k > rows.len() {
        header_len
    } else {
        let w = width_upto(header_len, rows, i, k - 1);
        if i < rows[k - 1].len() && vis(rows[k - 1][i]) > w { vis(rows[k - 1][i]) } else { w }
    }
}

/// `n` spaces.
pub open spec fn spaces(n: int) -> Seq<char> {
    Seq::new(if n > 0 { n as nat } else { 0 }, |j: int| ' ')
}

/// The gap after a cell of length `len` in a column of width `width`: one
/// space more than the room left.
pub open spec fn gap(width: int, len: int) -> Seq<char> {
    spaces((if width > len { width - len } else { 0 }) + 1)
}

/// A line of cells `cells[..n]`, each followed by its gap unless it is in
/// the last column.
pub open spec fn line_upto(cells: Seq<Seq<char>>, lens: Seq<int>, widths: Seq<int>, cols: int, n: int) -> Seq<char>
    decreases n,
{
    if n <= 0 {
        Seq::empty()
    } else {
        let i = n - 1;
        line_upto(cells, lens, widths, cols, n - 1) + cells[i] + (if i + 1 < cols { gap(widths[i], lens[i]) } else { Seq::empty() })
    }
}

fn push_spaces(out: &mut Vec<char>, n: usize)
    ensures
        final(out)@ == old(out)@ + spaces(n as int),
{
    let ghost start = out@;
    let mut k: usize = 0;
    while k < n
        invariant
            k <= n,
            out@ == start + spaces(k as int),
        decreases n - k,
    {
        out.push(' ');
        assert(start + spaces(k + 1) =~= (start + spaces(k as int)).push(' '));
        k += 1;
    }
}

/// The column widths of a table.
pub fn column_widths(headers: &[&str], rows: &[Vec<String>]) -> (w: Vec<usize>)
    requires
        forall|i: int| 0 <= i < headers@.len() ==> #[trigger] headers@[i].len() < usize::MAX,
        forall|k: int, c: int| 0 <= k < rows@.len() && 0 <= c < rows@[k]@.len() ==> #[trigger] rows@[k]@[c]@.len() < usize::MAX,
    ensures
        w@.len() == headers@.len(),
        forall|i: int| 0 <= i < headers@.len() ==> #[trigger] w@[i] < usize::MAX,
        forall|i: int| 0 <= i < headers@.len() ==> #[trigger] w@[i] as int == width_upto(headers@[i].len() as int, rows_view(rows@), i, rows@.len() as int),
{
    let mut w: Vec<usize> = Vec::new();
    let mut i: usize = 0;
    while i < headers.len()
        invariant
            i <= headers.len(),
            w@.len() == i,
            forall|i: int| 0 <= i < headers@.len() ==> #[trigger] headers@[i].len() < usize::MAX,
            forall|k: int, c: int| 0 <= k < rows@.len() && 0 <= c < rows@[k]@.len() ==> #[trigger] rows@[k]@[c]@.len() < usize::MAX,
            forall|c: int| 0 <= c < i ==> #[trigger] w@[c] < usize::MAX,
            forall|c: int| 0 <= c < i ==> #[trigger] w@[c] as int == width_upto(headers@[c].len() as int, rows_view(rows@), c, rows@.len() as int),
        decreases headers.len() - i,
    {
        let hl = headers[i].len();
        assert(headers@[i as int].len() < usize::MAX);
        let mut cur: usize = hl;
        let mut k: usize = 0;
        while k < rows.len()
            invariant
                k <= rows.len(),
                i < headers@.len(),
                hl == headers@[i as int].len(),
                cur as int == width_upto(hl as int, rows_view(rows@), i as int, k as int),
                cur < usize::MAX,
                forall|k: int, c: int| 0 <= k < rows@.len() && 0 <= c < rows@[k]@.len() ==> #[trigger] rows@[k]@[c]@.len() < usize::MAX,
            decreases rows.len() - k,
        {
            assert(rows_view(rows@)[k as int] == row_view(rows@[k as int]));
            if i < rows[k].len() {
                let v = visible_len(rows[k][i].as_str());
                assert(rows@[k as int]@[i as int]@.len() < usize::MAX);
                assert(row_view(rows@[k as int])[i as int] == rows@[k as int]@[i as int]@);
                if v > cur {
                    cur = v;
                }
            }
            k += 1;
        }
        w.push(cur);
        i += 1;
    }
    w
}

/// The lines of a table: the header line (dimmed), then one line per row. Each cell
/// is followed (except in the last column) by spaces up to its column's
/// width and one more; cells beyond the headers are left out.
pub fn format_table(headers: &[&str], rows: &[Vec<String>]) -> (r: (String, Vec<String>))
    requires
        forall|i: int| 0 <= i < headers@.len() ==> #[trigger] headers@[i].len() < usize::MAX,
        forall|k: int, c: int| 0 <= k < rows@.len() && 0 <= c < rows@[k]@.len() ==> #[trigger] rows@[k]@[c]@.len() < usize::MAX,
    ensures
        ({
            let widths = Seq::new(headers@.len(), |i: int| width_upto(headers@[i].len() as int, rows_view(rows@), i, rows@.len() as int));
            let cols = headers@.len() as int;
            &&& r.0@ == dimmed_text(line_upto(headers@.map_values(|h: &str| h@), headers@.map_values(|h: &str| h.len() as int), widths, cols, cols))
            &&& r.1@.len() == rows@.len()
            &&& forall|k: int| 0 <= k < rows@.len() ==> #[trigger] r.1@[k]@ == line_upto(
                row_view(rows@[k]),
                row_view(rows@[k]).map_values(|c: Seq<char>| vis(c)),
                widths,
                cols,
                if row_view(rows@[k]).len() < cols { row_view(rows@[k]).len() as int } else { cols },
            )
        }),
{
    let ghost cols = headers@.len() as int;
    let w = column_widths(headers, rows);
    let ghost widths = Seq::new(headers@.len(), |i: int| width_upto(headers@[i].len() as int, rows_view(rows@), i, rows@.len() as int));
    assert(w@.len() == widths.len());
    let ghost hv = headers@.map_values(|h: &str| h@);
    let ghost hl = headers@.map_values(|h: &str| h.len() as int);
    let mut header: Vec<char> = Vec::new();
    let mut i: usize = 0;
    while i < headers.len()
        invariant
            i <= headers.len(),
            w@.len() == headers@.len(),
            cols == headers@.len(),
            widths.len() == headers@.len(),
            forall|c: int| 0 <= c < headers@.len() ==> #[trigger] w@[c] as int == widths[c],
            forall|c: int| 0 <= c < headers@.len() ==> #[trigger] w@[c] < usize::MAX,
            hv == headers@.map_values(|h: &str| h@),
            hl == headers@.map_values(|h: &str| h.len() as int),
            header@ == line_upto(hv, hl, widths, cols, i as int),
        decreases headers.len() - i,
    {
        let ghost before = header@;
        push_str_chars(&mut header, headers[i]);
        if i + 1 < headers.len() {
            let len = headers[i].len();
            let room: usize = if w[i] > len { w[i] - len } else { 0 };
            assert(room < usize::MAX);
            push_spaces(&mut header, room + 1);
            assert(header@ =~= before + hv[i as int] + gap(widths[i as int], hl[i as int]));
        } else {
            assert(header@ =~= before + hv[i as int] + Seq::<char>::empty());
        }
        i += 1;
    }
    let mut lines: Vec<String> = Vec::new();
    let mut k: usize = 0;
    while k < rows.len()
        invariant
            k <= rows.len(),
            w@.len() == headers@.len(),
            cols == headers@.len(),
            widths.len() == headers@.len(),
            forall|c: int| 0 <= c < headers@.len() ==> #[trigger] w@[c] as int == widths[c],
            forall|c: int| 0 <= c < headers@.len() ==> #[trigger] w@[c] < usize::MAX,
            lines@.len() == k,
            forall|q: int| 0 <= q < k ==> #[trigger] lines@[q]@ == line_upto(
                row_view(rows@[q]),
                row_view(rows@[q]).map_values(|c: Seq<char>| vis(c)),
                widths,
                cols,
                if row_view(rows@[q]).len() < cols { row_view(rows@[q]).len() as int } else { cols },
            ),
        decreases rows.len() - k,
    {
        let row = &rows[k];
        let ghost cells = row_view(rows@[k as int]);
        let ghost lens = cells.map_values(|c: Seq<char>| vis(c));
        let n: usize = if row.len() < headers.len() { row.len() } else { headers.len() };
        let mut out: Vec<char> = Vec::new();
        let mut i: usize = 0;
        while i < n
            invariant
                i <= n,
                n <= row@.len(),
                n <= headers@.len(),
                w@.len() == headers@.len(),
                cols == headers@.len(),
                widths.len() == headers@.len(),
                forall|c: int| 0 <= c < headers@.len() ==> #[trigger] w@[c] as int == widths[c],
                forall|c: int| 0 <= c < headers@.len() ==> #[trigger] w@[c] < usize::MAX,
            forall|c: int| 0 <= c < headers@.len() ==> #[trigger] w@[c] < usize::MAX,
                cells == row_view(*row),
                lens == cells.map_values(|c: Seq<char>| vis(c)),
                out@ == line_upto(cells, lens, widths, cols, i as int),
            decreases n - i,
        {
            let ghost before = out@;
            let cell = row[i].as_str();
            assert(cells[i as int] == cell@);
            let v = visible_len(cell);
            push_str_chars(&mut out, cell);
            if i + 1 < headers.len() {
                let room: usize = if w[i] > v { w[i] - v } else { 0 };
                assert(room < usize::MAX);
                push_spaces(&mut out, room + 1);
                assert(out@ =~= before + cells[i as int] + gap(widths[i as int], lens[i as int]));
            } else {
                assert(out@ =~= before + cells[i as int] + Seq::<char>::empty());
            }
            i += 1;
        }
        lines.push(string_from_chars(out.as_slice()));
        k += 1;
    }
    let plain = string_from_chars(header.as_slice());
    (dim(plain.as_str()), lines)
}

} // verus!
