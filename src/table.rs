use vstd::prelude::*;

use crate::model::{texts, TableData};
use crate::text::{decimal_string, decimal_text};

verus! {

/// A value as the database hands it out for one cell of a result row. A
/// floating-point value comes as the shortest decimal text that reads back
/// as the same number.
#[derive(Debug, Clone, PartialEq, Eq)]
pub enum Cell {
    Null,
    Integer(i64),
    Real(String),
    Text(Vec<u8>),
    Blob,
}

/// The text that `String::from_utf8_lossy` makes of some bytes.
pub uninterp spec fn utf8_lossy_text(b: Seq<u8>) -> Seq<char>;

/// Relies on `String::from_utf8_lossy`: the text of the bytes, with each
/// invalid sequence replaced; the result depends on the bytes alone.
#[verifier::external_body]
fn text_of_bytes(b: &Vec<u8>) -> (r: String)
    ensures
        r@ == utf8_lossy_text(b@),
{
    String::from_utf8_lossy(b.as_slice()).into_owned()
}

/// The display text of a cell: nothing for a null, decimal text for a
/// number, the text itself for a text, and a fixed mark for a blob.
pub open spec fn cell_text(c: Cell) -> Seq<char> {
    match c {
        Cell::Null => Seq::empty(),
        Cell::Integer(i) => decimal_text(i as int),
        Cell::Real(t) => t@,
        Cell::Text(b) => utf8_lossy_text(b@),
        Cell::Blob => "(blob)"@,
    }
}

/// The display texts of a row of cells.
pub open spec fn row_text(r: Seq<Cell>) -> Seq<Seq<char>> {
    r.map_values(|c: Cell| cell_text(c))
}

/// The rows that decode: those that were read and have one cell per column,
/// as display text, in order.
pub open spec fn decoded_rows(rows: Seq<Option<Vec<Cell>>>, width: nat) -> Seq<Seq<Seq<char>>>
    decreases rows.len(),
{
    if rows.len() == 0 {
        Seq::empty()
    } else {
        let before = decoded_rows(rows.drop_last(), width);
        match rows.last() {
            Some(r) => if r@.len() == width {
                before.push(row_text(r@))
            } else {
                before
            },
            None => before,
        }
    }
}

/// The display text of one cell.
pub fn decode_cell(c: &Cell) -> (r: String)
    ensures
        r@ == cell_text(*c),
{
    match c {
        Cell::Null => String::new(),
        Cell::Integer(i) => decimal_string(*i),
        Cell::Real(t) => t.clone(),
        Cell::Text(b) => text_of_bytes(b),
        Cell::Blob => String::from_str("(blob)"),
    }
}

fn decode_row(r: &Vec<Cell>) -> (out: Vec<String>)
    ensures
        texts(out@) == row_text(r@),
{
    let mut out: Vec<String> = Vec::new();
    let mut i: usize = 0;
    while i < r.len()
        invariant
            i <= r@.len(),
            out@.len() == i,
            texts(out@) =~= row_text(r@.take(i as int)),
        decreases r@.len() - i,
    {
        let ghost before = out@;
        let cell = decode_cell(&r[i]);
        assert(cell@ == cell_text(r@[i as int]));
        out.push(cell);
        assert(out@ == before.push(cell));
        assert(r@.take(i + 1) =~= r@.take(i as int).push(r@[i as int]));
        proof {
            let t = r@.take(i + 1);
            assert forall|j: int| 0 <= j < i + 1 implies #[trigger] texts(out@)[j] == row_text(t)[j] by {
                if j < i {
                    assert(texts(before)[j] == row_text(r@.take(i as int))[j]);
                    assert(t[j] == r@.take(i as int)[j]);
                }
            }
        }
        i = i + 1;
        assert(texts(out@) =~= row_text(r@.take(i as int)));
    }
    assert(r@.take(r@.len() as int) =~= r@);
    out
}

/// Builds the table of a query result from its column names and its rows as
/// they were read: a row that could not be read, or whose width is not the
/// number of columns, is left out; every other row is kept, in order, as
/// display text.
pub fn decode_table(columns: Vec<String>, rows: Vec<Option<Vec<Cell>>>) -> (r: TableData)
    ensures
        r.columns@ == columns@,
        r.row_texts() == decoded_rows(rows@, columns@.len()),
        r.well_formed(),
{
    let width = columns.len();
    let mut ok_rows: Vec<Vec<String>> = Vec::new();
    let mut i: usize = 0;
    while i < rows.len()
        invariant
            i <= rows@.len(),
            width == columns@.len(),
            ok_rows@.map_values(|r: Vec<String>| texts(r@)) =~= decoded_rows(rows@.take(i as int), width as nat),
            forall|j: int| 0 <= j < ok_rows@.len() ==> #[trigger] ok_rows@[j]@.len() == width,
        decreases rows@.len() - i,
    {
        proof {
            assert(rows@.take(i + 1).drop_last() =~= rows@.take(i as int));
        }
        match &rows[i] {
            Some(row) => {
                if row.len() == width {
                    let decoded = decode_row(row);
                    assert(decoded@.len() == row@.len()) by {
                        assert(texts(decoded@).len() == row_text(row@).len());
                    }
                    ok_rows.push(decoded);
                }
            },
            None => {},
        }
        i = i + 1;
        assert(ok_rows@.map_values(|r: Vec<String>| texts(r@)) =~= decoded_rows(rows@.take(i as int), width as nat));
    }
    assert(rows@.take(rows@.len() as int) =~= rows@);
    TableData { columns, rows: ok_rows }
}

/// The number of pages of `n` rows, `p` rows to a page.
pub open spec fn page_count(n: nat, p: nat) -> nat
    recommends
        p > 0,
{
    if p == 0 {
        0
    } else {
        ((n + p - 1) as int / p as int) as nat
    }
}

/// The first row of a page.
pub open spec fn page_start(n: nat, p: nat, page: nat) -> nat {
    if page * p < n {
        page * p
    } else {
        n
    }
}

/// The row after the last one of a page.
pub open spec fn page_end(n: nat, p: nat, page: nat) -> nat {
    if page * p + p < n {
        page * p + p
    } else {
        n
    }
}

/// The rows of the first `k` pages, one page after another.
pub open spec fn pages_concat<A>(rows: Seq<A>, p: nat, k: nat) -> Seq<A>
    decreases k,
{
    if k == 0 {
        Seq::empty()
    } else {
        pages_concat(rows, p, (k - 1) as nat) + rows.subrange(
            page_start(rows.len(), p, (k - 1) as nat) as int,
            page_end(rows.len(), p, (k - 1) as nat) as int,
        )
    }
}

impl TableData {
    /// The number of pages of rows, `page_size` to a page.
    pub fn num_pages(&self, page_size: usize) -> (r: usize)
        requires
            page_size > 0,
        ensures
            r == page_count(self.rows@.len(), page_size as nat),
    {
        let n = self.rows.len();
        let q = n / page_size;
        let rem = n % page_size;
        proof {
            vstd::arithmetic::div_mod::lemma_fundamental_div_mod(n as int, page_size as int);
            assert(n == page_size * q + rem);
        }
        if rem == 0 {
            proof {
                vstd::arithmetic::div_mod::lemma_fundamental_div_mod_converse(
                    n + page_size - 1,
                    page_size as int,
                    q as int,
                    page_size - 1,
                );
            }
            q
        } else {
            proof {
                assert(n + page_size - 1 == (q + 1) * page_size + (rem - 1) && q + 1 <= n)
                    by (nonlinear_arith)
                    requires
                        n == page_size * q + rem,
                        rem >= 1,
                        page_size >= 1,
                        q >= 0,
                ;
                vstd::arithmetic::div_mod::lemma_fundamental_div_mod_converse(
                    n + page_size - 1,
                    page_size as int,
                    q + 1,
                    rem - 1,
                );
            }
            q + 1
        }
    }

    /// The rows that page `page` shows, `page_size` to a page, as the range
    /// from its first row to the row after its last; empty past the last page.
    pub fn page_range(&self, page: usize, page_size: usize) -> (r: (usize, usize))
        requires
            page_size > 0,
        ensures
            r.0 == page_start(self.rows@.len(), page_size as nat, page as nat),
            r.1 == page_end(self.rows@.len(), page_size as nat, page as nat),
    {
        let n = self.rows.len();
        let q = n / page_size;
        proof {
            vstd::arithmetic::div_mod::lemma_fundamental_div_mod(n as int, page_size as int);
        }
        if page > q {
            proof {
                assert(page * page_size >= n) by (nonlinear_arith)
                    requires
                        page >= q + 1,
                        page_size > 0,
                        page_size * q + n % page_size == n,
                        n % page_size < page_size,
                ;
            }
            return (n, n);
        }
        proof {
            assert(page * page_size <= n) by (nonlinear_arith)
                requires
                    page <= q,
                    page_size > 0,
                    page_size * q + n % page_size == n,
                    n % page_size >= 0,
            ;
        }
        let from: usize = page * page_size;
        if from >= n {
            return (n, n);
        }
        let to: usize = if n - from > page_size {
            from + page_size
        } else {
            n
        };
        (from, to)
    }
}

proof fn lemma_pages_prefix<A>(rows: Seq<A>, p: nat, k: nat)
    requires
        p > 0,
    ensures
        pages_concat(rows, p, k) == rows.take(page_start(rows.len(), p, k) as int),
    decreases k,
{
    let n = rows.len();
    if k == 0 {
        assert(0 * p == 0) by (nonlinear_arith);
        assert(rows.take(0) =~= Seq::<A>::empty());
        assert(rows.take(page_start(n, p, k) as int) =~= Seq::<A>::empty());
    } else {
        let j = (k - 1) as nat;
        lemma_pages_prefix(rows, p, j);
        assert(j * p + p == k * p) by (nonlinear_arith)
            requires
                j + 1 == k,
        ;
        assert(j * p <= k * p) by (nonlinear_arith)
            requires
                j + 1 == k,
        ;
        assert(rows.take(page_start(n, p, j) as int) + rows.subrange(
            page_start(n, p, j) as int,
            page_end(n, p, j) as int,
        ) =~= rows.take(page_start(n, p, k) as int));
    }
}

/// Shown page after page, from the first page to the last, the pages of a
/// table show each of its rows exactly once, in order.
pub proof fn law_pages_cover_rows<A>(rows: Seq<A>, page_size: nat)
    requires
        page_size > 0,
    ensures
        pages_concat(rows, page_size, page_count(rows.len(), page_size)) == rows,
{
    let n = rows.len();
    let k = page_count(n, page_size);
    lemma_pages_prefix(rows, page_size, k);
    assert(k * page_size >= n) by {
        vstd::arithmetic::div_mod::lemma_fundamental_div_mod(
            (n + page_size - 1) as int,
            page_size as int,
        );
        assert(k * page_size >= n) by (nonlinear_arith)
            requires
                k == (n + page_size - 1) as int / (page_size as int),
                page_size * ((n + page_size - 1) as int / (page_size as int)) + (n + page_size
                    - 1) as int % (page_size as int) == n + page_size - 1,
                (n + page_size - 1) as int % (page_size as int) < page_size,
        ;
    }
    assert(rows.take(n as int) =~= rows);
}

} // verus!
