use vstd::prelude::*;

use crate::model::{texts, DatabaseMetadata, TableData};
use crate::text::str_eq;

verus! {

/// The positions of the columns whose metadata asks for them to be printed,
/// in order.
pub open spec fn printed_columns(cols: Seq<Seq<char>>, meta: DatabaseMetadata) -> Seq<int>
    decreases cols.len(),
{
    if cols.len() == 0 {
        Seq::empty()
    } else {
        let before = printed_columns(cols.drop_last(), meta);
        if meta.columns@[meta.column_index(cols.last())].print {
            before.push(cols.len() - 1)
        } else {
            before
        }
    }
}

/// The picked cells of a row, each followed by a tab.
pub open spec fn tsv_fields(cells: Seq<Seq<char>>, picks: Seq<int>) -> Seq<char>
    decreases picks.len(),
{
    if picks.len() == 0 {
        Seq::empty()
    } else {
        tsv_fields(cells, picks.drop_last()) + cells[picks.last()] + "\t"@
    }
}

/// One line of the export: the picked cells, then a line break.
pub open spec fn tsv_line(cells: Seq<Seq<char>>, picks: Seq<int>) -> Seq<char> {
    tsv_fields(cells, picks) + "\n"@
}

/// The lines of the rows whose first cell is one of `ids`, in order.
pub open spec fn selected_lines(rows: Seq<Seq<Seq<char>>>, picks: Seq<int>, ids: Seq<Seq<char>>) -> Seq<char>
    decreases rows.len(),
{
    if rows.len() == 0 {
        Seq::empty()
    } else {
        selected_lines(rows.drop_last(), picks, ids) + if ids.contains(rows.last()[0]) {
            tsv_line(rows.last(), picks)
        } else {
            Seq::empty()
        }
    }
}

/// The export of a table: a header line of the printed column names, then one
/// line per selected row with its printed cells.
pub open spec fn metadata_tsv(table: TableData, meta: DatabaseMetadata, ids: Seq<Seq<char>>) -> Seq<char> {
    let picks = printed_columns(table.column_texts(), meta);
    tsv_line(table.column_texts(), picks) + selected_lines(table.row_texts(), picks, ids)
}

/// Whether `id` is one of `ids`.
pub fn is_listed(ids: &Vec<String>, id: &String) -> (r: bool)
    ensures
        r == texts(ids@).contains(id@),
{
    let mut i: usize = 0;
    while i < ids.len()
        invariant
            i <= ids@.len(),
            forall|j: int| 0 <= j < i ==> #[trigger] ids@[j]@ != id@,
        decreases ids@.len() - i,
    {
        if str_eq(ids[i].as_str(), id.as_str()) {
            assert(texts(ids@)[i as int] == id@);
            return true;
        }
        i = i + 1;
    }
    proof {
        if texts(ids@).contains(id@) {
            let j = choose|j: int| 0 <= j < texts(ids@).len() && texts(ids@)[j] == id@;
            assert(ids@[j]@ == id@);
        }
    }
    false
}

fn push_line(out: &mut String, cells: &Vec<String>, picks: &Vec<usize>)
    requires
        forall|k: int| 0 <= k < picks@.len() ==> #[trigger] picks@[k] < cells@.len(),
    ensures
        final(out)@ == old(out)@ + tsv_line(texts(cells@), picks@.map_values(|p: usize| p as int)),
{
    let ghost ps = picks@.map_values(|p: usize| p as int);
    let ghost start = out@;
    let mut k: usize = 0;
    while k < picks.len()
        invariant
            k <= picks@.len(),
            ps == picks@.map_values(|p: usize| p as int),
            forall|k: int| 0 <= k < picks@.len() ==> #[trigger] picks@[k] < cells@.len(),
            out@ == start + tsv_fields(texts(cells@), ps.take(k as int)),
        decreases picks@.len() - k,
    {
        let p = picks[k];
        out.append(cells[p].as_str());
        out.append("\t");
        proof {
            assert(ps.take(k + 1).drop_last() =~= ps.take(k as int));
            assert(ps.take(k + 1).last() == p as int);
            assert(texts(cells@)[p as int] == cells@[p as int]@);
        }
        k = k + 1;
    }
    assert(ps.take(picks@.len() as int) =~= ps);
    out.append("\n");
}

/// Exports the rows of `table` whose first cell is one of `list_strains` as
/// tab-separated text, with the columns whose metadata asks for printing.
pub fn make_metadata_csv(table: &TableData, meta: &DatabaseMetadata, list_strains: &Vec<String>) -> (r: String)
    requires
        table.well_formed(),
        forall|i: int| 0 <= i < table.rows@.len() ==> #[trigger] table.rows@[i]@.len() > 0,
        forall|i: int| 0 <= i < table.columns@.len() ==> meta.has_column(#[trigger] table.columns@[i]@),
    ensures
        r@ == metadata_tsv(*table, *meta, texts(list_strains@)),
{
    let ghost cols = table.column_texts();
    let mut pick_col_id: Vec<usize> = Vec::new();
    let mut i: usize = 0;
    while i < table.columns.len()
        invariant
            i <= table.columns@.len(),
            cols == table.column_texts(),
            forall|i: int| 0 <= i < table.columns@.len() ==> meta.has_column(#[trigger] table.columns@[i]@),
            pick_col_id@.map_values(|p: usize| p as int) == printed_columns(cols.take(i as int), *meta),
            forall|k: int| 0 <= k < pick_col_id@.len() ==> #[trigger] pick_col_id@[k] < i,
        decreases table.columns@.len() - i,
    {
        let ghost before = pick_col_id@;
        assert(meta.has_column(table.columns@[i as int]@));
        let j = meta.find_column(table.columns[i].as_str()).unwrap();
        proof {
            assert(cols.take(i + 1).drop_last() =~= cols.take(i as int));
            assert(cols.take(i + 1).last() == table.columns@[i as int]@);
        }
        if meta.columns[j].print {
            pick_col_id.push(i);
            assert(pick_col_id@.map_values(|p: usize| p as int) =~= before.map_values(|p: usize| p as int).push(i as int));
        }
        i = i + 1;
    }
    assert(cols.take(cols.len() as int) =~= cols);
    let ghost picks = pick_col_id@.map_values(|p: usize| p as int);
    let mut csv = String::new();
    push_line(&mut csv, &table.columns, &pick_col_id);
    assert(csv@ =~= tsv_line(cols, picks));
    let ghost rows = table.row_texts();
    let ghost head = csv@;
    let mut r: usize = 0;
    while r < table.rows.len()
        invariant
            r <= table.rows@.len(),
            table.well_formed(),
            forall|i: int| 0 <= i < table.rows@.len() ==> #[trigger] table.rows@[i]@.len() > 0,
            rows == table.row_texts(),
            picks == pick_col_id@.map_values(|p: usize| p as int),
            forall|k: int| 0 <= k < pick_col_id@.len() ==> #[trigger] pick_col_id@[k] < table.columns@.len(),
            csv@ == head + selected_lines(rows.take(r as int), picks, texts(list_strains@)),
        decreases table.rows@.len() - r,
    {
        let row = &table.rows[r];
        assert(row@.len() == table.columns@.len());
        assert(row@.len() > 0);
        proof {
            assert(rows.take(r + 1).drop_last() =~= rows.take(r as int));
            assert(rows.take(r + 1).last() == texts(row@));
            assert(texts(row@)[0] == row@[0]@);
        }
        let ghost before = csv@;
        if is_listed(list_strains, &row[0]) {
            push_line(&mut csv, row, &pick_col_id);
        }
        assert(csv@ =~= head + selected_lines(rows.take(r + 1), picks, texts(list_strains@)));
        r = r + 1;
    }
    assert(rows.take(rows.len() as int) =~= rows);
    csv
}

} // verus!
