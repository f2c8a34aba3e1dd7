use straindb::model::{ComparisonType, SearchCriteria, SearchSettings, TableData};
use straindb::query::build_straindb_search;
use straindb::table::{decode_cell, decode_table, Cell};
use straindb::text::decimal_string;

use rusqlite::types::ValueRef;
use rusqlite::Connection;

fn cell_of(v: ValueRef<'_>) -> Cell {
    match v {
        ValueRef::Null => Cell::Null,
        ValueRef::Integer(i) => Cell::Integer(i),
        ValueRef::Real(f) => Cell::Real(format!("{}", f)),
        ValueRef::Text(t) => Cell::Text(t.to_vec()),
        ValueRef::Blob(_) => Cell::Blob,
    }
}

fn run(conn: &Connection, sql: &str) -> TableData {
    let mut stmt = conn.prepare(sql).unwrap();
    let columns: Vec<String> = stmt.column_names().iter().map(|c| c.to_string()).collect();
    let n = stmt.column_count();
    let rows = stmt
        .query_map([], |row| (0..n).map(|i| row.get_ref(i).map(cell_of)).collect::<Result<Vec<Cell>, _>>())
        .unwrap();
    let rows: Vec<Option<Vec<Cell>>> = rows.map(|r| r.ok()).collect();
    decode_table(columns, rows)
}

fn rows_of(t: &TableData, from: usize, to: usize) -> Vec<Vec<String>> {
    t.rows[from..to].to_vec()
}

#[test]
fn cells_decode_to_text() {
    assert_eq!(decode_cell(&Cell::Null), "");
    assert_eq!(decode_cell(&Cell::Integer(-42)), "-42");
    assert_eq!(decode_cell(&Cell::Integer(0)), "0");
    assert_eq!(decode_cell(&Cell::Real("1.5".to_string())), "1.5");
    assert_eq!(decode_cell(&Cell::Text(b"abc".to_vec())), "abc");
    assert_eq!(decode_cell(&Cell::Blob), "(blob)");
}

#[test]
fn invalid_utf8_is_replaced() {
    assert_eq!(decode_cell(&Cell::Text(vec![0x66, 0xff, 0x6f])), "f\u{FFFD}o");
    assert_eq!(decode_cell(&Cell::Text("grüß".as_bytes().to_vec())), "grüß");
}

#[test]
fn decimal_text_of_extremes() {
    assert_eq!(decimal_string(i64::MIN), "-9223372036854775808");
    assert_eq!(decimal_string(i64::MAX), "9223372036854775807");
    assert_eq!(decimal_string(6000), "6000");
}

#[test]
fn unreadable_and_ragged_rows_are_dropped() {
    let t = decode_table(
        vec!["a".to_string(), "b".to_string()],
        vec![
            Some(vec![Cell::Integer(1), Cell::Null]),
            None,
            Some(vec![Cell::Integer(2)]),
            Some(vec![Cell::Blob, Cell::Text(b"x".to_vec())]),
        ],
    );
    assert_eq!(t.columns, vec!["a", "b"]);
    assert_eq!(t.rows, vec![vec!["1".to_string(), "".to_string()], vec!["(blob)".to_string(), "x".to_string()]]);
}

#[test]
fn like_query_round_trip() {
    let conn = Connection::open_in_memory().unwrap();
    conn.execute_batch(
        "CREATE TABLE straindata (BTyperDB_ID TEXT, Country TEXT, Quast_N50 INTEGER, Score REAL, Raw BLOB);
         INSERT INTO straindata VALUES ('BTDB_1', 'X', 5000, 0.5, x'00');
         INSERT INTO straindata VALUES ('BTDB_2', 'Y', 7000, NULL, NULL);",
    )
    .unwrap();
    let search = SearchSettings {
        criteria: vec![SearchCriteria { field: "Country".to_string(), comparison: ComparisonType::Like("X".to_string()) }],
    };
    let sql = build_straindb_search(&search).unwrap();
    let t = run(&conn, &sql);
    assert_eq!(t.columns, vec!["BTyperDB_ID", "Country", "Quast_N50", "Score", "Raw"]);
    assert_eq!(
        t.rows,
        vec![vec!["BTDB_1".to_string(), "X".to_string(), "5000".to_string(), "0.5".to_string(), "(blob)".to_string()]]
    );
}

#[test]
fn range_query_round_trip() {
    let conn = Connection::open_in_memory().unwrap();
    conn.execute_batch(
        "CREATE TABLE straindata (id TEXT, n INTEGER);
         INSERT INTO straindata VALUES ('a', 1), ('b', 5), ('c', 9);",
    )
    .unwrap();
    let search = SearchSettings {
        criteria: vec![SearchCriteria {
            field: "n".to_string(),
            comparison: ComparisonType::FromTo("1".to_string(), "9".to_string()),
        }],
    };
    let t = run(&conn, &build_straindb_search(&search).unwrap());
    assert_eq!(t.rows, vec![vec!["b".to_string(), "5".to_string()]]);
    let all = run(&conn, &build_straindb_search(&SearchSettings { criteria: vec![] }).unwrap());
    assert_eq!(all.rows.len(), 3);
    assert_eq!(all.rows[2], vec!["c".to_string(), "9".to_string()]);
}

fn numbered(n: usize) -> TableData {
    TableData { columns: vec!["id".to_string()], rows: (0..n).map(|i| vec![i.to_string()]).collect() }
}

#[test]
fn pages_of_250_rows() {
    let t = numbered(250);
    assert_eq!(t.num_pages(100), 3);
    assert_eq!(t.page_range(0, 100), (0, 100));
    assert_eq!(t.page_range(1, 100), (100, 200));
    assert_eq!(t.page_range(2, 100), (200, 250));
    assert_eq!(t.page_range(3, 100), (250, 250));
    assert_eq!(t.page_range(usize::MAX, 100), (250, 250));
}

#[test]
fn pages_edge_sizes() {
    assert_eq!(numbered(200).num_pages(100), 2);
    assert_eq!(numbered(0).num_pages(100), 0);
    assert_eq!(numbered(0).page_range(0, 100), (0, 0));
    assert_eq!(numbered(1).num_pages(1), 1);
    assert_eq!(numbered(5).page_range(4, 1), (4, 5));
}

#[test]
fn pages_show_every_row_once_in_order() {
    for (n, p) in [(250usize, 100usize), (7, 3), (9, 3), (1, 10), (0, 4)] {
        let t = numbered(n);
        let mut seen: Vec<Vec<String>> = Vec::new();
        for page in 0..t.num_pages(p) {
            let (from, to) = t.page_range(page, p);
            seen.extend(rows_of(&t, from, to));
        }
        assert_eq!(seen, t.rows);
    }
}
