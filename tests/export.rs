use straindb::export::{is_listed, make_metadata_csv};
use straindb::model::{DatabaseColumn, DatabaseMetadata, TableData};

fn column(id: &str, print: bool) -> DatabaseColumn {
    DatabaseColumn {
        column_id: id.to_string(),
        column_type: "text".to_string(),
        default_v1: String::new(),
        default_v2: String::new(),
        default_show_column: "1".to_string(),
        dropdown: false,
        display: true,
        search: true,
        print,
        notes: String::new(),
    }
}

fn s(v: &[&str]) -> Vec<String> {
    v.iter().map(|x| x.to_string()).collect()
}

#[test]
fn export_selected_rows_and_printed_columns() {
    let mut meta = DatabaseMetadata::new();
    meta.columns = vec![column("id", true), column("secret", false), column("country", true)];
    let table = TableData {
        columns: s(&["id", "secret", "country"]),
        rows: vec![s(&["A", "x", "SE"]), s(&["B", "y", "US"]), s(&["C", "z", "FR"])],
    };
    let out = make_metadata_csv(&table, &meta, &s(&["C", "A", "Q"]));
    assert_eq!(out, "id\tcountry\t\nA\tSE\t\nC\tFR\t\n");
}

#[test]
fn export_with_no_selection_is_header_only() {
    let mut meta = DatabaseMetadata::new();
    meta.columns = vec![column("id", true)];
    let table = TableData { columns: s(&["id"]), rows: vec![s(&["A"])] };
    assert_eq!(make_metadata_csv(&table, &meta, &vec![]), "id\t\n");
}

#[test]
fn listed_ids() {
    assert!(is_listed(&s(&["a", "b"]), &"b".to_string()));
    assert!(!is_listed(&s(&["a", "b"]), &"c".to_string()));
    assert!(!is_listed(&vec![], &"".to_string()));
}
