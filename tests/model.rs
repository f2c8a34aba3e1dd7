use std::sync::Arc;

use straindb::appstate::AsyncData;
use straindb::color::parse_rgb_i64;
use straindb::model::{
    format_01bool, parse_01bool, ComparisonType, DatabaseColumn, DatabaseMetadata, SearchCriteria, SearchSettings,
};
use straindb::stats::histogram_collapse_other;

fn column(id: &str, ty: &str, v1: &str, v2: &str) -> DatabaseColumn {
    DatabaseColumn {
        column_id: id.to_string(),
        column_type: ty.to_string(),
        default_v1: v1.to_string(),
        default_v2: v2.to_string(),
        default_show_column: "1".to_string(),
        dropdown: false,
        display: true,
        search: true,
        print: true,
        notes: String::new(),
    }
}

#[test]
fn default_settings_match_labels_on_id() {
    let s = SearchSettings::new();
    let labels = ["CheckM_Completeness", "CheckM_Contamination", "Quast_N50", "Kraken_Phylum(Bacillota)"];
    assert_eq!(s.criteria.len(), 4);
    for (c, l) in s.criteria.iter().zip(labels) {
        assert_eq!(c.field, "BTyperDB_ID");
        assert_eq!(c.comparison, ComparisonType::Like(l.to_string()));
    }
}

#[test]
fn new_criterion_is_blank() {
    let c = SearchCriteria::new();
    assert_eq!(c.field, "");
    assert_eq!(c.comparison, ComparisonType::Like(String::new()));
}

#[test]
fn default_comparison_by_type() {
    assert_eq!(ComparisonType::default_comparison(&column("a", "text", "x", "y")), ComparisonType::Like("x".to_string()));
    assert_eq!(
        ComparisonType::default_comparison(&column("a", "float", "1", "2")),
        ComparisonType::FromTo("1".to_string(), "2".to_string())
    );
    assert_eq!(
        ComparisonType::default_comparison(&column("a", "integer", "3", "4")),
        ComparisonType::FromTo("3".to_string(), "4".to_string())
    );
    assert_eq!(ComparisonType::default_comparison(&column("a", "date", "3", "4")), ComparisonType::Like(String::new()));
}

#[test]
fn default_search_uses_column() {
    let c = SearchCriteria::default_search(&column("Quast_N50", "integer", "0", "100"));
    assert_eq!(c.field, "Quast_N50");
    assert_eq!(c.comparison, ComparisonType::FromTo("0".to_string(), "100".to_string()));
}

#[test]
fn metadata_default_search() {
    let mut m = DatabaseMetadata::new();
    assert_eq!(m.num_strain, -1);
    assert!(m.columns.is_empty());
    m.columns = vec![
        column("Quast_N50", "integer", "10", "20"),
        column("CheckM_Completeness", "float", "90", "100"),
        column("Kraken_Phylum(Bacillota)", "float", "0", "1"),
        column("CheckM_Contamination", "float", "0", "5"),
        column("Country", "text", "", ""),
    ];
    assert_eq!(m.find_column("Country"), Some(4));
    assert_eq!(m.find_column("Nope"), None);
    let s = m.make_default_search();
    let fields: Vec<&str> = s.criteria.iter().map(|c| c.field.as_str()).collect();
    assert_eq!(fields, vec!["CheckM_Completeness", "CheckM_Contamination", "Quast_N50", "Kraken_Phylum(Bacillota)"]);
    assert_eq!(s.criteria[2].comparison, ComparisonType::FromTo("10".to_string(), "20".to_string()));
}

#[test]
fn flags_read_and_write() {
    assert_eq!(parse_01bool("1"), Some(true));
    assert_eq!(parse_01bool("0"), Some(false));
    assert_eq!(parse_01bool("yes"), None);
    assert_eq!(parse_01bool(""), None);
    assert_eq!(format_01bool(true), "1");
    assert_eq!(format_01bool(false), "0");
}

#[test]
fn histogram_merges_small_entries() {
    let h = vec![("a".to_string(), 100), ("b".to_string(), 50), ("c".to_string(), 1), ("d".to_string(), 2)];
    assert_eq!(
        histogram_collapse_other(&h, 3),
        vec![("a".to_string(), 100), ("b".to_string(), 50), ("Other".to_string(), 3)]
    );
    assert_eq!(histogram_collapse_other(&h, 0), h);
    assert_eq!(histogram_collapse_other(&vec![], 5), vec![]);
}

#[test]
fn colour_codes_parse() {
    assert_eq!(parse_rgb_i64(&"#1A2B3C".to_string()), (26, 43, 60));
    assert_eq!(parse_rgb_i64(&"#ff00Aa".to_string()), (255, 0, 170));
    assert_eq!(parse_rgb_i64(&"#+F-F00".to_string()), (15, -15, 0));
}

#[test]
fn async_data_shares_on_clone() {
    let d = AsyncData::new(5);
    let e = d.clone();
    match (&d, &e) {
        (AsyncData::Loaded(a), AsyncData::Loaded(b)) => {
            assert!(Arc::ptr_eq(a, b));
            assert_eq!(**a, 5);
        },
        _ => panic!("not loaded"),
    }
    assert!(matches!(AsyncData::<i32>::Loading.clone(), AsyncData::Loading));
}
