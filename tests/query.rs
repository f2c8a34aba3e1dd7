use straindb::escaping::{
    clean_btyper_id, sql_check_name, sql_stringarg_escape, sql_stringarg_to_num, ValidationError,
};
use straindb::model::{ComparisonType, SearchCriteria, SearchSettings};
use straindb::number::is_float_text_exec;
use straindb::query::{build_straindb_search, join_strings};

fn like(field: &str, v: &str) -> SearchCriteria {
    SearchCriteria { field: field.to_string(), comparison: ComparisonType::Like(v.to_string()) }
}

fn range(field: &str, a: &str, b: &str) -> SearchCriteria {
    SearchCriteria {
        field: field.to_string(),
        comparison: ComparisonType::FromTo(a.to_string(), b.to_string()),
    }
}

#[test]
fn check_name_maps_spaces() {
    assert_eq!(sql_check_name(&"Quast N50".to_string()), Ok("Quast_N50".to_string()));
    assert_eq!(sql_check_name(&"Country(Code)".to_string()), Ok("Country(Code)".to_string()));
}

#[test]
fn check_name_refuses_empty() {
    assert_eq!(sql_check_name(&"".to_string()), Err(ValidationError::EmptyFieldName));
}

#[test]
fn escape_drops_unsafe_characters() {
    assert_eq!(sql_stringarg_escape(&"ab\"; DROP--x".to_string()), "ab DROP--x");
    assert_eq!(sql_stringarg_escape(&"Bacillus cereus, s.s._1".to_string()), "Bacillus cereus, s.s._1");
    assert_eq!(sql_stringarg_escape(&"tab\there\u{3000}é'".to_string()), "tab\there\u{3000}");
    assert_eq!(sql_stringarg_escape(&"".to_string()), "");
}

#[test]
fn number_text_follows_float_grammar() {
    for ok in ["1.5", "1e5", "-.5", "+3.", "2E-7", "inf", "-Infinity", "NaN", "007", "1.5e+3"] {
        assert!(is_float_text_exec(ok), "{}", ok);
        assert!(ok.parse::<f64>().is_ok(), "{}", ok);
    }
    for bad in ["", "abc", "1.2.3", "+", ".", "1e", "e5", " 1", "1 ", "1;", "0x10", "--1", "infinite"] {
        assert!(!is_float_text_exec(bad), "{}", bad);
        assert!(bad.parse::<f64>().is_err(), "{}", bad);
    }
}

#[test]
fn to_num_passes_numbers_only() {
    assert_eq!(sql_stringarg_to_num(&"42.5".to_string()), Ok("42.5".to_string()));
    assert_eq!(sql_stringarg_to_num(&"1; DROP".to_string()), Err(ValidationError::NotANumber));
}

#[test]
fn empty_search_has_no_where() {
    let q = build_straindb_search(&SearchSettings { criteria: vec![] }).unwrap();
    assert_eq!(q, "SELECT * FROM straindata  limit 6000");
    assert!(!q.contains("WHERE"));
    assert!(q.ends_with("limit 6000"));
}

#[test]
fn like_search_compiles() {
    let q = build_straindb_search(&SearchSettings { criteria: vec![like("GTDB Species", "Bacillus cereus")] })
        .unwrap();
    assert_eq!(q, "SELECT * FROM straindata  WHERE GTDB_Species LIKE \"Bacillus cereus\" limit 6000");
}

#[test]
fn range_and_like_search_compiles() {
    let q = build_straindb_search(&SearchSettings {
        criteria: vec![range("Quast_N50", "1000", "2e6"), like("Country", "USA")],
    })
    .unwrap();
    assert_eq!(
        q,
        "SELECT * FROM straindata  WHERE Quast_N50 > 1000 AND Quast_N50 < 2e6 AND Country LIKE \"USA\" limit 6000"
    );
}

#[test]
fn bad_bound_is_refused() {
    let r = build_straindb_search(&SearchSettings { criteria: vec![range("x", "1", "2; DROP TABLE straindata")] });
    assert_eq!(r, Err(ValidationError::NotANumber));
    let r = build_straindb_search(&SearchSettings { criteria: vec![range("x", "abc", "2")] });
    assert_eq!(r, Err(ValidationError::NotANumber));
}

#[test]
fn empty_field_is_refused() {
    let r = build_straindb_search(&SearchSettings { criteria: vec![like("a", "b"), like("", "x")] });
    assert_eq!(r, Err(ValidationError::EmptyFieldName));
    let r = build_straindb_search(&SearchSettings { criteria: vec![range("", "x", "y")] });
    assert_eq!(r, Err(ValidationError::EmptyFieldName));
}

#[test]
fn first_error_decides() {
    let r = build_straindb_search(&SearchSettings { criteria: vec![range("a", "x", "1"), like("", "v")] });
    assert_eq!(r, Err(ValidationError::NotANumber));
}

#[test]
fn injection_does_not_reach_sql() {
    let evil = "X\"; DROP TABLE straindata; --";
    let q = build_straindb_search(&SearchSettings { criteria: vec![like("id", evil)] }).unwrap();
    assert!(!q.contains(evil));
    assert!(!q.contains(';'));
    assert_eq!(q.matches('"').count(), 2);
    assert_eq!(q, "SELECT * FROM straindata  WHERE id LIKE \"X DROP TABLE straindata --\" limit 6000");
}

#[test]
fn identifier_cannot_traverse() {
    let s = clean_btyper_id(&"../../etc/passwd".to_string());
    assert_eq!(s, "....etcpasswd");
    assert!(!s.contains('/'));
}

#[test]
fn join_puts_separator_between() {
    let v = vec!["a".to_string(), "b".to_string(), "c".to_string()];
    assert_eq!(join_strings(&v, " AND "), "a AND b AND c");
    assert_eq!(join_strings(&vec![], " AND "), "");
    assert_eq!(join_strings(&vec!["x".to_string()], ", "), "x");
}
