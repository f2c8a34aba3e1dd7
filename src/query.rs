use vstd::prelude::*;

use crate::escaping::{
    column_name_of, safe_text, sql_check_name, sql_stringarg_escape, sql_stringarg_to_num,
    ValidationError,
};
use crate::model::{
    texts, ComparisonType, ComparisonView, CriterionView, DatabaseColumn, DatabaseMetadata,
    SearchSettings,
};
use crate::number::is_float_text;
use crate::text::{decimal_digits, decimal_text, is_safe_char, push_decimal_digits};

verus! {

/// The most rows that one search returns.
pub const ROW_LIMIT: u64 = 6000;

pub open spec fn select_text() -> Seq<char> {
    "SELECT * FROM straindata "@
}

pub open spec fn where_text() -> Seq<char> {
    " WHERE "@
}

pub open spec fn and_text() -> Seq<char> {
    " AND "@
}

pub open spec fn like_text() -> Seq<char> {
    " LIKE \""@
}

pub open spec fn quote_text() -> Seq<char> {
    "\""@
}

pub open spec fn greater_text() -> Seq<char> {
    " > "@
}

pub open spec fn less_text() -> Seq<char> {
    " < "@
}

/// The clause that caps the number of rows.
pub open spec fn limit_text() -> Seq<char> {
    " limit "@ + decimal_text(ROW_LIMIT as int)
}

/// Why one criterion cannot be compiled, if it cannot: a field label must not
/// be empty, and both bounds of a range must read as numbers.
pub open spec fn criterion_error(c: CriterionView) -> Option<ValidationError> {
    if c.field.len() == 0 {
        Some(ValidationError::EmptyFieldName)
    } else {
        match c.comparison {
            ComparisonView::Like(_) => None,
            ComparisonView::FromTo(a, b) => if is_float_text(a) && is_float_text(b) {
                None
            } else {
                Some(ValidationError::NotANumber)
            },
        }
    }
}

/// The error of the first criterion that cannot be compiled, if there is one.
pub open spec fn search_error(cs: Seq<CriterionView>) -> Option<ValidationError>
    decreases cs.len(),
{
    if cs.len() == 0 {
        None
    } else {
        match search_error(cs.drop_last()) {
            Some(e) => Some(e),
            None => criterion_error(cs.last()),
        }
    }
}

/// The SQL conditions of one criterion: `name LIKE "text"` for a text match,
/// with the text escaped, and `name > from`, `name < to` for a range.
pub open spec fn predicates_of(c: CriterionView) -> Seq<Seq<char>> {
    let name = column_name_of(c.field);
    match c.comparison {
        ComparisonView::Like(v) => seq![name + like_text() + safe_text(v) + quote_text()],
        ComparisonView::FromTo(a, b) => seq![name + greater_text() + a, name + less_text() + b],
    }
}

/// The SQL conditions of all criteria, in order.
pub open spec fn all_predicates(cs: Seq<CriterionView>) -> Seq<Seq<char>>
    decreases cs.len(),
{
    if cs.len() == 0 {
        Seq::empty()
    } else {
        all_predicates(cs.drop_last()) + predicates_of(cs.last())
    }
}

/// The parts, with `sep` between each two of them.
pub open spec fn joined(ps: Seq<Seq<char>>, sep: Seq<char>) -> Seq<char>
    decreases ps.len(),
{
    if ps.len() == 0 {
        Seq::empty()
    } else if ps.len() == 1 {
        ps[0]
    } else {
        joined(ps.drop_last(), sep) + sep + ps.last()
    }
}

/// The statement that a search compiles to: every column of the strain table,
/// the conjunction of the conditions of its criteria if it has any, and the
/// row cap.
pub open spec fn search_sql(cs: Seq<CriterionView>) -> Seq<char> {
    if cs.len() == 0 {
        select_text() + limit_text()
    } else {
        select_text() + where_text() + joined(all_predicates(cs), and_text()) + limit_text()
    }
}

/// The parts, with `sep` between each two of them.
pub fn join_strings(parts: &Vec<String>, sep: &str) -> (r: String)
    ensures
        r@ == joined(texts(parts@), sep@),
{
    let mut out = String::new();
    let mut i: usize = 0;
    while i < parts.len()
        invariant
            i <= parts@.len(),
            out@ == joined(texts(parts@).take(i as int), sep@),
        decreases parts@.len() - i,
    {
        let ghost before = texts(parts@).take(i as int);
        if i > 0 {
            out.append(sep);
        }
        out.append(parts[i].as_str());
        i = i + 1;
        proof {
            let now = texts(parts@).take(i as int);
            assert(now.drop_last() =~= before);
            assert(now.last() == parts@[i - 1]@);
            if i == 1 {
                assert(out@ =~= now[0]);
            }
        }
    }
    assert(texts(parts@).take(parts@.len() as int) =~= texts(parts@));
    out
}

proof fn lemma_all_predicates_push(cs: Seq<CriterionView>, c: CriterionView)
    ensures
        all_predicates(cs.push(c)) == all_predicates(cs) + predicates_of(c),
{
    assert(cs.push(c).drop_last() =~= cs);
}

proof fn lemma_search_error_push(cs: Seq<CriterionView>, c: CriterionView)
    ensures
        search_error(cs.push(c)) == match search_error(cs) {
            Some(e) => Some(e),
            None => criterion_error(c),
        },
{
    assert(cs.push(c).drop_last() =~= cs);
}

/// Compiles a search into one SQL statement over the strain table. Field labels
/// become column names, text matches are escaped, range bounds must read as
/// numbers, and the first criterion that breaks these rules decides the error.
pub fn build_straindb_search(search: &SearchSettings) -> (r: Result<String, ValidationError>)
    ensures
        search_error(search@) matches Some(e) ==> r == Err::<String, ValidationError>(e),
        search_error(search@) is None ==> r is Ok && r->Ok_0@ == search_sql(search@),
{
    let mut query = String::from_str("SELECT * FROM straindata ");
    if search.criteria.len() > 0 {
        query.append(" WHERE ");
        let mut list_formatted_crit: Vec<String> = Vec::new();
        let mut i: usize = 0;
        while i < search.criteria.len()
            invariant
                i <= search@.len(),
                search@.len() == search.criteria@.len(),
                search_error(search@.take(i as int)) is None,
                texts(list_formatted_crit@) == all_predicates(search@.take(i as int)),
                query@ == select_text() + where_text(),
            decreases search@.len() - i,
        {
            let crit = &search.criteria[i];
            let ghost cv = crit@;
            proof {
                assert(search@[i as int] == cv);
                assert(search@.take(i + 1) =~= search@.take(i as int).push(cv));
                lemma_search_error_push(search@.take(i as int), cv);
                lemma_all_predicates_push(search@.take(i as int), cv);
            }
            let name = match sql_check_name(&crit.field) {
                Ok(n) => n,
                Err(e) => {
                    proof {
                        lemma_search_error_prefix(search@, i as int + 1);
                    }
                    return Err(e);
                },
            };
            match &crit.comparison {
                ComparisonType::FromTo(from, to) => {
                    let a = match sql_stringarg_to_num(from) {
                        Ok(a) => a,
                        Err(e) => {
                            proof {
                                lemma_search_error_prefix(search@, i as int + 1);
                            }
                            return Err(e);
                        },
                    };
                    let b = match sql_stringarg_to_num(to) {
                        Ok(b) => b,
                        Err(e) => {
                            proof {
                                lemma_search_error_prefix(search@, i as int + 1);
                            }
                            return Err(e);
                        },
                    };
                    let mut p1 = name.clone();
                    p1.append(" > ");
                    p1.append(a.as_str());
                    let mut p2 = name;
                    p2.append(" < ");
                    p2.append(b.as_str());
                    list_formatted_crit.push(p1);
                    list_formatted_crit.push(p2);
                },
                ComparisonType::Like(v) => {
                    let mut p = name;
                    p.append(" LIKE \"");
                    p.append(sql_stringarg_escape(v).as_str());
                    p.append("\"");
                    list_formatted_crit.push(p);
                },
            }
            i = i + 1;
            assert(texts(list_formatted_crit@) =~= all_predicates(search@.take(i as int)));
        }
        assert(search@.take(search@.len() as int) =~= search@);
        let joined_text = join_strings(&list_formatted_crit, " AND ");
        query.append(joined_text.as_str());
    }
    query.append(" limit ");
    push_decimal_digits(&mut query, ROW_LIMIT);
    Ok(query)
}

/// An error in a prefix is the error of the whole search.
proof fn lemma_search_error_prefix(cs: Seq<CriterionView>, n: int)
    requires
        0 <= n <= cs.len(),
        search_error(cs.take(n)) is Some,
    ensures
        search_error(cs) == search_error(cs.take(n)),
    decreases cs.len() - n,
{
    if n < cs.len() {
        assert(cs.take(n + 1).drop_last() =~= cs.take(n));
        lemma_search_error_prefix(cs, n + 1);
    } else {
        assert(cs.take(n) =~= cs);
    }
}

/// Why one criterion cannot be compiled against a table with the column ids
/// `ids`: as without them, and otherwise when its column is not one of them.
pub open spec fn criterion_error_in(c: CriterionView, ids: Seq<Seq<char>>) -> Option<ValidationError> {
    match criterion_error(c) {
        Some(e) => Some(e),
        None => if ids.contains(column_name_of(c.field)) {
            None
        } else {
            Some(ValidationError::UnknownField)
        },
    }
}

/// The error of the first criterion that cannot be compiled against a table
/// with the column ids `ids`, if there is one.
pub open spec fn search_error_in(cs: Seq<CriterionView>, ids: Seq<Seq<char>>) -> Option<ValidationError>
    decreases cs.len(),
{
    if cs.len() == 0 {
        None
    } else {
        match search_error_in(cs.drop_last(), ids) {
            Some(e) => Some(e),
            None => criterion_error_in(cs.last(), ids),
        }
    }
}

/// The column ids that metadata knows.
pub open spec fn column_ids(meta: DatabaseMetadata) -> Seq<Seq<char>> {
    meta.columns@.map_values(|c: DatabaseColumn| c.column_id@)
}

proof fn lemma_checked_implies_plain(cs: Seq<CriterionView>, ids: Seq<Seq<char>>)
    requires
        search_error_in(cs, ids) is None,
    ensures
        search_error(cs) is None,
    decreases cs.len(),
{
    if cs.len() > 0 {
        lemma_checked_implies_plain(cs.drop_last(), ids);
    }
}

proof fn lemma_checked_error_prefix(cs: Seq<CriterionView>, ids: Seq<Seq<char>>, n: int)
    requires
        0 <= n <= cs.len(),
        search_error_in(cs.take(n), ids) is Some,
    ensures
        search_error_in(cs, ids) == search_error_in(cs.take(n), ids),
    decreases cs.len() - n,
{
    if n < cs.len() {
        assert(cs.take(n + 1).drop_last() =~= cs.take(n));
        lemma_checked_error_prefix(cs, ids, n + 1);
    } else {
        assert(cs.take(n) =~= cs);
    }
}

/// Compiles a search as `build_straindb_search` does, and also refuses a
/// criterion whose column the metadata does not know, so that no statement
/// names a column that is not there.
pub fn build_checked_search(search: &SearchSettings, meta: &DatabaseMetadata) -> (r: Result<String, ValidationError>)
    ensures
        search_error_in(search@, column_ids(*meta)) matches Some(e) ==> r == Err::<String, ValidationError>(e),
        search_error_in(search@, column_ids(*meta)) is None ==> r is Ok && r->Ok_0@ == search_sql(search@),
{
    let ghost ids = column_ids(*meta);
    let mut i: usize = 0;
    while i < search.criteria.len()
        invariant
            i <= search@.len(),
            search@.len() == search.criteria@.len(),
            ids == column_ids(*meta),
            search_error_in(search@.take(i as int), ids) is None,
        decreases search@.len() - i,
    {
        let crit = &search.criteria[i];
        let ghost cv = crit@;
        proof {
            assert(search@[i as int] == cv);
            assert(search@.take(i + 1).drop_last() =~= search@.take(i as int));
        }
        let name = match sql_check_name(&crit.field) {
            Ok(n) => n,
            Err(e) => {
                proof {
                    lemma_checked_error_prefix(search@, ids, i as int + 1);
                }
                return Err(e);
            },
        };
        let bounds_ok = match &crit.comparison {
            ComparisonType::FromTo(from, to) => {
                sql_stringarg_to_num(from).is_ok() && sql_stringarg_to_num(to).is_ok()
            },
            ComparisonType::Like(_) => true,
        };
        if !bounds_ok {
            proof {
                lemma_checked_error_prefix(search@, ids, i as int + 1);
            }
            return Err(ValidationError::NotANumber);
        }
        let found = meta.find_column(name.as_str());
        proof {
            if found is None {
                if ids.contains(name@) {
                    let j = choose|j: int| 0 <= j < ids.len() && ids[j] == name@;
                    assert(meta.columns@[j].column_id@ == name@);
                }
            } else {
                let j = found->Some_0 as int;
                assert(ids[j] == name@);
            }
        }
        if found.is_none() {
            proof {
                lemma_checked_error_prefix(search@, ids, i as int + 1);
            }
            return Err(ValidationError::UnknownField);
        }
        i = i + 1;
    }
    proof {
        assert(search@.take(search@.len() as int) =~= search@);
        lemma_checked_implies_plain(search@, ids);
    }
    build_straindb_search(search)
}

/// The statement that counts the rows of each value of a column, most
/// frequent value first.
pub open spec fn histogram_sql_of(column: Seq<char>) -> Seq<char> {
    "SELECT `"@ + column + "` as grp, count(*) as cnt FROM straindata group by grp ORDER BY cnt DESC"@
}

/// The statement that lists the distinct values of a column, in order.
pub open spec fn dropdown_sql_of(column: Seq<char>) -> Seq<char> {
    "SELECT distinct `"@ + column + "` as grp FROM straindata ORDER BY grp"@
}

/// The statement that counts the rows of each value of a column.
pub fn histogram_sql(column: &str) -> (r: String)
    ensures
        r@ == histogram_sql_of(column@),
{
    let mut q = String::from_str("SELECT `");
    q.append(column);
    q.append("` as grp, count(*) as cnt FROM straindata group by grp ORDER BY cnt DESC");
    q
}

/// The statement that lists the distinct values of a column.
pub fn dropdown_sql(column: &str) -> (r: String)
    ensures
        r@ == dropdown_sql_of(column@),
{
    let mut q = String::from_str("SELECT distinct `");
    q.append(column);
    q.append("` as grp FROM straindata ORDER BY grp");
    q
}

/// Whether `w` occurs in `s` as a contiguous run.
pub open spec fn contains_text(s: Seq<char>, w: Seq<char>) -> bool {
    exists|i: int| 0 <= i && i + w.len() <= s.len() && #[trigger] s.subrange(i, i + w.len()) == w
}

proof fn lemma_no_error_in_any(cs: Seq<CriterionView>, i: int)
    requires
        search_error(cs) is None,
        0 <= i < cs.len(),
    ensures
        criterion_error(cs[i]) is None,
    decreases cs.len(),
{
    if i < cs.len() - 1 {
        assert(cs.drop_last()[i] == cs[i]);
        lemma_no_error_in_any(cs.drop_last(), i);
    }
}

/// A search without criteria compiles: to every column of the strain table,
/// with no `WHERE` clause, capped at the row limit.
pub proof fn law_empty_search_has_no_filter(cs: Seq<CriterionView>)
    requires
        cs.len() == 0,
    ensures
        search_error(cs) is None,
        search_sql(cs) == "SELECT * FROM straindata  limit 6000"@,
        !contains_text(search_sql(cs), "WHERE"@),
{
    reveal_strlit("SELECT * FROM straindata ");
    reveal_strlit(" limit ");
    reveal_strlit("SELECT * FROM straindata  limit 6000");
    reveal_strlit("WHERE");
    reveal_with_fuel(decimal_digits, 5);
    let s = search_sql(cs);
    assert(s =~= "SELECT * FROM straindata  limit 6000"@);
    assert forall|i: int| 0 <= i && i + 5 <= s.len() implies #[trigger] s.subrange(i, i + 5) != "WHERE"@ by {
        assert(s.subrange(i, i + 5)[0] == s[i]);
        assert("WHERE"@[0] == 'W');
    }
}

/// A range whose bounds do not both read as numbers makes the whole search
/// fail to compile.
pub proof fn law_bad_range_bound_is_refused(cs: Seq<CriterionView>, i: int)
    requires
        0 <= i < cs.len(),
        cs[i].comparison matches ComparisonView::FromTo(a, b) && !(is_float_text(a) && is_float_text(b)),
    ensures
        search_error(cs) is Some,
{
    if search_error(cs) is None {
        lemma_no_error_in_any(cs, i);
    }
}

/// A criterion without a field label makes the whole search fail to compile.
pub proof fn law_empty_field_is_refused(cs: Seq<CriterionView>, i: int)
    requires
        0 <= i < cs.len(),
        cs[i].field.len() == 0,
    ensures
        search_error(cs) is Some,
{
    if search_error(cs) is None {
        lemma_no_error_in_any(cs, i);
    }
}

/// A text match compiles to one condition whose quoted literal holds only
/// safe characters, so never a quote or a semicolon; and a text that holds
/// any other character does not reach the statement as it was written.
pub proof fn law_like_literal_is_safe(field: Seq<char>, v: Seq<char>)
    ensures
        predicates_of(CriterionView { field, comparison: ComparisonView::Like(v) }) == seq![
            column_name_of(field) + like_text() + safe_text(v) + quote_text(),
        ],
        forall|j: int| 0 <= j < safe_text(v).len() ==> is_safe_char(#[trigger] safe_text(v)[j]),
        !safe_text(v).contains('"'),
        !safe_text(v).contains(';'),
        (exists|j: int| 0 <= j < v.len() && !is_safe_char(#[trigger] v[j])) ==> safe_text(v) != v,
{
    v.filter_lemma(|c: char| is_safe_char(c));
    if exists|j: int| 0 <= j < v.len() && !is_safe_char(#[trigger] v[j]) {
        let j = choose|j: int| 0 <= j < v.len() && !is_safe_char(#[trigger] v[j]);
        if safe_text(v) == v {
            assert(is_safe_char(safe_text(v)[j]));
        }
    }
}

} // verus!
