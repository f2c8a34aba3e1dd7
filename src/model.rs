use vstd::prelude::*;

use crate::text::str_eq;

verus! {

/// A table of display text: column names, and rows of cells in column order.
#[derive(Debug, Clone, PartialEq, Eq)]
pub struct TableData {
    pub columns: Vec<String>,
    pub rows: Vec<Vec<String>>,
}

/// The texts of a list of strings.
pub open spec fn texts(v: Seq<String>) -> Seq<Seq<char>> {
    v.map_values(|s: String| s@)
}

impl TableData {
    /// The column names.
    pub open spec fn column_texts(&self) -> Seq<Seq<char>> {
        texts(self.columns@)
    }

    /// The rows, each as the texts of its cells.
    pub open spec fn row_texts(&self) -> Seq<Seq<Seq<char>>> {
        self.rows@.map_values(|r: Vec<String>| texts(r@))
    }

    /// Every row has one cell per column.
    pub open spec fn well_formed(&self) -> bool {
        forall|i: int| 0 <= i < self.rows@.len() ==> #[trigger] self.rows@[i]@.len() == self.columns@.len()
    }
}

/// A request for the sequence files of a list of records.
#[derive(Debug, Clone, PartialEq, Eq)]
pub struct StrainRequest {
    pub list: Vec<String>,
}

/// A tree in Newick notation.
#[derive(Debug, Clone, PartialEq, Eq)]
pub struct TreeData {
    pub tree_str: String,
}

/// How a field is compared: a text it must match, or the open interval
/// between two numbers.
#[derive(Debug, Clone, PartialEq, Eq)]
pub enum ComparisonType {
    Like(String),
    FromTo(String, String),
}

/// A comparison, as texts.
pub ghost enum ComparisonView {
    Like(Seq<char>),
    FromTo(Seq<char>, Seq<char>),
}

impl View for ComparisonType {
    type V = ComparisonView;

    open spec fn view(&self) -> ComparisonView {
        match self {
            ComparisonType::Like(v) => ComparisonView::Like(v@),
            ComparisonType::FromTo(a, b) => ComparisonView::FromTo(a@, b@),
        }
    }
}

/// One filter condition: a field label and how the field is compared.
#[derive(Debug, Clone, PartialEq, Eq)]
pub struct SearchCriteria {
    pub field: String,
    pub comparison: ComparisonType,
}

/// A filter condition, as texts.
pub ghost struct CriterionView {
    pub field: Seq<char>,
    pub comparison: ComparisonView,
}

impl View for SearchCriteria {
    type V = CriterionView;

    open spec fn view(&self) -> CriterionView {
        CriterionView { field: self.field@, comparison: self.comparison@ }
    }
}

/// A search: the conjunction of its criteria, in order.
#[derive(Debug, Clone, PartialEq, Eq)]
pub struct SearchSettings {
    pub criteria: Vec<SearchCriteria>,
}

impl View for SearchSettings {
    type V = Seq<CriterionView>;

    open spec fn view(&self) -> Seq<CriterionView> {
        self.criteria@.map_values(|c: SearchCriteria| c@)
    }
}

/// What is known of one column of the strain table.
#[derive(Debug, Clone, PartialEq, Eq)]
pub struct DatabaseColumn {
    pub column_id: String,
    pub column_type: String,
    pub default_v1: String,
    pub default_v2: String,
    pub default_show_column: String,
    pub dropdown: bool,
    pub display: bool,
    pub search: bool,
    pub print: bool,
    pub notes: String,
}

/// A named histogram: each value with its count.
#[derive(Debug, Clone, PartialEq, Eq)]
pub struct OneStats {
    pub name: String,
    pub hist: Vec<(String, i32)>,
}

/// What is known of the strain table as a whole: its record count, its
/// columns (a lookup by id takes the first column with that id), the fixed
/// lists of values that some columns offer, and histograms for display.
#[derive(Debug, Clone, PartialEq, Eq)]
pub struct DatabaseMetadata {
    pub num_strain: i32,
    pub columns: Vec<DatabaseColumn>,
    pub column_dropdown: Vec<(String, Vec<String>)>,
    pub list_hist: Vec<OneStats>,
    pub hist_country: Vec<(String, i32)>,
}

/// The field labels of the default search, in order.
pub open spec fn default_search_labels() -> Seq<Seq<char>> {
    seq![
        "CheckM_Completeness"@,
        "CheckM_Contamination"@,
        "Quast_N50"@,
        "Kraken_Phylum(Bacillota)"@,
    ]
}

/// The comparison that a column offers before the user edits it: a text
/// match on its first default for a text column, the interval between its
/// two defaults for a numeric one, and a match on nothing otherwise.
pub open spec fn default_comparison_of(column_type: Seq<char>, v1: Seq<char>, v2: Seq<char>) -> ComparisonView {
    if column_type == "text"@ {
        ComparisonView::Like(v1)
    } else if column_type == "float"@ || column_type == "integer"@ {
        ComparisonView::FromTo(v1, v2)
    } else {
        ComparisonView::Like(Seq::empty())
    }
}

/// The criterion that a column offers before the user edits it.
pub open spec fn default_criterion_of(col: DatabaseColumn) -> CriterionView {
    CriterionView {
        field: col.column_id@,
        comparison: default_comparison_of(col.column_type@, col.default_v1@, col.default_v2@),
    }
}

impl ComparisonType {
    /// The comparison that a column offers before the user edits it.
    pub fn default_comparison(db: &DatabaseColumn) -> (r: ComparisonType)
        ensures
            r@ == default_comparison_of(db.column_type@, db.default_v1@, db.default_v2@),
    {
        if str_eq(db.column_type.as_str(), "text") {
            ComparisonType::Like(db.default_v1.clone())
        } else if str_eq(db.column_type.as_str(), "float") || str_eq(
            db.column_type.as_str(),
            "integer",
        ) {
            ComparisonType::FromTo(db.default_v1.clone(), db.default_v2.clone())
        } else {
            ComparisonType::Like(String::new())
        }
    }
}

impl SearchCriteria {
    /// A criterion with no field that matches the empty text.
    pub fn new() -> (r: SearchCriteria)
        ensures
            r@ == (CriterionView { field: Seq::empty(), comparison: ComparisonView::Like(Seq::empty()) }),
    {
        SearchCriteria { field: String::new(), comparison: ComparisonType::Like(String::new()) }
    }

    /// The criterion that a column offers before the user edits it.
    pub fn default_search(col: &DatabaseColumn) -> (r: SearchCriteria)
        ensures
            r@ == default_criterion_of(*col),
    {
        let comp = ComparisonType::default_comparison(col);
        SearchCriteria { field: col.column_id.clone(), comparison: comp }
    }
}

impl SearchSettings {
    /// The search shown before any metadata is known: one criterion on the
    /// record id per default label, each matching that label.
    pub fn new() -> (r: SearchSettings)
        ensures
            r@.len() == default_search_labels().len(),
            forall|i: int|
                0 <= i < r@.len() ==> #[trigger] r@[i] == (CriterionView {
                    field: "BTyperDB_ID"@,
                    comparison: ComparisonView::Like(default_search_labels()[i]),
                }),
    {
        let mut list_default: Vec<String> = Vec::new();
        list_default.push(String::from_str("CheckM_Completeness"));
        list_default.push(String::from_str("CheckM_Contamination"));
        list_default.push(String::from_str("Quast_N50"));
        list_default.push(String::from_str("Kraken_Phylum(Bacillota)"));
        assert(texts(list_default@) =~= default_search_labels());
        let mut list_fields: Vec<SearchCriteria> = Vec::new();
        let mut i: usize = 0;
        while i < list_default.len()
            invariant
                i <= list_default@.len(),
                texts(list_default@) == default_search_labels(),
                list_fields@.len() == i,
                forall|j: int|
                    0 <= j < i ==> #[trigger] list_fields@[j]@ == (CriterionView {
                        field: "BTyperDB_ID"@,
                        comparison: ComparisonView::Like(default_search_labels()[j]),
                    }),
            decreases list_default@.len() - i,
        {
            assert(texts(list_default@)[i as int] == list_default@[i as int]@);
            let c = SearchCriteria {
                field: String::from_str("BTyperDB_ID"),
                comparison: ComparisonType::Like(list_default[i].clone()),
            };
            list_fields.push(c);
            i = i + 1;
        }
        SearchSettings { criteria: list_fields }
    }
}

impl DatabaseMetadata {
    /// Metadata of a table that is not known yet: a strain count of -1 and
    /// everything else empty.
    pub fn new() -> (r: DatabaseMetadata)
        ensures
            r.num_strain == -1,
            r.columns@.len() == 0,
            r.column_dropdown@.len() == 0,
            r.list_hist@.len() == 0,
            r.hist_country@.len() == 0,
    {
        DatabaseMetadata {
            num_strain: -1,
            columns: Vec::new(),
            column_dropdown: Vec::new(),
            list_hist: Vec::new(),
            hist_country: Vec::new(),
        }
    }

    /// Whether column `j` is the first one with the id `id`.
    pub open spec fn is_first_column(&self, j: int, id: Seq<char>) -> bool {
        0 <= j < self.columns@.len() && self.columns@[j].column_id@ == id && forall|k: int|
            0 <= k < j ==> #[trigger] self.columns@[k].column_id@ != id
    }

    /// Whether some column has the id `id`.
    pub open spec fn has_column(&self, id: Seq<char>) -> bool {
        exists|j: int| 0 <= j < self.columns@.len() && #[trigger] self.columns@[j].column_id@ == id
    }

    /// The position of the first column with the id `id`.
    pub open spec fn column_index(&self, id: Seq<char>) -> int {
        choose|j: int| self.is_first_column(j, id)
    }

    proof fn lemma_first_column_unique(&self, j: int, id: Seq<char>)
        requires
            self.is_first_column(j, id),
        ensures
            self.column_index(id) == j,
    {
        let k = self.column_index(id);
        assert(self.is_first_column(k, id));
        if k < j {
            assert(self.columns@[k].column_id@ != id);
        } else if k > j {
            assert(self.columns@[j].column_id@ != id);
        }
    }

    /// The position of the first column with the id `id`, if there is one.
    pub fn find_column(&self, id: &str) -> (r: Option<usize>)
        ensures
            r is None <==> !self.has_column(id@),
            r matches Some(j) ==> self.is_first_column(j as int, id@) && j == self.column_index(id@),
    {
        let mut j: usize = 0;
        while j < self.columns.len()
            invariant
                j <= self.columns@.len(),
                forall|k: int| 0 <= k < j ==> #[trigger] self.columns@[k].column_id@ != id@,
            decreases self.columns@.len() - j,
        {
            if str_eq(self.columns[j].column_id.as_str(), id) {
                proof {
                    self.lemma_first_column_unique(j as int, id@);
                }
                return Some(j);
            }
            j = j + 1;
        }
        None
    }

    /// The search offered once the metadata is known: for each default label,
    /// the default criterion of the column with that id.
    pub fn make_default_search(&self) -> (r: SearchSettings)
        requires
            forall|i: int| 0 <= i < default_search_labels().len() ==> self.has_column(#[trigger] default_search_labels()[i]),
        ensures
            r@.len() == default_search_labels().len(),
            forall|i: int|
                0 <= i < r@.len() ==> #[trigger] r@[i] == default_criterion_of(
                    self.columns@[self.column_index(default_search_labels()[i])],
                ),
    {
        let mut list_default: Vec<String> = Vec::new();
        list_default.push(String::from_str("CheckM_Completeness"));
        list_default.push(String::from_str("CheckM_Contamination"));
        list_default.push(String::from_str("Quast_N50"));
        list_default.push(String::from_str("Kraken_Phylum(Bacillota)"));
        assert(texts(list_default@) =~= default_search_labels());
        let mut list_fields: Vec<SearchCriteria> = Vec::new();
        let mut i: usize = 0;
        while i < list_default.len()
            invariant
                i <= list_default@.len(),
                texts(list_default@) == default_search_labels(),
                forall|i: int| 0 <= i < default_search_labels().len() ==> self.has_column(#[trigger] default_search_labels()[i]),
                list_fields@.len() == i,
                forall|k: int|
                    0 <= k < i ==> #[trigger] list_fields@[k]@ == default_criterion_of(
                        self.columns@[self.column_index(default_search_labels()[k])],
                    ),
            decreases list_default@.len() - i,
        {
            assert(texts(list_default@)[i as int] == list_default@[i as int]@);
            assert(self.has_column(default_search_labels()[i as int]));
            let j = self.find_column(list_default[i].as_str());
            let j = j.unwrap();
            let c = SearchCriteria::default_search(&self.columns[j]);
            list_fields.push(c);
            i = i + 1;
        }
        let r = SearchSettings { criteria: list_fields };
        assert forall|i: int| 0 <= i < r@.len() implies #[trigger] r@[i] == default_criterion_of(
            self.columns@[self.column_index(default_search_labels()[i])],
        ) by {
            assert(r@[i] == list_fields@[i]@);
        }
        r
    }
}

/// The truth value that a metadata file writes as `1` or `0`.
pub open spec fn flag_value(s: Seq<char>) -> Option<bool> {
    if s == "1"@ {
        Some(true)
    } else if s == "0"@ {
        Some(false)
    } else {
        None
    }
}

/// Reads a flag written as `1` or `0`; any other text is no flag.
pub fn parse_01bool(s: &str) -> (r: Option<bool>)
    ensures
        r == flag_value(s@),
{
    if str_eq(s, "1") {
        Some(true)
    } else if str_eq(s, "0") {
        Some(false)
    } else {
        None
    }
}

/// Writes a flag as `1` or `0`.
pub fn format_01bool(x: bool) -> (r: &'static str)
    ensures
        flag_value(r@) == Some(x),
{
    proof {
        reveal_strlit("1");
        reveal_strlit("0");
    }
    assert("1"@ != "0"@) by {
        assert("1"@[0] != "0"@[0]);
    }
    if x {
        "1"
    } else {
        "0"
    }
}

} // verus!
