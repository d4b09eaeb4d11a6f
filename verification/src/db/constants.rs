//! Thresholds and defaults of the detection rules. Every ratio threshold is a
//! fraction `NUM / DEN`, compared exactly.

use vstd::prelude::*;

verus! {

/// Most distinct values a column may have to be offered as a category.
pub const MAX_CATEGORICAL_VALUES: u64 = 50;

/// Average text length above which a text column is taken for a description.
pub const MAX_TEXT_LENGTH_THRESHOLD: u64 = 80;

/// Rows sampled to measure a text column.
pub const SAMPLE_SIZE: usize = 1000;

/// Most rows a dashboard page shows.
pub const TABLE_LIMIT: usize = 500;

/// Rows fetched for the PDF export.
pub const PDF_ROW_LIMIT: usize = 200;

/// Distinct-to-total ratio above which an integer column is taken for a key: 4/5.
pub const PK_RATIO_THRESHOLD_NUM: u64 = 4;

pub const PK_RATIO_THRESHOLD_DEN: u64 = 5;

/// Share of rows a status pattern must match to count as present: 1/100.
pub const STATUS_THRESHOLD_NUM: u64 = 1;

pub const STATUS_THRESHOLD_DEN: u64 = 100;

/// Share of rows both patterns together must match: 1/2.
pub const STATUS_COMBINED_THRESHOLD_NUM: u64 = 1;

pub const STATUS_COMBINED_THRESHOLD_DEN: u64 = 2;

/// Longest value that counts as short in a status column.
pub const STATUS_SHORT_LENGTH_THRESHOLD: u64 = 25;

/// Share of short distinct values a status column needs: 4/5.
pub const STATUS_SHORT_RATIO_THRESHOLD_NUM: u64 = 4;

pub const STATUS_SHORT_RATIO_THRESHOLD_DEN: u64 = 5;

/// Distinct-to-total ratio below which a column looks like a status: 3/10.
pub const STATUS_DISTINCT_RATIO_THRESHOLD_NUM: u64 = 3;

pub const STATUS_DISTINCT_RATIO_THRESHOLD_DEN: u64 = 10;

/// Fewest distinct values of a status column.
pub const STATUS_MIN_DISTINCT: i64 = 2;

/// Most distinct values of a status column.
pub const STATUS_MAX_DISTINCT: i64 = 10;

/// Base score of a column shaped like a status: 1/2.
pub const STATUS_SCORE_BASE_NUM: u64 = 1;

pub const STATUS_SCORE_BASE_DEN: u64 = 2;

/// Factor applied when both statuses are present.
pub const STATUS_BOTH_MULTIPLIER: u64 = 2;

/// Weight of the coverage in a status score: 3/10.
pub const STATUS_COVERAGE_MULTIPLIER_NUM: u64 = 3;

pub const STATUS_COVERAGE_MULTIPLIER_DEN: u64 = 10;

/// Most groups the group-by query returns.
pub const GROUP_BY_LIMIT: u64 = 50;

/// Fewest foreign keys to catalogue tables for the joined mode.
pub const MIN_FK_COUNT_FOR_OPTIMIZATION: usize = 3;

pub const DEFAULT_PENDING_PATTERN: &'static str = "PEND";

pub const DEFAULT_SIGNED_PATTERN: &'static str = "FIRM";

/// The selection of a categorical filter that means "no filter".
pub const FILTRO_TODOS: &'static str = "__todos__";

pub const DEFAULT_PAGE_SIZE: usize = 10;

pub const DEFAULT_PK_FALLBACK: &'static str = "rowid";

pub const DATE_FORMAT: &'static str = "%d/%m/%Y";

pub const DATE_FORMAT_HINT: &'static str = "DD/MM/AAAA";

pub const FK_KEY_SEPARATOR: &'static str = ".";

pub const FK_ALIAS_PREFIX: &'static str = "c_";

/// The settings of the detection rules.
#[derive(Debug, Clone)]
pub struct AnalyseConfig {
    pub catalog_prefix: String,
    pub fk_id_prefix: String,
    pub preferred_name_cols: Vec<String>,
    pub exclude_id_prefix: String,
    pub exclude_name_cols: Vec<String>,
    pub view_keywords: Vec<String>,
    pub fallback_pk_name: String,
    pub redactor_placeholders: Vec<String>,
}

/// The views of a list of strings.
pub open spec fn vistas(v: Seq<String>) -> Seq<Seq<char>> {
    v.map_values(|s: String| s@)
}

impl Default for AnalyseConfig {
    fn default() -> (r: Self)
        ensures
            r.catalog_prefix@ == "cat_"@,
            r.fk_id_prefix@ == "id_"@,
            vistas(r.preferred_name_cols@) == seq!["nombre"@, "name"@, "descripcion"@, "desc"@],
            r.exclude_id_prefix@ == "id"@,
            vistas(r.exclude_name_cols@) == seq!["created_at"@, "updated_at"@],
            vistas(r.view_keywords@) == seq!["reporte"@, "excel"@, "vw_"@, "vista"@],
            r.fallback_pk_name@ == DEFAULT_PK_FALLBACK@,
            vistas(r.redactor_placeholders@) == seq!["#total"@, "#pendientes"@, "#firmados"@],
    {
        let mut preferred_name_cols: Vec<String> = Vec::new();
        preferred_name_cols.push(String::from_str("nombre"));
        preferred_name_cols.push(String::from_str("name"));
        preferred_name_cols.push(String::from_str("descripcion"));
        preferred_name_cols.push(String::from_str("desc"));
        let mut exclude_name_cols: Vec<String> = Vec::new();
        exclude_name_cols.push(String::from_str("created_at"));
        exclude_name_cols.push(String::from_str("updated_at"));
        let mut view_keywords: Vec<String> = Vec::new();
        view_keywords.push(String::from_str("reporte"));
        view_keywords.push(String::from_str("excel"));
        view_keywords.push(String::from_str("vw_"));
        view_keywords.push(String::from_str("vista"));
        let mut redactor_placeholders: Vec<String> = Vec::new();
        redactor_placeholders.push(String::from_str("#total"));
        redactor_placeholders.push(String::from_str("#pendientes"));
        redactor_placeholders.push(String::from_str("#firmados"));
        let r = AnalyseConfig {
            catalog_prefix: String::from_str("cat_"),
            fk_id_prefix: String::from_str("id_"),
            preferred_name_cols,
            exclude_id_prefix: String::from_str("id"),
            exclude_name_cols,
            view_keywords,
            fallback_pk_name: String::from_str(DEFAULT_PK_FALLBACK),
            redactor_placeholders,
        };
        assert(vistas(r.preferred_name_cols@) =~= seq!["nombre"@, "name"@, "descripcion"@, "desc"@]);
        assert(vistas(r.exclude_name_cols@) =~= seq!["created_at"@, "updated_at"@]);
        assert(vistas(r.view_keywords@) =~= seq!["reporte"@, "excel"@, "vw_"@, "vista"@]);
        assert(vistas(r.redactor_placeholders@) =~= seq!["#total"@, "#pendientes"@, "#firmados"@]);
        r
    }
}

} // verus!
