//! The data that the exploration and the dashboard hand around.

use vstd::prelude::*;
use crate::db::sqlite::{texto_de_real, texto_real, Real};
use crate::texto::{decimal_con_signo, texto_entero};
use crate::texto::vista_textos;

verus! {

/// What the exploration found in a database.
#[derive(Debug, Clone)]
pub struct SchemaMetadata {
    pub vista_principal: String,
    pub tablas: Vec<String>,
    pub columnas: Vec<ColumnaInfo>,
    pub dependencias: Vec<DependenciaInfo>,
}

impl Default for SchemaMetadata {
    fn default() -> (r: Self)
        ensures
            r.vista_principal@.len() == 0,
            r.tablas.len() == 0,
            r.columnas.len() == 0,
            r.dependencias.len() == 0,
    {
        SchemaMetadata {
            vista_principal: String::new(),
            tablas: Vec::new(),
            columnas: Vec::new(),
            dependencias: Vec::new(),
        }
    }
}

/// A value a categorical column takes (what the database returned: a REAL,
/// an INTEGER or a text).
#[derive(Debug, Clone)]
pub enum ValorColumna {
    Real(Real),
    Entero(i64),
    Texto(String),
}

/// A column value as text: a text as it is, a number as its numeral.
pub open spec fn texto_de_valor(v: ValorColumna) -> Seq<char> {
    match v {
        ValorColumna::Real(x) => texto_de_real(x),
        ValorColumna::Entero(i) => decimal_con_signo(i as int),
        ValorColumna::Texto(t) => t@,
    }
}

pub fn texto_valor(v: &ValorColumna) -> (r: String)
    ensures
        r@ == texto_de_valor(*v),
{
    match v {
        ValorColumna::Real(x) => texto_real(x),
        ValorColumna::Entero(i) => texto_entero(*i),
        ValorColumna::Texto(t) => t.clone(),
    }
}

/// How a column can be filtered, and what was measured of it. `tipo` is one
/// of `categorical`, `categorical_fk`, `date`, `numeric`, `text_search`.
#[derive(Debug, Clone)]
pub struct ColumnaInfo {
    pub nombre: String,
    pub tipo: String,
    pub valores: Option<Vec<ValorColumna>>,
    pub total_distintos: Option<u64>,
    pub min: Option<Real>,
    pub max: Option<Real>,
    pub fecha_min: Option<String>,
    pub fecha_max: Option<String>,
    pub col_original: Option<String>,
    pub tabla_catalogo: Option<String>,
    pub col_nombre_catalogo: Option<String>,
}

/// Which values of a dependent column go with each value of its parent
/// column: `mapeo` pairs each parent value, once, with its child values.
#[derive(Debug, Clone)]
pub struct DependenciaInfo {
    pub columna_padre: String,
    pub columna_dependiente: String,
    pub mapeo: Vec<(String, Vec<String>)>,
}

/// One page of a filtered table, with its counts. `tabla` holds one row per
/// record, each with one text per name of `columnas_tabla`; `por_grupo` the
/// groups of the group-by column with their sizes, largest first.
#[derive(Debug, Clone)]
pub struct DashboardData {
    pub total_pendientes: u64,
    pub total_firmados: u64,
    pub total_general: u64,
    pub total_matching: u64,
    pub current_page: usize,
    pub page_size: usize,
    pub por_grupo: Vec<(String, u64)>,
    pub grupo_actual: String,
    pub tabla: Vec<Vec<String>>,
    pub columnas_tabla: Vec<String>,
}

impl Default for DashboardData {
    fn default() -> (r: Self)
        ensures
            r.total_pendientes == 0,
            r.total_firmados == 0,
            r.total_general == 0,
            r.total_matching == 0,
            r.current_page == 1,
            r.page_size == super::constants::DEFAULT_PAGE_SIZE,
            r.por_grupo.len() == 0,
            r.grupo_actual@.len() == 0,
            r.tabla.len() == 0,
            r.columnas_tabla.len() == 0,
    {
        DashboardData {
            total_pendientes: 0,
            total_firmados: 0,
            total_general: 0,
            total_matching: 0,
            current_page: 1,
            page_size: super::constants::DEFAULT_PAGE_SIZE,
            por_grupo: Vec::new(),
            grupo_actual: String::new(),
            tabla: Vec::new(),
            columnas_tabla: Vec::new(),
        }
    }
}

/// The value a filter widget currently holds.
#[derive(Debug, Clone)]
pub enum FiltroValor {
    Categorical { selected: String },
    CategoricalFK {
        selected: String,
        col_original: String,
        tabla_catalogo: String,
        col_nombre: String,
    },
    Date { desde: String, hasta: String },
    Numeric { min: Real, max: Real, orig_min: Real, orig_max: Real },
    TextSearch { query: String },
}

/// What the sidebar needs to draw the filter of one column.
#[derive(Debug, Clone)]
pub struct FiltroInfo {
    pub nombre: String,
    pub tipo: String,
    pub valores: Option<Vec<String>>,
    pub min: Option<Real>,
    pub max: Option<Real>,
    pub fecha_min: Option<String>,
    pub fecha_max: Option<String>,
    pub col_original: Option<String>,
    pub tabla_catalogo: Option<String>,
    pub col_nombre_catalogo: Option<String>,
}

/// A filter description as plain values: each text by its characters.
pub struct FiltroVista {
    pub nombre: Seq<char>,
    pub tipo: Seq<char>,
    pub valores: Option<Seq<Seq<char>>>,
    pub min: Option<Real>,
    pub max: Option<Real>,
    pub fecha_min: Option<Seq<char>>,
    pub fecha_max: Option<Seq<char>>,
    pub col_original: Option<Seq<char>>,
    pub tabla_catalogo: Option<Seq<char>>,
    pub col_nombre_catalogo: Option<Seq<char>>,
}

/// An optional text by its characters.
pub open spec fn vista_opcional(o: Option<String>) -> Option<Seq<char>> {
    match o {
        Some(s) => Some(s@),
        None => None,
    }
}

impl View for FiltroInfo {
    type V = FiltroVista;

    open spec fn view(&self) -> FiltroVista {
        FiltroVista {
            nombre: self.nombre@,
            tipo: self.tipo@,
            valores: match self.valores {
                Some(v) => Some(vista_textos(v@)),
                None => None,
            },
            min: self.min,
            max: self.max,
            fecha_min: vista_opcional(self.fecha_min),
            fecha_max: vista_opcional(self.fecha_max),
            col_original: vista_opcional(self.col_original),
            tabla_catalogo: vista_opcional(self.tabla_catalogo),
            col_nombre_catalogo: vista_opcional(self.col_nombre_catalogo),
        }
    }
}

/// The target of a foreign key: its table and column.
#[derive(Debug, Clone)]
pub struct FkInfo {
    pub tabla: String,
    pub columna: String,
}

/// A row of `PRAGMA table_info`, with the declared type in upper case.
#[derive(Debug)]
pub struct ColumnaRaw {
    pub _cid: i32,
    pub name: String,
    pub col_type: String,
    pub _notnull: bool,
    pub _dflt_value: Option<String>,
    pub pk: bool,
}

/// A foreign key of the base table to a catalogue, and how to show it.
#[derive(Debug, Clone)]
pub struct FKOptimizada {
    pub col_id: String,
    pub tabla_catalogo: String,
    pub col_nombre: String,
    pub nombre_display: String,
    pub pk_col: String,
}

/// How the dashboard reads a table: directly, or as its base table joined
/// with the catalogues its foreign keys point to.
#[derive(Debug, Clone)]
pub enum ModoOptimizacion {
    Universal,
    VistaConFKs { tabla_base: String, fks: Vec<FKOptimizada> },
}

impl ModoOptimizacion {
    pub fn es_universal(&self) -> (r: bool)
        ensures
            r == (self is Universal),
    {
        match self {
            ModoOptimizacion::Universal => true,
            ModoOptimizacion::VistaConFKs { .. } => false,
        }
    }

    pub fn fks(&self) -> (r: &[FKOptimizada])
        ensures
            self is Universal ==> r@.len() == 0,
            self is VistaConFKs ==> r@ == self->fks@,
    {
        match self {
            ModoOptimizacion::Universal => &[],
            ModoOptimizacion::VistaConFKs { fks, .. } => fks.as_slice(),
        }
    }

    pub fn tabla_base(&self) -> (r: Option<&str>)
        ensures
            self is Universal ==> r is None,
            self is VistaConFKs ==> (r matches Some(t) && t@ == self->tabla_base@),
    {
        match self {
            ModoOptimizacion::Universal => None,
            ModoOptimizacion::VistaConFKs { tabla_base, .. } => Some(tabla_base.as_str()),
        }
    }
}

} // verus!
