//! Universal SQLite exploration layer: detects what kind of filter each column
//! of any table or view supports, builds the parameterised queries of a
//! filtered dashboard, and fills report templates from the results.

pub mod texto;
pub mod fraccion;
pub mod orden;
pub mod db;
pub mod redactor;
pub mod config;
pub mod sesion;
pub mod export;
