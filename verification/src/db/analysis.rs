//! How each column can be filtered, which column holds the status, which
//! column names a catalogue row, and which columns depend on others.

use vstd::prelude::*;
use crate::db::constants::{self, vistas, AnalyseConfig};
use crate::db::schema::{
    obtener_pk_con_fallback, pk_o_respaldo, spec_textos_columna, sql_table_info, texto_table_info, textos_de_columna,
};
use crate::db::sqlite::{
    como_entero, como_entero_opcional, como_real, como_real_opcional, como_texto,
    como_texto_opcional, consultar, consultar_fila, spec_como_entero, spec_como_real,
    spec_como_texto, fila_respondida, filas_respondidas, fila_respondida_u_omitida, filas_respondidas_u_omitidas, primera_de, vistas_params, ErrorBd, Filas, ParamSql, ParamVista,
    Real, ValorSql,
};
use crate::db::types::{
    texto_de_valor, texto_valor, vista_opcional, ColumnaInfo, ColumnaRaw, DependenciaInfo, FiltroInfo, FiltroVista,
    FkInfo, SchemaMetadata, ValorColumna,
};
use crate::texto::vista_textos;
use crate::orden::{lema_menor_asimetrico, lema_menor_total, lema_menor_transitivo, menor_lex, menor_lex_exec};
use crate::db::utils::{
    clean_identifier, safe_ident, spec_clean_identifier, spec_safe_ident, spec_strip_prefix,
    strip_fk_prefix,
};
use crate::fraccion::{lema_mayor_transitivo, mayor, mayor_fraccion};
use crate::texto::{
    chars_de, contiene, contiene_exec, decimal, empieza_con, empieza_con_exec, mayusculas,
    mayusculas_de, minusculas, minusculas_de,
    texto_decimal,
};

verus! {

// ── the column that names a catalogue row ──────────────────────────────────

/// Some column, lower-cased, is `p`.
pub open spec fn hay_columna(cols: Seq<Seq<char>>, p: Seq<char>) -> bool {
    exists|j: int| 0 <= j < cols.len() && minusculas_de(#[trigger] cols[j]) == p
}

/// The index of the first preferred name that some column has (lower-cased).
pub open spec fn primera_preferida(prefs: Seq<Seq<char>>, cols: Seq<Seq<char>>) -> Option<int>
    decreases prefs.len(),
{
    if prefs.len() == 0 {
        None
    } else if hay_columna(cols, prefs[0]) {
        Some(0)
    } else {
        match primera_preferida(prefs.drop_first(), cols) {
            Some(i) => Some(i + 1),
            None => None,
        }
    }
}

/// A column that may name rows: its lower-cased name neither starts with the
/// excluded prefix nor is one of the excluded names.
pub open spec fn columna_aceptable(c: Seq<char>, prefijo: Seq<char>, excluidas: Seq<Seq<char>>) -> bool {
    !empieza_con(minusculas_de(c), prefijo) && !(exists|e: int|
        0 <= e < excluidas.len() && minusculas_de(c) == #[trigger] excluidas[e])
}

/// The index of the first acceptable column.
pub open spec fn primera_aceptable(cols: Seq<Seq<char>>, prefijo: Seq<char>, excluidas: Seq<Seq<char>>) -> Option<int>
    decreases cols.len(),
{
    if cols.len() == 0 {
        None
    } else if columna_aceptable(cols[0], prefijo, excluidas) {
        Some(0)
    } else {
        match primera_aceptable(cols.drop_first(), prefijo, excluidas) {
            Some(i) => Some(i + 1),
            None => None,
        }
    }
}

/// The column that names the rows of a catalogue: the first preferred name
/// that a column has (as written in the preferences), else the first
/// acceptable column, else the first column, else none.
pub open spec fn spec_columna_nombre(cols: Seq<Seq<char>>, ac: AnalyseConfig) -> Option<Seq<char>> {
    let prefs = vistas(ac.preferred_name_cols@);
    match primera_preferida(prefs, cols) {
        Some(i) => Some(prefs[i]),
        None => match primera_aceptable(cols, ac.exclude_id_prefix@, vistas(ac.exclude_name_cols@)) {
            Some(j) => Some(cols[j]),
            None => if cols.len() > 0 {
                Some(cols[0])
            } else {
                None
            },
        },
    }
}

proof fn lema_primera_preferida(prefs: Seq<Seq<char>>, cols: Seq<Seq<char>>, i: int)
    requires
        0 <= i <= prefs.len(),
        forall|j: int| 0 <= j < i ==> !hay_columna(cols, #[trigger] prefs[j]),
    ensures
        i < prefs.len() && hay_columna(cols, prefs[i]) ==> primera_preferida(prefs, cols) == Some(i),
        i == prefs.len() ==> primera_preferida(prefs, cols) is None,
    decreases i,
{
    if i > 0 {
        assert(!hay_columna(cols, prefs[0]));
        lema_primera_preferida(prefs.drop_first(), cols, i - 1);
    }
}

proof fn lema_primera_aceptable(cols: Seq<Seq<char>>, p: Seq<char>, ex: Seq<Seq<char>>, i: int)
    requires
        0 <= i <= cols.len(),
        forall|j: int| 0 <= j < i ==> !columna_aceptable(#[trigger] cols[j], p, ex),
    ensures
        i < cols.len() && columna_aceptable(cols[i], p, ex) ==> primera_aceptable(cols, p, ex) == Some(i),
        i == cols.len() ==> primera_aceptable(cols, p, ex) is None,
    decreases i,
{
    if i > 0 {
        assert(!columna_aceptable(cols[0], p, ex));
        lema_primera_aceptable(cols.drop_first(), p, ex, i - 1);
    }
}

/// Preferences go in order: when some column, lower-cased, is preference
/// `k`, the naming column is a preference at index `i <= k` that some column
/// has, and no column has any preference before `i`.
pub proof fn ley_nombre_preferido_en_orden(cols: Seq<Seq<char>>, ac: AnalyseConfig, k: int, j: int)
    requires
        0 <= k < ac.preferred_name_cols.len(),
        0 <= j < cols.len(),
        minusculas_de(cols[j]) == ac.preferred_name_cols@[k]@,
    ensures
        exists|i: int|
            0 <= i <= k && spec_columna_nombre(cols, ac) == Some(ac.preferred_name_cols@[i]@) && (exists|c: int|
                0 <= c < cols.len() && minusculas_de(cols[c]) == #[trigger] ac.preferred_name_cols@[i]@)
                && forall|i2: int, c: int|
                0 <= i2 < i && 0 <= c < cols.len() ==> minusculas_de(#[trigger] cols[c])
                    != #[trigger] ac.preferred_name_cols@[i2]@,
{
    let prefs = vistas(ac.preferred_name_cols@);
    assert(prefs[k] == ac.preferred_name_cols@[k]@);
    assert(hay_columna(cols, prefs[k]));
    lema_primera_preferida_acotada(prefs, cols, k);
    let i = primera_preferida(prefs, cols)->0;
    assert(prefs[i] == ac.preferred_name_cols@[i]@);
    assert forall|i2: int, c: int|
        0 <= i2 < i && 0 <= c < cols.len() implies minusculas_de(#[trigger] cols[c])
            != #[trigger] ac.preferred_name_cols@[i2]@ by {
        assert(prefs[i2] == ac.preferred_name_cols@[i2]@);
        assert(!hay_columna(cols, prefs[i2]));
    }
}

/// Without any preferred name among the columns, the naming column is the
/// first acceptable column (its lower-cased name neither starts with the
/// excluded prefix nor is an excluded name), when there is one.
pub proof fn ley_nombre_primera_aceptable(cols: Seq<Seq<char>>, ac: AnalyseConfig, j: int)
    requires
        forall|k: int, c: int|
            0 <= k < ac.preferred_name_cols.len() && 0 <= c < cols.len() ==> minusculas_de(#[trigger] cols[c])
                != #[trigger] ac.preferred_name_cols@[k]@,
        0 <= j < cols.len(),
        columna_aceptable(cols[j], ac.exclude_id_prefix@, vistas(ac.exclude_name_cols@)),
    ensures
        exists|i: int|
            0 <= i <= j && spec_columna_nombre(cols, ac) == Some(cols[i]) && columna_aceptable(
                #[trigger] cols[i],
                ac.exclude_id_prefix@,
                vistas(ac.exclude_name_cols@),
            ) && forall|i2: int|
                0 <= i2 < i ==> !columna_aceptable(#[trigger] cols[i2], ac.exclude_id_prefix@, vistas(ac.exclude_name_cols@)),
{
    let prefs = vistas(ac.preferred_name_cols@);
    assert forall|k: int| 0 <= k < prefs.len() implies !hay_columna(cols, #[trigger] prefs[k]) by {
        assert(prefs[k] == ac.preferred_name_cols@[k]@);
    }
    lema_primera_preferida(prefs, cols, prefs.len() as int);
    lema_primera_aceptable_acotada(cols, ac.exclude_id_prefix@, vistas(ac.exclude_name_cols@), j);
}

proof fn lema_primera_aceptable_acotada(cols: Seq<Seq<char>>, p: Seq<char>, ex: Seq<Seq<char>>, j: int)
    requires
        0 <= j < cols.len(),
        columna_aceptable(cols[j], p, ex),
    ensures
        primera_aceptable(cols, p, ex) matches Some(i) && 0 <= i <= j && columna_aceptable(cols[i], p, ex)
            && forall|i2: int| 0 <= i2 < i ==> !columna_aceptable(#[trigger] cols[i2], p, ex),
    decreases j,
{
    if !columna_aceptable(cols[0], p, ex) {
        lema_primera_aceptable_acotada(cols.drop_first(), p, ex, j - 1);
        let i = primera_aceptable(cols.drop_first(), p, ex)->0;
        assert forall|i2: int| 0 <= i2 < i + 1 implies !columna_aceptable(#[trigger] cols[i2], p, ex) by {
            if i2 > 0 {
                assert(cols[i2] == cols.drop_first()[i2 - 1]);
            }
        }
        assert(cols[i + 1] == cols.drop_first()[i]);
    }
}

proof fn lema_primera_preferida_acotada(prefs: Seq<Seq<char>>, cols: Seq<Seq<char>>, k: int)
    requires
        0 <= k < prefs.len(),
        hay_columna(cols, prefs[k]),
    ensures
        primera_preferida(prefs, cols) matches Some(i) && 0 <= i <= k && hay_columna(cols, prefs[i])
            && forall|i2: int| 0 <= i2 < i ==> !hay_columna(cols, #[trigger] prefs[i2]),
    decreases k,
{
    if !hay_columna(cols, prefs[0]) {
        lema_primera_preferida_acotada(prefs.drop_first(), cols, k - 1);
        let i = primera_preferida(prefs.drop_first(), cols)->0;
        assert forall|i2: int| 0 <= i2 < i + 1 implies !hay_columna(cols, #[trigger] prefs[i2]) by {
            if i2 > 0 {
                assert(prefs[i2] == prefs.drop_first()[i2 - 1]);
            }
        }
        assert(prefs[i + 1] == prefs.drop_first()[i]);
    }
}

/// Whether some column of `minus` (lower-cased names) is `p`.
fn hay_columna_exec(minus: &Vec<String>, p: &String, Ghost(cols): Ghost<Seq<Seq<char>>>) -> (r: bool)
    requires
        minus.len() == cols.len(),
        forall|j: int| 0 <= j < cols.len() ==> (#[trigger] minus@[j])@ == minusculas_de(cols[j]),
    ensures
        r == hay_columna(cols, p@),
{
    let mut j: usize = 0;
    while j < minus.len()
        invariant
            j <= minus.len(),
            minus.len() == cols.len(),
            forall|k: int| 0 <= k < cols.len() ==> (#[trigger] minus@[k])@ == minusculas_de(cols[k]),
            forall|k: int| 0 <= k < j ==> minusculas_de(#[trigger] cols[k]) != p@,
        decreases minus.len() - j,
    {
        if minus[j] == *p {
            assert(minusculas_de(cols[j as int]) == p@);
            return true;
        }
        j = j + 1;
    }
    false
}

/// Whether a column (given with its lower-cased name) is acceptable.
fn aceptable_exec(c_minus: &String, prefijo: &String, excluidas: &Vec<String>, Ghost(c): Ghost<Seq<char>>) -> (r: bool)
    requires
        c_minus@ == minusculas_de(c),
    ensures
        r == columna_aceptable(c, prefijo@, vistas(excluidas@)),
{
    if empieza_con_exec(&chars_de(c_minus.as_str()), &chars_de(prefijo.as_str())) {
        return false;
    }
    let mut e: usize = 0;
    while e < excluidas.len()
        invariant
            e <= excluidas.len(),
            c_minus@ == minusculas_de(c),
            forall|k: int| 0 <= k < e ==> minusculas_de(c) != #[trigger] vistas(excluidas@)[k],
        decreases excluidas.len() - e,
    {
        if *c_minus == excluidas[e] {
            assert(minusculas_de(c) == vistas(excluidas@)[e as int]);
            return false;
        }
        e = e + 1;
    }
    true
}

/// The column that names the rows of a catalogue with columns `cols`.
pub fn elegir_columna_nombre(cols: &Vec<String>, ac: &AnalyseConfig) -> (r: Option<String>)
    ensures
        match r {
            Some(c) => spec_columna_nombre(vistas(cols@), *ac) == Some(c@),
            None => spec_columna_nombre(vistas(cols@), *ac) is None,
        },
{
    let ghost cs = vistas(cols@);
    let ghost prefs = vistas(ac.preferred_name_cols@);
    let mut minus: Vec<String> = Vec::new();
    let mut k: usize = 0;
    while k < cols.len()
        invariant
            k <= cols.len(),
            minus.len() == k,
            cs == vistas(cols@),
            forall|j: int| 0 <= j < k ==> (#[trigger] minus@[j])@ == minusculas_de(cs[j]),
        decreases cols.len() - k,
    {
        minus.push(minusculas(cols[k].as_str()));
        k = k + 1;
    }
    let mut i: usize = 0;
    while i < ac.preferred_name_cols.len()
        invariant
            i <= ac.preferred_name_cols.len(),
            minus.len() == cs.len(),
            cs == vistas(cols@),
            prefs == vistas(ac.preferred_name_cols@),
            forall|j: int| 0 <= j < cs.len() ==> (#[trigger] minus@[j])@ == minusculas_de(cs[j]),
            forall|j: int| 0 <= j < i ==> !hay_columna(cs, #[trigger] prefs[j]),
        decreases ac.preferred_name_cols.len() - i,
    {
        if hay_columna_exec(&minus, &ac.preferred_name_cols[i], Ghost(cs)) {
            proof {
                lema_primera_preferida(prefs, cs, i as int);
            }
            return Some(ac.preferred_name_cols[i].clone());
        }
        i = i + 1;
    }
    proof {
        lema_primera_preferida(prefs, cs, i as int);
    }
    let mut j: usize = 0;
    while j < cols.len()
        invariant
            j <= cols.len(),
            minus.len() == cs.len(),
            cs == vistas(cols@),
            prefs == vistas(ac.preferred_name_cols@),
            primera_preferida(prefs, cs) is None,
            forall|m: int| 0 <= m < cs.len() ==> (#[trigger] minus@[m])@ == minusculas_de(cs[m]),
            forall|m: int| 0 <= m < j ==> !columna_aceptable(#[trigger] cs[m], ac.exclude_id_prefix@, vistas(ac.exclude_name_cols@)),
        decreases cols.len() - j,
    {
        if aceptable_exec(&minus[j], &ac.exclude_id_prefix, &ac.exclude_name_cols, Ghost(cs[j as int])) {
            proof {
                lema_primera_aceptable(cs, ac.exclude_id_prefix@, vistas(ac.exclude_name_cols@), j as int);
            }
            return Some(cols[j].clone());
        }
        j = j + 1;
    }
    proof {
        lema_primera_aceptable(cs, ac.exclude_id_prefix@, vistas(ac.exclude_name_cols@), j as int);
    }
    if cols.len() > 0 {
        Some(cols[0].clone())
    } else {
        None
    }
}

/// The column that names the rows of catalogue `tabla`, chosen among the
/// column names that `PRAGMA table_info` lists. `Err` when they cannot be
/// listed.
pub fn detectar_columna_nombre(conn: &rusqlite::Connection, tabla: &str, ac: &AnalyseConfig) -> (r:
    Result<Option<String>, ErrorBd>)
    ensures
        nombre_respondido(tabla@, *ac, r),
{
    let sin_valores: Vec<ParamSql> = Vec::new();
    assert(vistas_params(sin_valores@) =~= Seq::<ParamVista>::empty());
    let f = match consultar(conn, texto_table_info(tabla).as_str(), sin_valores.as_slice()) {
        Ok(f) => f,
        Err(e) => return Err(e),
    };
    let cols = textos_de_columna(f.lista(), 1);
    let r = elegir_columna_nombre(&cols, ac);
    assert(vista_opcional(r) == spec_columna_nombre(spec_textos_columna(f.filas(), 1), *ac));
    Ok(r)
}

/// `r` is the naming column that the column list of catalogue `tabla`
/// answered (see `spec_columna_nombre`), or the error it answered with.
pub open spec fn nombre_respondido(tabla: Seq<char>, ac: AnalyseConfig, r: Result<Option<String>, ErrorBd>) -> bool {
    exists|f: Filas|
        #[trigger] f.consulta() == (sql_table_info(tabla), Seq::<ParamVista>::empty()) && match r {
            Err(e) => e is Sqlite && !f.ejecutada() && f.error() == Some(e),
            Ok(o) => f.ejecutada() && vista_opcional(o) == spec_columna_nombre(spec_textos_columna(f.filas(), 1), ac),
        }
}


// ── the filter of one column ───────────────────────────────────────────────

/// The family of a declared column type.
#[derive(Debug, Clone, Copy, PartialEq, Eq, Structural)]
pub enum ClaseTipo {
    Fecha,
    Real,
    Entero,
    Otro,
}

/// `DATE`, `DATETIME`, `TIMESTAMP` are dates; `REAL`, `FLOAT`, `DOUBLE`,
/// `NUMERIC`, `DECIMAL` reals; `INTEGER`, `BIGINT`, `SMALLINT`, `TINYINT`
/// integers; any other type (or none) is text.
pub open spec fn spec_clase_tipo(t: Seq<char>) -> ClaseTipo {
    if t == "DATE"@ || t == "DATETIME"@ || t == "TIMESTAMP"@ {
        ClaseTipo::Fecha
    } else if t == "REAL"@ || t == "FLOAT"@ || t == "DOUBLE"@ || t == "NUMERIC"@ || t == "DECIMAL"@ {
        ClaseTipo::Real
    } else if t == "INTEGER"@ || t == "BIGINT"@ || t == "SMALLINT"@ || t == "TINYINT"@ {
        ClaseTipo::Entero
    } else {
        ClaseTipo::Otro
    }
}

pub fn clase_tipo(t: &String) -> (r: ClaseTipo)
    ensures
        r == spec_clase_tipo(t@),
{
    if *t == String::from_str("DATE") || *t == String::from_str("DATETIME") || *t == String::from_str(
        "TIMESTAMP",
    ) {
        ClaseTipo::Fecha
    } else if *t == String::from_str("REAL") || *t == String::from_str("FLOAT") || *t
        == String::from_str("DOUBLE") || *t == String::from_str("NUMERIC") || *t == String::from_str(
        "DECIMAL",
    ) {
        ClaseTipo::Real
    } else if *t == String::from_str("INTEGER") || *t == String::from_str("BIGINT") || *t
        == String::from_str("SMALLINT") || *t == String::from_str("TINYINT") {
        ClaseTipo::Entero
    } else {
        ClaseTipo::Otro
    }
}

/// Few enough distinct values to be offered as a category.
pub open spec fn pocos_valores(d: int) -> bool {
    0 <= d <= constants::MAX_CATEGORICAL_VALUES
}

/// An integer column whose distinct values are more than four fifths of its
/// rows looks like a key.
pub open spec fn parece_clave(d: int, t: int) -> bool {
    t > 0 && constants::PK_RATIO_THRESHOLD_DEN * d > constants::PK_RATIO_THRESHOLD_NUM * t
}

/// A text column whose values average more than eighty characters (total
/// length `suma` over `cuenta` non-null values) looks like a description.
pub open spec fn texto_largo(suma: int, cuenta: int) -> bool {
    suma > constants::MAX_TEXT_LENGTH_THRESHOLD * cuenta
}

pub fn es_pocos_valores(d: i64) -> (r: bool)
    ensures
        r == pocos_valores(d as int),
{
    d >= 0 && d <= constants::MAX_CATEGORICAL_VALUES as i64
}

pub fn es_parece_clave(d: i64, t: i64) -> (r: bool)
    ensures
        r == parece_clave(d as int, t as int),
{
    let num: i128 = constants::PK_RATIO_THRESHOLD_NUM as i128;
    let den: i128 = constants::PK_RATIO_THRESHOLD_DEN as i128;
    assert(num == 4 && den == 5);
    t > 0 && den * (d as i128) > num * (t as i128)
}

pub fn es_texto_largo(suma: i64, cuenta: i64) -> (r: bool)
    ensures
        r == texto_largo(suma as int, cuenta as int),
{
    let umbral: i128 = constants::MAX_TEXT_LENGTH_THRESHOLD as i128;
    assert(umbral == 80);
    (suma as i128) > umbral * (cuenta as i128)
}

// The statements that measure a column (`sc`, `st` already quoted).

pub open spec fn sql_valores_catalogo(cn: Seq<char>, tc: Seq<char>) -> Seq<char> {
    "SELECT DISTINCT "@ + cn + " FROM "@ + tc + " WHERE "@ + cn + " IS NOT NULL ORDER BY 1 LIMIT "@
        + decimal((constants::MAX_CATEGORICAL_VALUES * 2) as nat)
}

pub open spec fn sql_min_max(sc: Seq<char>, st: Seq<char>) -> Seq<char> {
    "SELECT MIN("@ + sc + "), MAX("@ + sc + ") FROM "@ + st
}

pub open spec fn sql_distintos(sc: Seq<char>, st: Seq<char>) -> Seq<char> {
    "SELECT COUNT(DISTINCT "@ + sc + ") FROM "@ + st
}

pub open spec fn sql_distintos_y_total(sc: Seq<char>, st: Seq<char>) -> Seq<char> {
    "SELECT COUNT(DISTINCT "@ + sc + "), COUNT(*) FROM "@ + st
}

pub open spec fn sql_valores_ordenados(sc: Seq<char>, st: Seq<char>) -> Seq<char> {
    "SELECT DISTINCT "@ + sc + " FROM "@ + st + " ORDER BY "@ + sc + " LIMIT "@ + decimal(
        (constants::MAX_CATEGORICAL_VALUES * 2) as nat,
    )
}

pub open spec fn sql_muestra_texto(sc: Seq<char>, st: Seq<char>) -> Seq<char> {
    "SELECT COUNT(DISTINCT "@ + sc + "), SUM(LENGTH("@ + sc + ")), COUNT(LENGTH("@ + sc
        + ")) FROM (SELECT "@ + sc + " FROM "@ + st + " LIMIT "@ + decimal(
        constants::SAMPLE_SIZE as nat,
    ) + ")"@
}

pub open spec fn sql_valores_texto(sc: Seq<char>, st: Seq<char>) -> Seq<char> {
    "SELECT DISTINCT "@ + sc + " FROM "@ + st + " WHERE "@ + sc + " IS NOT NULL AND "@ + sc
        + " != '' ORDER BY "@ + sc + " LIMIT "@ + decimal(
        (constants::MAX_CATEGORICAL_VALUES * 2) as nat,
    )
}

pub fn texto_valores_catalogo(cn: &str, tc: &str) -> (r: String)
    ensures
        r@ == sql_valores_catalogo(cn@, tc@),
{
    let mut r = String::from_str("SELECT DISTINCT ");
    r.append(cn);
    r.append(" FROM ");
    r.append(tc);
    r.append(" WHERE ");
    r.append(cn);
    r.append(" IS NOT NULL ORDER BY 1 LIMIT ");
    r.append(texto_decimal(constants::MAX_CATEGORICAL_VALUES * 2).as_str());
    r
}

pub fn texto_min_max(sc: &str, st: &str) -> (r: String)
    ensures
        r@ == sql_min_max(sc@, st@),
{
    let mut r = String::from_str("SELECT MIN(");
    r.append(sc);
    r.append("), MAX(");
    r.append(sc);
    r.append(") FROM ");
    r.append(st);
    r
}

pub fn texto_distintos(sc: &str, st: &str) -> (r: String)
    ensures
        r@ == sql_distintos(sc@, st@),
{
    let mut r = String::from_str("SELECT COUNT(DISTINCT ");
    r.append(sc);
    r.append(") FROM ");
    r.append(st);
    r
}

pub fn texto_distintos_y_total(sc: &str, st: &str) -> (r: String)
    ensures
        r@ == sql_distintos_y_total(sc@, st@),
{
    let mut r = String::from_str("SELECT COUNT(DISTINCT ");
    r.append(sc);
    r.append("), COUNT(*) FROM ");
    r.append(st);
    r
}

pub fn texto_valores_ordenados(sc: &str, st: &str) -> (r: String)
    ensures
        r@ == sql_valores_ordenados(sc@, st@),
{
    let mut r = String::from_str("SELECT DISTINCT ");
    r.append(sc);
    r.append(" FROM ");
    r.append(st);
    r.append(" ORDER BY ");
    r.append(sc);
    r.append(" LIMIT ");
    r.append(texto_decimal(constants::MAX_CATEGORICAL_VALUES * 2).as_str());
    r
}

pub fn texto_muestra_texto(sc: &str, st: &str) -> (r: String)
    ensures
        r@ == sql_muestra_texto(sc@, st@),
{
    let mut r = String::from_str("SELECT COUNT(DISTINCT ");
    r.append(sc);
    r.append("), SUM(LENGTH(");
    r.append(sc);
    r.append(")), COUNT(LENGTH(");
    r.append(sc);
    r.append(")) FROM (SELECT ");
    r.append(sc);
    r.append(" FROM ");
    r.append(st);
    r.append(" LIMIT ");
    r.append(texto_decimal(constants::SAMPLE_SIZE as u64).as_str());
    r.append(")");
    r
}

pub fn texto_valores_texto(sc: &str, st: &str) -> (r: String)
    ensures
        r@ == sql_valores_texto(sc@, st@),
{
    let mut r = String::from_str("SELECT DISTINCT ");
    r.append(sc);
    r.append(" FROM ");
    r.append(st);
    r.append(" WHERE ");
    r.append(sc);
    r.append(" IS NOT NULL AND ");
    r.append(sc);
    r.append(" != '' ORDER BY ");
    r.append(sc);
    r.append(" LIMIT ");
    r.append(texto_decimal(constants::MAX_CATEGORICAL_VALUES * 2).as_str());
    r
}

// Cells of the measuring queries.


/// Cell 0 of each row that has one and where it reads as `f64`, as reals,
/// in row order.
pub open spec fn reales_spec(filas: Seq<Vec<ValorSql>>) -> Seq<ValorColumna>
    decreases filas.len(),
{
    if filas.len() == 0 {
        Seq::empty()
    } else {
        let r = reales_spec(filas.drop_last());
        let f = filas.last();
        if f@.len() > 0 && spec_como_real(f@[0]) is Some {
            r.push(ValorColumna::Real(spec_como_real(f@[0])->0))
        } else {
            r
        }
    }
}

/// Cell 0 of each row that has one and where it reads as `i64`, as integers,
/// in row order.
pub open spec fn enteros_spec(filas: Seq<Vec<ValorSql>>) -> Seq<ValorColumna>
    decreases filas.len(),
{
    if filas.len() == 0 {
        Seq::empty()
    } else {
        let r = enteros_spec(filas.drop_last());
        let f = filas.last();
        if f@.len() > 0 && spec_como_entero(f@[0]) is Some {
            r.push(ValorColumna::Entero(spec_como_entero(f@[0])->0))
        } else {
            r
        }
    }
}

/// The values of cell 0 of the rows where it reads as `f64`.
fn reales_de_filas(filas: &Vec<Vec<ValorSql>>) -> (r: Vec<ValorColumna>)
    ensures
        r@ == reales_spec(filas@),
        forall|k: int| 0 <= k < r.len() ==> (#[trigger] r@[k]) is Real,
{
    let mut r: Vec<ValorColumna> = Vec::new();
    let mut i: usize = 0;
    while i < filas.len()
        invariant
            i <= filas.len(),
            r@ == reales_spec(filas@.take(i as int)),
            forall|k: int| 0 <= k < r.len() ==> (#[trigger] r@[k]) is Real,
        decreases filas.len() - i,
    {
        assert(filas@.take(i as int) =~= filas@.take(i + 1).drop_last());
        if filas[i].len() > 0 {
            match como_real(&filas[i][0]) {
                Ok(x) => r.push(ValorColumna::Real(x)),
                Err(_) => {},
            }
        }
        i = i + 1;
    }
    assert(filas@.take(filas.len() as int) =~= filas@);
    r
}

/// The values of cell 0 of the rows where it reads as `i64`.
fn enteros_de_filas(filas: &Vec<Vec<ValorSql>>) -> (r: Vec<ValorColumna>)
    ensures
        r@ == enteros_spec(filas@),
        forall|k: int| 0 <= k < r.len() ==> (#[trigger] r@[k]) is Entero,
{
    let mut r: Vec<ValorColumna> = Vec::new();
    let mut i: usize = 0;
    while i < filas.len()
        invariant
            i <= filas.len(),
            r@ == enteros_spec(filas@.take(i as int)),
            forall|k: int| 0 <= k < r.len() ==> (#[trigger] r@[k]) is Entero,
        decreases filas.len() - i,
    {
        assert(filas@.take(i as int) =~= filas@.take(i + 1).drop_last());
        if filas[i].len() > 0 {
            match como_entero(&filas[i][0]) {
                Ok(x) => r.push(ValorColumna::Entero(x)),
                Err(_) => {},
            }
        }
        i = i + 1;
    }
    assert(filas@.take(filas.len() as int) =~= filas@);
    r
}

/// The texts, as column values.
fn valores_de_textos(v: Vec<String>) -> (r: Vec<ValorColumna>)
    ensures
        r.len() == v.len(),
        forall|k: int|
            0 <= k < r.len() ==> ((#[trigger] r@[k]) matches ValorColumna::Texto(s) && s == v@[k]),
{
    let mut r: Vec<ValorColumna> = Vec::new();
    let mut i: usize = 0;
    while i < v.len()
        invariant
            i <= v.len(),
            r.len() == i,
            forall|k: int|
                0 <= k < i ==> ((#[trigger] r@[k]) matches ValorColumna::Texto(s) && s == v@[k]),
        decreases v.len() - i,
    {
        r.push(ValorColumna::Texto(v[i].clone()));
        i = i + 1;
    }
    r
}

// The shapes of a column's filter.

/// The names of the filter kinds are different texts.
pub proof fn lema_tipos_distintos()
    ensures
        "date"@ != "categorical"@,
        "date"@ != "categorical_fk"@,
        "date"@ != "numeric"@,
        "date"@ != "text_search"@,
        "categorical"@ != "categorical_fk"@,
        "categorical"@ != "numeric"@,
        "categorical"@ != "text_search"@,
        "categorical_fk"@ != "numeric"@,
        "categorical_fk"@ != "text_search"@,
        "numeric"@ != "text_search"@,
{
    reveal_strlit("date");
    reveal_strlit("categorical");
    reveal_strlit("categorical_fk");
    reveal_strlit("numeric");
    reveal_strlit("text_search");
    assert("date"@.len() != "categorical"@.len());
    assert("date"@.len() != "categorical_fk"@.len());
    assert("date"@[0] != "numeric"@[0]);
    assert("date"@.len() != "text_search"@.len());
    assert("categorical"@.len() != "categorical_fk"@.len());
    assert("categorical"@[0] != "numeric"@[0]);
    assert("categorical"@[0] != "text_search"@[0]);
    assert("categorical_fk"@[0] != "numeric"@[0]);
    assert("categorical_fk"@[0] != "text_search"@[0]);
    assert("numeric"@[0] != "text_search"@[0]);
}

/// The fields of a filter of kind `tipo` that are set are the ones that kind
/// uses.
pub open spec fn forma_de_info(info: ColumnaInfo) -> bool {
    let t = info.tipo@;
    &&& (t == "date"@ || t == "categorical"@ || t == "categorical_fk"@ || t == "numeric"@ || t
        == "text_search"@)
    &&& (info.valores is Some <==> (t == "categorical"@ || t == "categorical_fk"@))
    &&& (info.total_distintos is Some <==> (t == "categorical"@ || t == "categorical_fk"@))
    &&& (t != "numeric"@ ==> info.min is None && info.max is None)
    &&& (t != "date"@ ==> info.fecha_min is None && info.fecha_max is None)
    &&& (info.col_original is Some <==> t == "categorical_fk"@)
    &&& (info.tabla_catalogo is Some <==> t == "categorical_fk"@)
    &&& (info.col_nombre_catalogo is Some <==> t == "categorical_fk"@)
    &&& (t == "categorical"@ ==> (info.total_distintos matches Some(n) && n <= constants::MAX_CATEGORICAL_VALUES))
    &&& (t == "categorical_fk"@ ==> (info.valores matches Some(v) && info.total_distintos == Some(
        v.len() as u64,
    ) && forall|k: int| 0 <= k < v.len() ==> (#[trigger] v@[k]) is Texto))
}

/// The kinds a column of a type family can get.
pub open spec fn tipo_segun_clase(c: ClaseTipo, t: Seq<char>) -> bool {
    match c {
        ClaseTipo::Fecha => t == "date"@,
        ClaseTipo::Real => t == "categorical"@ || t == "numeric"@,
        ClaseTipo::Entero => t == "categorical"@ || t == "numeric"@,
        ClaseTipo::Otro => t == "categorical"@ || t == "text_search"@,
    }
}

fn info_vacia(nombre: String, tipo: &str) -> (r: ColumnaInfo)
    ensures
        r.nombre == nombre,
        r.tipo@ == tipo@,
        r.valores is None && r.total_distintos is None && r.min is None && r.max is None,
        r.fecha_min is None && r.fecha_max is None,
        r.col_original is None && r.tabla_catalogo is None && r.col_nombre_catalogo is None,
{
    ColumnaInfo {
        nombre,
        tipo: String::from_str(tipo),
        valores: None,
        total_distintos: None,
        min: None,
        max: None,
        fecha_min: None,
        fecha_max: None,
        col_original: None,
        tabla_catalogo: None,
        col_nombre_catalogo: None,
    }
}

/// The index of the first foreign key whose key is `clave`.
pub open spec fn primera_fk(fks: Seq<(String, FkInfo)>, clave: Seq<char>) -> Option<int>
    decreases fks.len(),
{
    if fks.len() == 0 {
        None
    } else if fks[0].0@ == clave {
        Some(0)
    } else {
        match primera_fk(fks.drop_first(), clave) {
            Some(i) => Some(i + 1),
            None => None,
        }
    }
}

proof fn lema_primera_fk(fks: Seq<(String, FkInfo)>, clave: Seq<char>, i: int)
    requires
        0 <= i <= fks.len(),
        forall|j: int| 0 <= j < i ==> (#[trigger] fks[j]).0@ != clave,
    ensures
        i < fks.len() && fks[i].0@ == clave ==> primera_fk(fks, clave) == Some(i),
        i == fks.len() ==> primera_fk(fks, clave) is None,
    decreases i,
{
    if i > 0 {
        assert(fks[0].0@ != clave);
        lema_primera_fk(fks.drop_first(), clave, i - 1);
    }
}

/// The first foreign key keyed `clave`.
pub fn buscar_fk(fks: &Vec<(String, FkInfo)>, clave: &String) -> (r: Option<usize>)
    ensures
        r matches Some(i) ==> i < fks.len(),
        match r {
            Some(i) => primera_fk(fks@, clave@) == Some(i as int),
            None => primera_fk(fks@, clave@) is None,
        },
{
    let mut i: usize = 0;
    while i < fks.len()
        invariant
            i <= fks.len(),
            forall|j: int| 0 <= j < i ==> (#[trigger] fks@[j]).0@ != clave@,
        decreases fks.len() - i,
    {
        if fks[i].0 == *clave {
            proof {
                lema_primera_fk(fks@, clave@, i as int);
            }
            return Some(i);
        }
        i = i + 1;
    }
    proof {
        lema_primera_fk(fks@, clave@, i as int);
    }
    None
}

/// The key of a column among the foreign keys: `table.column`.
pub open spec fn clave_columna(tabla: Seq<char>, col: Seq<char>) -> Seq<char> {
    tabla + "."@ + col
}

/// What a column's measuring queries counted: its distinct values and its
/// rows, whether it has a minimum, and, for a column of another type, the
/// total length of its non-null sampled values (none when no sampled value
/// is non-null) and how many there are.
#[derive(Debug, Clone, Copy)]
pub struct Conteos {
    pub distintos: i64,
    pub total: i64,
    pub hay_minimo: bool,
    pub suma_largos: Option<i64>,
    pub con_largo: i64,
}

/// The filter a column gets, before its values are looked up.
#[derive(Debug, Clone, Copy, PartialEq, Eq, Structural)]
pub enum Eleccion {
    Fecha,
    Categorica,
    Numerica,
    Busqueda,
    Omitida,
}

/// The filter of a column of type family `clase` with counts `c`:
/// - a date column gets a date filter;
/// - a real column a categorical one with at most fifty distinct values and
///   a minimum, else a numeric one;
/// - an integer column a categorical one with at most fifty distinct values;
///   with more, none when they are more than four fifths of its rows (a
///   likely key), else a numeric one;
/// - any other column none when no sampled value is non-null or they average
///   more than eighty characters, else a categorical one with at most fifty
///   distinct values, else a text search.
pub open spec fn eleccion(clase: ClaseTipo, c: Conteos) -> Eleccion {
    match clase {
        ClaseTipo::Fecha => Eleccion::Fecha,
        ClaseTipo::Real => if pocos_valores(c.distintos as int) && c.hay_minimo {
            Eleccion::Categorica
        } else {
            Eleccion::Numerica
        },
        ClaseTipo::Entero => if pocos_valores(c.distintos as int) {
            Eleccion::Categorica
        } else if parece_clave(c.distintos as int, c.total as int) {
            Eleccion::Omitida
        } else {
            Eleccion::Numerica
        },
        ClaseTipo::Otro => match c.suma_largos {
            None => Eleccion::Omitida,
            Some(suma) => if c.con_largo <= 0 || texto_largo(suma as int, c.con_largo as int) {
                Eleccion::Omitida
            } else if pocos_valores(c.distintos as int) {
                Eleccion::Categorica
            } else {
                Eleccion::Busqueda
            },
        },
    }
}

pub fn elegir_filtro(clase: ClaseTipo, c: &Conteos) -> (r: Eleccion)
    ensures
        r == eleccion(clase, *c),
{
    match clase {
        ClaseTipo::Fecha => Eleccion::Fecha,
        ClaseTipo::Real => if es_pocos_valores(c.distintos) && c.hay_minimo {
            Eleccion::Categorica
        } else {
            Eleccion::Numerica
        },
        ClaseTipo::Entero => if es_pocos_valores(c.distintos) {
            Eleccion::Categorica
        } else if es_parece_clave(c.distintos, c.total) {
            Eleccion::Omitida
        } else {
            Eleccion::Numerica
        },
        ClaseTipo::Otro => match c.suma_largos {
            None => Eleccion::Omitida,
            Some(suma) => if c.con_largo <= 0 || es_texto_largo(suma, c.con_largo) {
                Eleccion::Omitida
            } else if es_pocos_valores(c.distintos) {
                Eleccion::Categorica
            } else {
                Eleccion::Busqueda
            },
        },
    }
}

/// `r` is the filter of column `nombre` for choice `e`: none when it is left
/// out; else a filter of that kind under the column's own name, holding the
/// dates `fechas` (earliest, latest) for a date filter, the range `rango`
/// (minimum, maximum) for a numeric one, and the values `valores` with the
/// distinct count for a categorical one.
pub open spec fn columna_decidida(
    nombre: Seq<char>,
    e: Eleccion,
    c: Conteos,
    fechas: (Option<String>, Option<String>),
    rango: (Option<Real>, Option<Real>),
    valores: Seq<ValorColumna>,
    r: Option<ColumnaInfo>,
) -> bool {
    match r {
        None => e is Omitida,
        Some(info) => {
            &&& info.nombre@ == nombre
            &&& info.col_original is None && info.tabla_catalogo is None
            &&& info.col_nombre_catalogo is None
            &&& match e {
                Eleccion::Fecha => info.tipo@ == "date"@ && info.fecha_min == fechas.0
                    && info.fecha_max == fechas.1 && info.valores is None
                    && info.total_distintos is None && info.min is None && info.max is None,
                Eleccion::Categorica => info.tipo@ == "categorical"@ && (info.valores matches Some(
                    v,
                ) && v@ == valores) && info.total_distintos == Some(c.distintos as u64)
                    && info.min is None && info.max is None && info.fecha_min is None
                    && info.fecha_max is None,
                Eleccion::Numerica => info.tipo@ == "numeric"@ && info.min == rango.0 && info.max
                    == rango.1 && info.valores is None && info.total_distintos is None
                    && info.fecha_min is None && info.fecha_max is None,
                Eleccion::Busqueda => info.tipo@ == "text_search"@ && info.valores is None
                    && info.total_distintos is None && info.min is None && info.max is None
                    && info.fecha_min is None && info.fecha_max is None,
                Eleccion::Omitida => false,
            }
        },
    }
}


/// The filter of column `nombre` of type family `clase`, from what its
/// queries measured: the counts `c`, the earliest and latest dates, the
/// minimum and maximum, and the values looked up for a categorical filter.
pub fn decidir_columna(
    nombre: String,
    clase: ClaseTipo,
    c: &Conteos,
    fechas: (Option<String>, Option<String>),
    rango: (Option<Real>, Option<Real>),
    valores: Vec<ValorColumna>,
) -> (r: Option<ColumnaInfo>)
    ensures
        columna_decidida(nombre@, eleccion(clase, *c), *c, fechas, rango, valores@, r),
{
    match elegir_filtro(clase, c) {
        Eleccion::Fecha => {
            let mut info = info_vacia(nombre, "date");
            info.fecha_min = fechas.0;
            info.fecha_max = fechas.1;
            Some(info)
        },
        Eleccion::Categorica => {
            let mut info = info_vacia(nombre, "categorical");
            info.valores = Some(valores);
            info.total_distintos = Some(c.distintos as u64);
            Some(info)
        },
        Eleccion::Numerica => {
            let mut info = info_vacia(nombre, "numeric");
            info.min = rango.0;
            info.max = rango.1;
            Some(info)
        },
        Eleccion::Busqueda => Some(info_vacia(nombre, "text_search")),
        Eleccion::Omitida => None,
    }
}

/// What the filter of a column was told apart by: a catalogue filter for a
/// foreign key whose catalogue has a naming column, else a filter that its
/// type family allows.
pub open spec fn info_de_columna(
    tabla: Seq<char>,
    col: ColumnaRaw,
    fks: Seq<(String, FkInfo)>,
    ac: AnalyseConfig,
    info: ColumnaInfo,
) -> bool {
    &&& forma_de_info(info)
    &&& if info.tipo@ == "categorical_fk"@ {
        &&& primera_fk(fks, clave_columna(tabla, col.name@)) matches Some(j)
        &&& info.nombre@ == spec_strip_prefix(col.name@, ac.fk_id_prefix@)
        &&& info.col_original matches Some(o) && o@ == col.name@
        &&& info.tabla_catalogo matches Some(t) && t@ == fks[j].1.tabla@
    } else {
        &&& info.nombre@ == col.name@
        &&& tipo_segun_clase(spec_clase_tipo(col.col_type@), info.tipo@)
    }
}

/// The filter of a column of `tabla`:
/// - a foreign key (keyed `tabla.column`) to a catalogue that has a naming
///   column gives a `categorical_fk` filter over the catalogue's names;
/// - a date column gives a `date` filter with its earliest and latest value;
/// - a real column gives a `categorical` filter when it has at most fifty
///   distinct values and a minimum, else a `numeric` one with its range;
/// - an integer column gives a `categorical` filter with at most fifty
///   distinct values; with more, it is left out when they are more than four
///   fifths of its rows (a likely key), else it gives a `numeric` one;
/// - any other column, measured on its first thousand rows, is left out when
///   it cannot be measured, has no non-null value or averages more than
///   eighty characters, gives a `categorical` filter with at most fifty
///   distinct values, else a `text_search` one.
/// Past the catalogue case, the filter is what `decidir_columna` makes of
/// the measured cells. `Err` when a query that the decision needs fails.
pub fn analizar_columna(
    conn: &rusqlite::Connection,
    tabla: &str,
    col: &ColumnaRaw,
    fk_pairs: &Vec<(String, FkInfo)>,
    ac: &AnalyseConfig,
) -> (r: Result<Option<ColumnaInfo>, ErrorBd>)
    ensures
        r matches Ok(Some(info)) ==> info_de_columna(tabla@, *col, fk_pairs@, *ac, info),
        r matches Ok(None) ==> spec_clase_tipo(col.col_type@) is Entero || spec_clase_tipo(
            col.col_type@,
        ) is Otro,
        columna_respondida(tabla@, *col, fk_pairs@, *ac, r),
{
    proof {
        lema_tipos_distintos();
    }
    let st = safe_ident(tabla);
    let mut clave = String::from_str(tabla);
    clave.append(".");
    clave.append(col.name.as_str());
    assert(clave_columna(tabla@, col.name@) == clave@);
    match buscar_fk(fk_pairs, &clave) {
        Some(j) => {
            let r = columna_por_fk(conn, tabla, st.as_str(), col, &fk_pairs[j].1, ac);
            proof {
                let an = choose|an: Result<Option<String>, ErrorBd>|
                    #[trigger] fk_respondida(tabla@, *col, fk_pairs@[j as int].1, *ac, an, r) && nombre_respondido(
                        fk_pairs@[j as int].1.tabla@,
                        *ac,
                        an,
                    );
                assert(primera_fk(fk_pairs@, clave_columna(tabla@, col.name@)) == Some(j as int));
                let jj = primera_fk(fk_pairs@, clave_columna(tabla@, col.name@))->Some_0;
                assert(fk_pairs@[jj].1 == fk_pairs@[j as int].1);
                assert(fk_respondida(tabla@, *col, fk_pairs@[jj].1, *ac, an, r));
                assert(nombre_respondido(fk_pairs@[jj].1.tabla@, *ac, an));
            }
            r
        },
        None => columna_por_clase(conn, st.as_str(), col),
    }
}

/// The filter of a column that is a foreign key to catalogue `fk.tabla`.
fn columna_por_fk(
    conn: &rusqlite::Connection,
    tabla: &str,
    st: &str,
    col: &ColumnaRaw,
    fk: &FkInfo,
    ac: &AnalyseConfig,
) -> (r: Result<Option<ColumnaInfo>, ErrorBd>)
    requires
        st@ == spec_safe_ident(tabla@),
    ensures
        exists|an: Result<Option<String>, ErrorBd>|
            #[trigger] fk_respondida(tabla@, *col, *fk, *ac, an, r) && nombre_respondido(fk.tabla@, *ac, an),
        r matches Ok(Some(info)) ==> forma_de_info(info) && if info.tipo@ == "categorical_fk"@ {
            &&& info.nombre@ == spec_strip_prefix(col.name@, ac.fk_id_prefix@)
            &&& info.col_original matches Some(o) && o@ == col.name@
            &&& info.tabla_catalogo matches Some(t) && t@ == fk.tabla@
        } else {
            &&& info.nombre@ == col.name@
            &&& tipo_segun_clase(spec_clase_tipo(col.col_type@), info.tipo@)
        },
        r matches Ok(None) ==> spec_clase_tipo(col.col_type@) is Entero || spec_clase_tipo(
            col.col_type@,
        ) is Otro,
{
    proof {
        lema_tipos_distintos();
    }
    let an = detectar_columna_nombre(conn, fk.tabla.as_str(), ac);
    let ghost gn = an;
    let nombre = match an {
        Ok(o) => o,
        Err(e) => {
            assert(fk_respondida(tabla@, *col, *fk, *ac, gn, Err::<Option<ColumnaInfo>, ErrorBd>(e)));
            return Err(e);
        },
    };
    match nombre {
        Some(col_nombre) => {
            let tc = safe_ident(fk.tabla.as_str());
            let cn = safe_ident(col_nombre.as_str());
            let sin_valores: Vec<ParamSql> = Vec::new();
            assert(vistas_params(sin_valores@) =~= Seq::<ParamVista>::empty());
            let av = consultar(conn, texto_valores_catalogo(cn.as_str(), tc.as_str()).as_str(), sin_valores.as_slice());
            let ghost gv = av;
            let f = match av {
                Ok(f) => f,
                Err(e) => {
                    assert(catalogo_respondido(*col, *fk, *ac, col_nombre, gv, Err::<Option<ColumnaInfo>, ErrorBd>(e)));
                    assert(fk_respondida(tabla@, *col, *fk, *ac, gn, Err::<Option<ColumnaInfo>, ErrorBd>(e)));
                    return Err(e);
                },
            };
            let ghost t = spec_textos_columna(f.filas(), 0);
            let valores = valores_de_textos(textos_de_columna(f.lista(), 0));
            assert(textos_como_valores(valores@, t));
            let total = valores.len() as u64;
            let info = ColumnaInfo {
                nombre: strip_fk_prefix(col.name.as_str(), ac.fk_id_prefix.as_str()),
                tipo: String::from_str("categorical_fk"),
                valores: Some(valores),
                total_distintos: Some(total),
                min: None,
                max: None,
                fecha_min: None,
                fecha_max: None,
                col_original: Some(col.name.clone()),
                tabla_catalogo: Some(fk.tabla.clone()),
                col_nombre_catalogo: Some(col_nombre),
            };
            assert(catalogo_respondido(*col, *fk, *ac, info.col_nombre_catalogo->0, gv, Ok::<Option<ColumnaInfo>, ErrorBd>(Some(info))));
            assert(fk_respondida(tabla@, *col, *fk, *ac, gn, Ok::<Option<ColumnaInfo>, ErrorBd>(Some(info))));
            Ok(Some(info))
        },
        None => {
            let r = columna_por_clase(conn, st, col);
            assert(fk_respondida(tabla@, *col, *fk, *ac, gn, r));
            r
        },
    }
}

// ── reading the answers of a column's queries ─────────────────────────────

/// A cell read as an optional text: NULL is none.
pub open spec fn texto_opcional_de(v: ValorSql) -> Option<Option<String>> {
    match v {
        ValorSql::Nulo => Some(None),
        ValorSql::Texto(t) => Some(Some(t)),
        _ => None,
    }
}

/// A cell read as an optional REAL: NULL is none, an integer converted.
pub open spec fn real_opcional_de(v: ValorSql) -> Option<Option<Real>> {
    match v {
        ValorSql::Nulo => Some(None),
        ValorSql::Entero(i) => Some(Some(Real::Entero(i))),
        ValorSql::Real(x) => Some(Some(x)),
        _ => None,
    }
}

/// The earliest and latest dates that the `MIN`/`MAX` query answered.
pub open spec fn fechas_de(a: Result<Vec<ValorSql>, ErrorBd>) -> Result<(Option<String>, Option<String>), ErrorBd> {
    match a {
        Err(e) => Err(e),
        Ok(f) => if f@.len() >= 2 && texto_opcional_de(f@[0]) is Some && texto_opcional_de(f@[1]) is Some {
            Ok((texto_opcional_de(f@[0])->0, texto_opcional_de(f@[1])->0))
        } else {
            Err(ErrorBd::TipoInvalido)
        },
    }
}

/// The minimum and maximum that the `MIN`/`MAX` query answered, as REALs.
pub open spec fn rango_real_de(a: Result<Vec<ValorSql>, ErrorBd>) -> Result<(Option<Real>, Option<Real>), ErrorBd> {
    match a {
        Err(e) => Err(e),
        Ok(f) => if f@.len() >= 2 && real_opcional_de(f@[0]) is Some && real_opcional_de(f@[1]) is Some {
            Ok((real_opcional_de(f@[0])->0, real_opcional_de(f@[1])->0))
        } else {
            Err(ErrorBd::TipoInvalido)
        },
    }
}

/// An optional integer as an optional REAL.
pub open spec fn como_real_de(o: Option<i64>) -> Option<Real> {
    match o {
        Some(i) => Some(Real::Entero(i)),
        None => None,
    }
}

/// The minimum and maximum that the `MIN`/`MAX` query answered, as integers.
pub open spec fn rango_entero_de(a: Result<Vec<ValorSql>, ErrorBd>) -> Result<(Option<Real>, Option<Real>), ErrorBd> {
    match a {
        Err(e) => Err(e),
        Ok(f) => if f@.len() >= 2 && entero_opcional_de(f@[0]) is Some && entero_opcional_de(f@[1]) is Some {
            Ok((como_real_de(entero_opcional_de(f@[0])->0), como_real_de(entero_opcional_de(f@[1])->0)))
        } else {
            Err(ErrorBd::TipoInvalido)
        },
    }
}

/// The distinct count that the `COUNT(DISTINCT ..)` query answered.
pub open spec fn distintos_de(a: Result<Vec<ValorSql>, ErrorBd>) -> Result<i64, ErrorBd> {
    match a {
        Err(e) => Err(e),
        Ok(f) => match entero_de(f@, 0) {
            Some(d) => Ok(d),
            None => Err(ErrorBd::TipoInvalido),
        },
    }
}

/// The distinct and row counts that their query answered.
pub open spec fn distintos_total_de(a: Result<Vec<ValorSql>, ErrorBd>) -> Result<(i64, i64), ErrorBd> {
    match a {
        Err(e) => Err(e),
        Ok(f) => match (entero_de(f@, 0), entero_de(f@, 1)) {
            (Some(d), Some(t)) => Ok((d, t)),
            _ => Err(ErrorBd::TipoInvalido),
        },
    }
}

/// The distinct count, total length and non-null count of a text sample,
/// when its query answered them.
pub open spec fn muestra_de(a: Result<Vec<ValorSql>, ErrorBd>) -> Option<(i64, Option<i64>, i64)> {
    match a {
        Err(_) => None,
        Ok(f) => if f@.len() >= 3 {
            match (spec_como_entero(f@[0]), entero_opcional_de(f@[1]), spec_como_entero(f@[2])) {
                (Some(d), Some(s), Some(n)) => Some((d, s, n)),
                _ => None,
            }
        } else {
            None
        },
    }
}

/// What the measuring queries of a column of type family `clase` answered
/// (`a1` the first, `a2` the distinct count of a real column): its counts,
/// dates and range; `Ok(None)` for a text column that cannot be measured.
pub open spec fn medidas_de(
    clase: ClaseTipo,
    a1: Result<Vec<ValorSql>, ErrorBd>,
    a2: Result<Vec<ValorSql>, ErrorBd>,
) -> Result<Option<(Conteos, (Option<String>, Option<String>), (Option<Real>, Option<Real>))>, ErrorBd> {
    let cero = Conteos { distintos: 0, total: 0, hay_minimo: false, suma_largos: None, con_largo: 0 };
    match clase {
        ClaseTipo::Fecha => match fechas_de(a1) {
            Ok(fs) => Ok(Some((cero, fs, (None, None)))),
            Err(e) => Err(e),
        },
        ClaseTipo::Real => match rango_real_de(a1) {
            Err(e) => Err(e),
            Ok(rg) => match distintos_de(a2) {
                Err(e) => Err(e),
                Ok(d) => Ok(Some((Conteos { distintos: d, hay_minimo: rg.0 is Some, ..cero }, (None, None), rg))),
            },
        },
        ClaseTipo::Entero => match distintos_total_de(a1) {
            Err(e) => Err(e),
            Ok(dt) => Ok(Some((Conteos { distintos: dt.0, total: dt.1, ..cero }, (None, None), (None, None)))),
        },
        ClaseTipo::Otro => match muestra_de(a1) {
            None => Ok(None),
            Some(m) => Ok(Some((Conteos { distintos: m.0, suma_largos: m.1, con_largo: m.2, ..cero }, (None, None), (None, None)))),
        },
    }
}

/// `v` holds the texts `t` as column values.
pub open spec fn textos_como_valores(v: Seq<ValorColumna>, t: Seq<Seq<char>>) -> bool {
    &&& v.len() == t.len()
    &&& forall|k: int| 0 <= k < v.len() ==> (#[trigger] v[k] matches ValorColumna::Texto(s) && s@ == t[k])
}

/// `v` are the values that the values query of a column of type family
/// `clase` answered with rows `filas`: cell 0 read as a real, an integer or
/// a text.
pub open spec fn valores_leidos(clase: ClaseTipo, filas: Seq<Vec<ValorSql>>, v: Seq<ValorColumna>) -> bool {
    match clase {
        ClaseTipo::Real => v == reales_spec(filas),
        ClaseTipo::Entero => v == enteros_spec(filas),
        _ => textos_como_valores(v, spec_textos_columna(filas, 0)),
    }
}

/// The values a filter holds (none when it holds none).
pub open spec fn valores_de_info(o: Option<ColumnaInfo>) -> Seq<ValorColumna> {
    match o {
        Some(info) => match info.valores {
            Some(v) => v@,
            None => Seq::empty(),
        },
        None => Seq::empty(),
    }
}

/// `r` is the filter of column `nombre` of type family `clase` that the
/// answers of its queries give: `a1`, `a2` the measuring ones, `av` the
/// values one (asked for a categorical filter), `a4` the range of an
/// integer column (asked for a numeric filter); a failed answer that is
/// read gives its error.
pub open spec fn columna_de_respuestas(
    nombre: Seq<char>,
    clase: ClaseTipo,
    a1: Result<Vec<ValorSql>, ErrorBd>,
    a2: Result<Vec<ValorSql>, ErrorBd>,
    av: Result<Filas, ErrorBd>,
    a4: Result<Vec<ValorSql>, ErrorBd>,
    r: Result<Option<ColumnaInfo>, ErrorBd>,
) -> bool {
    match medidas_de(clase, a1, a2) {
        Err(e) => r == Err::<Option<ColumnaInfo>, ErrorBd>(e),
        Ok(None) => r == Ok::<Option<ColumnaInfo>, ErrorBd>(None),
        Ok(Some(m)) => {
            let e = eleccion(clase, m.0);
            if e is Categorica && av is Err {
                r == Err::<Option<ColumnaInfo>, ErrorBd>(av->Err_0)
            } else if e is Numerica && clase is Entero && rango_entero_de(a4) is Err {
                r == Err::<Option<ColumnaInfo>, ErrorBd>(rango_entero_de(a4)->Err_0)
            } else {
                let rango = if e is Numerica && clase is Entero {
                    rango_entero_de(a4)->Ok_0
                } else {
                    m.2
                };
                r matches Ok(o) && columna_decidida(nombre, e, m.0, m.1, rango, valores_de_info(o), o) && (
                e is Categorica ==> valores_leidos(clase, av->Ok_0.filas(), valores_de_info(o)))
            }
        },
    }
}

/// A query is left out only when the earlier answers make it needless: the
/// count of distinct values of a real column whose range was read, the
/// values of a column chosen as categorical, the range of an integer column
/// chosen as numeric are always asked for.
pub open spec fn respuestas_necesarias(
    clase: ClaseTipo,
    a1: Result<Vec<ValorSql>, ErrorBd>,
    a2: Result<Vec<ValorSql>, ErrorBd>,
    av: Result<Filas, ErrorBd>,
    a4: Result<Vec<ValorSql>, ErrorBd>,
) -> bool {
    &&& (clase is Real && rango_real_de(a1) is Ok) ==> a2 != Err::<Vec<ValorSql>, ErrorBd>(ErrorBd::TipoInvalido)
    &&& (medidas_de(clase, a1, a2) matches Ok(Some(m)) && eleccion(clase, m.0) is Categorica) ==> av
        != Err::<Filas, ErrorBd>(ErrorBd::TipoInvalido)
    &&& (medidas_de(clase, a1, a2) matches Ok(Some(m)) && eleccion(clase, m.0) is Numerica && clase is Entero)
        ==> a4 != Err::<Vec<ValorSql>, ErrorBd>(ErrorBd::TipoInvalido)
}

/// The first query that measures a column of type family `clase`.
pub open spec fn consulta_medida(clase: ClaseTipo, sc: Seq<char>, st: Seq<char>) -> Seq<char> {
    match clase {
        ClaseTipo::Fecha => sql_min_max(sc, st),
        ClaseTipo::Real => sql_min_max(sc, st),
        ClaseTipo::Entero => sql_distintos_y_total(sc, st),
        ClaseTipo::Otro => sql_muestra_texto(sc, st),
    }
}

/// The query of the values of a column of type family `clase`.
pub open spec fn consulta_valores(clase: ClaseTipo, sc: Seq<char>, st: Seq<char>) -> Seq<char> {
    match clase {
        ClaseTipo::Real => sql_valores_ordenados(sc, st),
        ClaseTipo::Entero => sql_valores_ordenados(sc, st),
        _ => sql_valores_texto(sc, st),
    }
}

/// `r` is the catalogue filter of column `col` whose catalogue `fk.tabla`
/// has naming column `cn`, from the answer `av` of its values query: the
/// column's name without the key prefix, the catalogue's names as values.
pub open spec fn catalogo_respondido(
    col: ColumnaRaw,
    fk: FkInfo,
    ac: AnalyseConfig,
    cn: String,
    av: Result<Filas, ErrorBd>,
    r: Result<Option<ColumnaInfo>, ErrorBd>,
) -> bool {
    match av {
        Err(e) => r == Err::<Option<ColumnaInfo>, ErrorBd>(e),
        Ok(f) => r matches Ok(Some(info)) && {
            &&& info.tipo@ == "categorical_fk"@
            &&& info.nombre@ == spec_strip_prefix(col.name@, ac.fk_id_prefix@)
            &&& info.col_original == Some(col.name)
            &&& info.tabla_catalogo == Some(fk.tabla)
            &&& info.col_nombre_catalogo == Some(cn)
            &&& info.valores matches Some(v) && textos_como_valores(v@, spec_textos_columna(f.filas(), 0))
                && info.total_distintos == Some(v.len() as u64)
            &&& info.min is None && info.max is None && info.fecha_min is None && info.fecha_max is None
        },
    }
}

/// `r` is the filter that the answers of the queries of column `col` of
/// `tabla` give: for a foreign key (the first keyed `tabla.column`) whose
/// catalogue's column list names a column, the catalogue filter of the
/// catalogue's values; else the filter of its type family.
pub open spec fn columna_respondida(
    tabla: Seq<char>,
    col: ColumnaRaw,
    fks: Seq<(String, FkInfo)>,
    ac: AnalyseConfig,
    r: Result<Option<ColumnaInfo>, ErrorBd>,
) -> bool {
    match primera_fk(fks, clave_columna(tabla, col.name@)) {
        Some(j) => exists|an: Result<Option<String>, ErrorBd>|
            #[trigger] fk_respondida(tabla, col, fks[j].1, ac, an, r) && nombre_respondido(
                fks[j].1.tabla@,
                ac,
                an,
            ),
        None => clase_respondida(spec_safe_ident(tabla), col, r),
    }
}

/// `r` is the filter of column `col`, a foreign key to catalogue `fk.tabla`
/// whose column list answered the naming column `an`.
pub open spec fn fk_respondida(
    tabla: Seq<char>,
    col: ColumnaRaw,
    fk: FkInfo,
    ac: AnalyseConfig,
    an: Result<Option<String>, ErrorBd>,
    r: Result<Option<ColumnaInfo>, ErrorBd>,
) -> bool {
    match an {
        Err(e) => r == Err::<Option<ColumnaInfo>, ErrorBd>(e),
        Ok(Some(cn)) => exists|av: Result<Filas, ErrorBd>|
            #[trigger] catalogo_respondido(col, fk, ac, cn, av, r) && filas_respondidas(
                sql_valores_catalogo(spec_safe_ident(cn@), spec_safe_ident(fk.tabla@)),
                Seq::empty(),
                av,
            ),
        Ok(None) => clase_respondida(spec_safe_ident(tabla), col, r),
    }
}

/// `r` is the filter that the answers of the queries of column `col` of the
/// table quoted `st` give (see `columna_de_respuestas`).
pub open spec fn clase_respondida(st: Seq<char>, col: ColumnaRaw, r: Result<Option<ColumnaInfo>, ErrorBd>) -> bool {
    let clase = spec_clase_tipo(col.col_type@);
    let sc = spec_safe_ident(col.name@);
    exists|
        a1: Result<Vec<ValorSql>, ErrorBd>,
        a2: Result<Vec<ValorSql>, ErrorBd>,
        av: Result<Filas, ErrorBd>,
        a4: Result<Vec<ValorSql>, ErrorBd>,
    |
        #![trigger columna_de_respuestas(col.name@, clase, a1, a2, av, a4, r)]
        fila_respondida(consulta_medida(clase, sc, st), Seq::empty(), a1) && fila_respondida_u_omitida(
            sql_distintos(sc, st),
            Seq::empty(),
            a2,
        ) && filas_respondidas_u_omitidas(consulta_valores(clase, sc, st), Seq::empty(), av)
            && fila_respondida_u_omitida(sql_min_max(sc, st), Seq::empty(), a4) && respuestas_necesarias(
            clase,
            a1,
            a2,
            av,
            a4,
        ) && columna_de_respuestas(
            col.name@,
            clase,
            a1,
            a2,
            av,
            a4,
            r,
        )
}

fn texto_opcional(v: &ValorSql) -> (r: Option<Option<String>>)
    ensures
        r == texto_opcional_de(*v),
{
    match v {
        ValorSql::Nulo => Some(None),
        ValorSql::Texto(t) => Some(Some(t.clone())),
        _ => None,
    }
}

fn real_opcional(v: &ValorSql) -> (r: Option<Option<Real>>)
    ensures
        r == real_opcional_de(*v),
{
    match v {
        ValorSql::Nulo => Some(None),
        ValorSql::Entero(i) => Some(Some(Real::Entero(*i))),
        ValorSql::Real(x) => Some(Some(x.clone())),
        _ => None,
    }
}

fn entero_opcional(v: &ValorSql) -> (r: Option<Option<i64>>)
    ensures
        r == entero_opcional_de(*v),
{
    match v {
        ValorSql::Nulo => Some(None),
        ValorSql::Entero(i) => Some(Some(*i)),
        _ => None,
    }
}

/// Reads the dates of the `MIN`/`MAX` answer.
pub fn leer_fechas(a: Result<Vec<ValorSql>, ErrorBd>) -> (r: Result<(Option<String>, Option<String>), ErrorBd>)
    ensures
        r == fechas_de(a),
{
    match a {
        Err(e) => Err(e),
        Ok(f) => if f.len() >= 2 {
            match (texto_opcional(&f[0]), texto_opcional(&f[1])) {
                (Some(x), Some(y)) => Ok((x, y)),
                _ => Err(ErrorBd::TipoInvalido),
            }
        } else {
            Err(ErrorBd::TipoInvalido)
        },
    }
}

/// Reads the range of the `MIN`/`MAX` answer as REALs.
pub fn leer_rango_real(a: Result<Vec<ValorSql>, ErrorBd>) -> (r: Result<(Option<Real>, Option<Real>), ErrorBd>)
    ensures
        r == rango_real_de(a),
{
    match a {
        Err(e) => Err(e),
        Ok(f) => if f.len() >= 2 {
            match (real_opcional(&f[0]), real_opcional(&f[1])) {
                (Some(x), Some(y)) => Ok((x, y)),
                _ => Err(ErrorBd::TipoInvalido),
            }
        } else {
            Err(ErrorBd::TipoInvalido)
        },
    }
}

/// Reads the range of the `MIN`/`MAX` answer as integers.
pub fn leer_rango_entero(a: Result<Vec<ValorSql>, ErrorBd>) -> (r: Result<(Option<Real>, Option<Real>), ErrorBd>)
    ensures
        r == rango_entero_de(a),
{
    match a {
        Err(e) => Err(e),
        Ok(f) => if f.len() >= 2 {
            match (entero_opcional(&f[0]), entero_opcional(&f[1])) {
                (Some(x), Some(y)) => Ok((
                    match x {
                        Some(i) => Some(Real::Entero(i)),
                        None => None,
                    },
                    match y {
                        Some(i) => Some(Real::Entero(i)),
                        None => None,
                    },
                )),
                _ => Err(ErrorBd::TipoInvalido),
            }
        } else {
            Err(ErrorBd::TipoInvalido)
        },
    }
}

/// Reads the distinct count.
pub fn leer_distintos(a: Result<Vec<ValorSql>, ErrorBd>) -> (r: Result<i64, ErrorBd>)
    ensures
        r == distintos_de(a),
{
    match a {
        Err(e) => Err(e),
        Ok(f) => match entero_en(&f, 0) {
            Some(d) => Ok(d),
            None => Err(ErrorBd::TipoInvalido),
        },
    }
}

/// Reads the distinct and row counts.
pub fn leer_distintos_total(a: Result<Vec<ValorSql>, ErrorBd>) -> (r: Result<(i64, i64), ErrorBd>)
    ensures
        r == distintos_total_de(a),
{
    match a {
        Err(e) => Err(e),
        Ok(f) => match (entero_en(&f, 0), entero_en(&f, 1)) {
            (Some(d), Some(t)) => Ok((d, t)),
            _ => Err(ErrorBd::TipoInvalido),
        },
    }
}

/// Reads the measures of a text sample.
pub fn leer_muestra(a: Result<Vec<ValorSql>, ErrorBd>) -> (r: Option<(i64, Option<i64>, i64)>)
    ensures
        r == muestra_de(a),
{
    match a {
        Err(_) => None,
        Ok(f) => if f.len() >= 3 {
            match (entero_en(&f, 0), entero_opcional(&f[1]), entero_en(&f, 2)) {
                (Some(d), Some(s), Some(n)) => Some((d, s, n)),
                _ => None,
            }
        } else {
            None
        },
    }
}

/// The filter of a column from the answers of its queries, past the
/// catalogue case.
fn columna_por_clase(conn: &rusqlite::Connection, st: &str, col: &ColumnaRaw) -> (r: Result<
    Option<ColumnaInfo>,
    ErrorBd,
>)
    ensures
        clase_respondida(st@, *col, r),
        r matches Ok(Some(info)) ==> forma_de_info(info) && info.nombre@ == col.name@ && tipo_segun_clase(
            spec_clase_tipo(col.col_type@),
            info.tipo@,
        ),
        r matches Ok(None) ==> spec_clase_tipo(col.col_type@) is Entero || spec_clase_tipo(
            col.col_type@,
        ) is Otro,
{
    proof {
        lema_tipos_distintos();
    }
    let sc = safe_ident(col.name.as_str());
    let clase = clase_tipo(&col.col_type);
    let sin_valores: Vec<ParamSql> = Vec::new();
    assert(vistas_params(sin_valores@) =~= Seq::<ParamVista>::empty());
    let ghost nada: Result<Vec<ValorSql>, ErrorBd> = Err(ErrorBd::TipoInvalido);
    let ghost nadas: Result<Filas, ErrorBd> = Err(ErrorBd::TipoInvalido);
    let sql1 = match clase {
        ClaseTipo::Fecha => texto_min_max(sc.as_str(), st),
        ClaseTipo::Real => texto_min_max(sc.as_str(), st),
        ClaseTipo::Entero => texto_distintos_y_total(sc.as_str(), st),
        ClaseTipo::Otro => texto_muestra_texto(sc.as_str(), st),
    };
    let a1 = consultar_fila(conn, sql1.as_str(), sin_valores.as_slice());
    let ghost g1 = a1;
    let ghost mut g2 = nada;
    let mut c = Conteos { distintos: 0, total: 0, hay_minimo: false, suma_largos: None, con_largo: 0 };
    let mut fechas: (Option<String>, Option<String>) = (None, None);
    let mut rango: (Option<Real>, Option<Real>) = (None, None);
    match clase {
        ClaseTipo::Fecha => {
            match leer_fechas(a1) {
                Ok(fs) => {
                    fechas = fs;
                },
                Err(e) => {
                    assert(columna_de_respuestas(col.name@, clase, g1, g2, nadas, nada, Err::<Option<ColumnaInfo>, ErrorBd>(e)));
                    return Err(e);
                },
            }
        },
        ClaseTipo::Real => {
            match leer_rango_real(a1) {
                Ok(rg) => {
                    let a2 = consultar_fila(conn, texto_distintos(sc.as_str(), st).as_str(), sin_valores.as_slice());
                    proof {
                        g2 = a2;
                    }
                    match leer_distintos(a2) {
                        Ok(d) => {
                            c.distintos = d;
                            c.hay_minimo = rg.0.is_some();
                            rango = rg;
                        },
                        Err(e) => {
                            assert(columna_de_respuestas(col.name@, clase, g1, g2, nadas, nada, Err::<Option<ColumnaInfo>, ErrorBd>(e)));
                            return Err(e);
                        },
                    }
                },
                Err(e) => {
                    assert(columna_de_respuestas(col.name@, clase, g1, g2, nadas, nada, Err::<Option<ColumnaInfo>, ErrorBd>(e)));
                    return Err(e);
                },
            }
        },
        ClaseTipo::Entero => {
            match leer_distintos_total(a1) {
                Ok((d, t)) => {
                    c.distintos = d;
                    c.total = t;
                },
                Err(e) => {
                    assert(columna_de_respuestas(col.name@, clase, g1, g2, nadas, nada, Err::<Option<ColumnaInfo>, ErrorBd>(e)));
                    return Err(e);
                },
            }
        },
        ClaseTipo::Otro => {
            match leer_muestra(a1) {
                Some((d, s, n)) => {
                    c.distintos = d;
                    c.suma_largos = s;
                    c.con_largo = n;
                },
                None => {
                    assert(columna_de_respuestas(col.name@, clase, g1, g2, nadas, nada, Ok::<Option<ColumnaInfo>, ErrorBd>(None)));
                    return Ok(None);
                },
            }
        },
    }
    assert(medidas_de(clase, g1, g2) == Ok::<_, ErrorBd>(Some((c, fechas, rango))));
    let e = elegir_filtro(clase, &c);
    let mut valores: Vec<ValorColumna> = Vec::new();
    let ghost mut gv = nadas;
    if e == Eleccion::Categorica {
        let sqlv = match clase {
            ClaseTipo::Real => texto_valores_ordenados(sc.as_str(), st),
            ClaseTipo::Entero => texto_valores_ordenados(sc.as_str(), st),
            _ => texto_valores_texto(sc.as_str(), st),
        };
        let av = consultar(conn, sqlv.as_str(), sin_valores.as_slice());
        let f = match av {
            Ok(f) => f,
            Err(e) => {
                proof {
                    gv = Err(e);
                }
                assert(columna_de_respuestas(col.name@, clase, g1, g2, gv, nada, Err::<Option<ColumnaInfo>, ErrorBd>(e)));
                return Err(e);
            },
        };
        proof {
            gv = Ok(f);
        }
        match clase {
            ClaseTipo::Real => {
                valores = reales_de_filas(f.lista());
            },
            ClaseTipo::Entero => {
                valores = enteros_de_filas(f.lista());
            },
            _ => {
                let ghost t = spec_textos_columna(f.filas(), 0);
                let textos = textos_de_columna(f.lista(), 0);
                valores = valores_de_textos(textos);
                assert(textos_como_valores(valores@, t));
            },
        }
        assert(valores_leidos(clase, gv->Ok_0.filas(), valores@));
    }
    assert(e == Eleccion::Categorica ==> (gv is Ok && valores_leidos(clase, gv->Ok_0.filas(), valores@)));
    assert(e != Eleccion::Categorica ==> valores@.len() == 0);
    let ghost mut g4 = nada;
    if e == Eleccion::Numerica && clase == ClaseTipo::Entero {
        let a4 = consultar_fila(conn, texto_min_max(sc.as_str(), st).as_str(), sin_valores.as_slice());
        proof {
            g4 = a4;
        }
        match leer_rango_entero(a4) {
            Ok(rg) => {
                rango = rg;
            },
            Err(e) => {
                assert(columna_de_respuestas(col.name@, clase, g1, g2, gv, g4, Err::<Option<ColumnaInfo>, ErrorBd>(e)));
                return Err(e);
            },
        }
    }
    let ghost (c0, f0, r0, v0) = (c, fechas, rango, valores@);
    let r = decidir_columna(col.name.clone(), clase, &c, fechas, rango, valores);
    assert(columna_decidida(col.name@, eleccion(clase, c0), c0, f0, r0, v0, r));
    assert(e == Eleccion::Numerica && clase == ClaseTipo::Entero ==> r0 == rango_entero_de(g4)->Ok_0);
    assert(!(e == Eleccion::Numerica && clase == ClaseTipo::Entero) ==> r0 == medidas_de(clase, g1, g2)->Ok_0->Some_0.2);
    proof {
        let m = medidas_de(clase, g1, g2)->Ok_0->Some_0;
        assert(m.0 == c0 && m.1 == f0);
        assert(columna_decidida(col.name@, eleccion(clase, m.0), m.0, m.1, r0, v0, r));
        let rg = if eleccion(clase, m.0) is Numerica && clase is Entero {
            rango_entero_de(g4)->Ok_0
        } else {
            m.2
        };
        assert(rg == r0);
        assert(!(eleccion(clase, m.0) is Categorica && gv is Err));
        assert(!(eleccion(clase, m.0) is Numerica && clase is Entero && rango_entero_de(g4) is Err));
        assert(if eleccion(clase, m.0) is Categorica {
            valores_leidos(clase, gv->Ok_0.filas(), v0)
        } else {
            v0.len() == 0
        });
    }
    assert(columna_de_respuestas(col.name@, clase, g1, g2, gv, g4, Ok::<Option<ColumnaInfo>, ErrorBd>(r)));
    Ok(r)
}


// ── the status column ──────────────────────────────────────────────────────

/// What was measured of a candidate status column: its distinct non-empty
/// values and its non-empty rows; how many distinct values are short; and,
/// when it has few distinct values, how many rows match the pending and the
/// signed pattern among `filas` rows (`filas` is at least one).
#[derive(Debug, Clone, Copy)]
pub struct MedidaEstado {
    pub distintos: i64,
    pub total: i64,
    pub cortos: i64,
    pub pendientes: i64,
    pub firmados: i64,
    pub filas: i64,
}

/// A count as a natural number (counts are never negative).
pub open spec fn cuenta(x: i64) -> int {
    if x < 0 {
        0
    } else {
        x as int
    }
}

/// The rows that the status shares are taken over (at least one).
pub open spec fn base_filas(m: MedidaEstado) -> int {
    if m.filas < 1 {
        1
    } else {
        m.filas as int
    }
}

/// Shaped like a status: few distinct values for its rows (below 3/10), two
/// to ten of them, and more than four fifths of them short.
pub open spec fn forma_de_estado(m: MedidaEstado) -> bool {
    let d = m.distintos as int;
    let t = m.total as int;
    let s = cuenta(m.cortos);
    &&& constants::STATUS_DISTINCT_RATIO_THRESHOLD_DEN * d < constants::STATUS_DISTINCT_RATIO_THRESHOLD_NUM * t
    &&& constants::STATUS_MIN_DISTINCT <= d <= constants::STATUS_MAX_DISTINCT
    &&& constants::STATUS_SHORT_RATIO_THRESHOLD_DEN * s > constants::STATUS_SHORT_RATIO_THRESHOLD_NUM * d
}

/// The patterns together match more than half of the rows.
pub open spec fn estados_combinados(m: MedidaEstado) -> bool {
    constants::STATUS_COMBINED_THRESHOLD_DEN * (cuenta(m.pendientes) + cuenta(m.firmados))
        > constants::STATUS_COMBINED_THRESHOLD_NUM * base_filas(m)
}

/// Each pattern matches more than one row in a hundred.
pub open spec fn ambos_estados(m: MedidaEstado) -> bool {
    &&& constants::STATUS_THRESHOLD_DEN * cuenta(m.pendientes) > constants::STATUS_THRESHOLD_NUM * base_filas(m)
    &&& constants::STATUS_THRESHOLD_DEN * cuenta(m.firmados) > constants::STATUS_THRESHOLD_NUM * base_filas(m)
}

/// Twice the weight when both statuses are present.
pub open spec fn multiplicador(m: MedidaEstado) -> int {
    if ambos_estados(m) {
        constants::STATUS_BOTH_MULTIPLIER as int
    } else {
        1
    }
}

/// The score of a candidate status column, as a fraction `(num, den)`, or
/// none when it is no candidate:
/// - shaped like a status and matching the patterns in more than half of its
///   rows: 1/2 plus the matched share, doubled when both patterns occur;
/// - shaped like a status otherwise: 1/2 plus 3/10 of its distinct values
///   over its rows (at most a hundred per distinct value);
/// - not shaped like a status but matching in more than half of its rows:
///   the matched share, doubled when both patterns occur.
pub open spec fn puntaje_estado_spec(m: MedidaEstado) -> Option<(int, int)> {
    let p = cuenta(m.pendientes) + cuenta(m.firmados);
    let n = base_filas(m);
    let k = multiplicador(m);
    if m.total <= 0 {
        None
    } else if forma_de_estado(m) {
        if estados_combinados(m) {
            Some((n + 2 * k * p, 2 * n))
        } else {
            let d = m.distintos as int;
            let c = if (m.total as int) < 100 * d {
                m.total as int
            } else {
                100 * d
            };
            Some((10 * c + 6 * d, 20 * c))
        }
    } else if estados_combinados(m) {
        Some((k * p, n))
    } else {
        None
    }
}

fn cuenta_exec(x: i64) -> (r: u128)
    ensures
        r as int == cuenta(x),
        r <= i64::MAX,
{
    if x < 0 {
        0
    } else {
        x as u128
    }
}

/// The score of a candidate status column (see `puntaje_estado_spec`).
pub fn puntaje_estado(m: &MedidaEstado) -> (r: Option<(u128, u128)>)
    ensures
        match r {
            Some((a, b)) => puntaje_estado_spec(*m) == Some((a as int, b as int)) && b > 0,
            None => puntaje_estado_spec(*m) is None,
        },
{
    if m.total <= 0 {
        return None;
    }
    let d = m.distintos;
    let t = m.total;
    let s = cuenta_exec(m.cortos);
    let pe = cuenta_exec(m.pendientes);
    let fi = cuenta_exec(m.firmados);
    let n: u128 = if m.filas < 1 {
        1
    } else {
        m.filas as u128
    };
    let p = pe + fi;
    let c_num: u128 = constants::STATUS_COMBINED_THRESHOLD_NUM as u128;
    let c_den: u128 = constants::STATUS_COMBINED_THRESHOLD_DEN as u128;
    let e_num: u128 = constants::STATUS_THRESHOLD_NUM as u128;
    let e_den: u128 = constants::STATUS_THRESHOLD_DEN as u128;
    let r_num: i128 = constants::STATUS_DISTINCT_RATIO_THRESHOLD_NUM as i128;
    let r_den: i128 = constants::STATUS_DISTINCT_RATIO_THRESHOLD_DEN as i128;
    let s_num: u128 = constants::STATUS_SHORT_RATIO_THRESHOLD_NUM as u128;
    let s_den: u128 = constants::STATUS_SHORT_RATIO_THRESHOLD_DEN as u128;
    assert(c_num == 1 && c_den == 2 && e_num == 1 && e_den == 100);
    assert(r_num == 3 && r_den == 10 && s_num == 4 && s_den == 5);
    assert(constants::STATUS_BOTH_MULTIPLIER == 2);
    let combinados = c_den * p > c_num * n;
    let ambos = e_den * pe > e_num * n && e_den * fi > e_num * n;
    let k: u128 = if ambos {
        constants::STATUS_BOTH_MULTIPLIER as u128
    } else {
        1
    };
    let forma = r_den * (d as i128) < r_num * (t as i128) && constants::STATUS_MIN_DISTINCT <= d
        && d <= constants::STATUS_MAX_DISTINCT && s_den * s > s_num * (d as u128);
    assert(combinados == estados_combinados(*m));
    assert(ambos == ambos_estados(*m));
    assert(k as int == multiplicador(*m));
    assert(forma == forma_de_estado(*m));
    if forma {
        if combinados {
            Some((n + 2 * k * p, 2 * n))
        } else {
            let d2 = d as u128;
            let c: u128 = if (t as u128) < 100 * d2 {
                t as u128
            } else {
                100 * d2
            };
            Some((10 * c + 6 * d2, 20 * c))
        }
    } else if combinados {
        Some((k * p, n))
    } else {
        None
    }
}

/// A column shaped like a status (between two and ten distinct values,
/// fewer than 3/10 of its rows, more than 4/5 of them short) whose patterns
/// together match more than half of its rows, each pattern more than one row
/// in a hundred, scores 1/2 plus twice the matched share: `(n + 4p) / 2n`
/// for `p` matched rows out of `n`.
pub proof fn ley_puntaje_ambos_estados(m: MedidaEstado)
    requires
        m.total > 0,
        m.filas >= 1,
        m.pendientes >= 0,
        m.firmados >= 0,
        m.cortos >= 0,
        10 * m.distintos < 3 * m.total,
        2 <= m.distintos <= 10,
        5 * m.cortos > 4 * m.distintos,
        2 * (m.pendientes + m.firmados) > m.filas,
        100 * m.pendientes > m.filas,
        100 * m.firmados > m.filas,
    ensures
        puntaje_estado_spec(m) == Some(
            (m.filas + 4 * (m.pendientes + m.firmados), 2 * m.filas),
        ),
{
}

/// The same column with only the pending pattern matching more than one
/// row in a hundred scores 1/2 plus the matched share once: `(n + 2p) / 2n`.
pub proof fn ley_puntaje_un_estado(m: MedidaEstado)
    requires
        m.total > 0,
        m.filas >= 1,
        m.pendientes >= 0,
        m.firmados >= 0,
        m.cortos >= 0,
        10 * m.distintos < 3 * m.total,
        2 <= m.distintos <= 10,
        5 * m.cortos > 4 * m.distintos,
        2 * (m.pendientes + m.firmados) > m.filas,
        100 * m.firmados <= m.filas,
    ensures
        puntaje_estado_spec(m) == Some(
            (m.filas + 2 * (m.pendientes + m.firmados), 2 * m.filas),
        ),
{
}

/// A column with more than ten distinct values is not shaped like a status;
/// when its patterns together match more than half of its rows, each more
/// than one row in a hundred, it scores twice the matched share: `2p / n`.
pub proof fn ley_puntaje_sin_forma_ambos_estados(m: MedidaEstado)
    requires
        m.total > 0,
        m.filas >= 1,
        m.pendientes >= 0,
        m.firmados >= 0,
        m.distintos > 10,
        2 * (m.pendientes + m.firmados) > m.filas,
        100 * m.pendientes > m.filas,
        100 * m.firmados > m.filas,
    ensures
        puntaje_estado_spec(m) == Some((2 * (m.pendientes + m.firmados), m.filas as int)),
{
}

/// Holding both statuses outweighs holding one: of two status-shaped
/// columns over the same rows, one matching both patterns (each more than
/// one row in a hundred) scores more than one matching only the pending
/// pattern in as many rows, whenever its matched share is at least half of
/// the other's.
pub proof fn ley_ambos_estados_pesan_doble(a: MedidaEstado, b: MedidaEstado)
    requires
        a.total > 0 && b.total > 0,
        a.filas >= 1 && a.filas == b.filas,
        a.pendientes >= 0 && a.firmados >= 0 && a.cortos >= 0,
        b.pendientes >= 0 && b.firmados >= 0 && b.cortos >= 0,
        10 * a.distintos < 3 * a.total && 2 <= a.distintos <= 10 && 5 * a.cortos > 4 * a.distintos,
        10 * b.distintos < 3 * b.total && 2 <= b.distintos <= 10 && 5 * b.cortos > 4 * b.distintos,
        2 * (a.pendientes + a.firmados) > a.filas,
        100 * a.pendientes > a.filas && 100 * a.firmados > a.filas,
        2 * (b.pendientes + b.firmados) > b.filas,
        100 * b.firmados <= b.filas,
        2 * (a.pendientes + a.firmados) > b.pendientes + b.firmados,
    ensures
        puntaje_estado_spec(a) matches Some(x) && puntaje_estado_spec(b) matches Some(y) && x.0 * y.1
            > y.0 * x.1,
{
    ley_puntaje_ambos_estados(a);
    ley_puntaje_un_estado(b);
    let n = a.filas as int;
    let pa = (a.pendientes + a.firmados) as int;
    let pb = (b.pendientes + b.firmados) as int;
    assert((n + 4 * pa) * (2 * n) > (n + 2 * pb) * (2 * n)) by (nonlinear_arith)
        requires
            n >= 1,
            2 * pa > pb,
    ;
}

/// The index of the first of the best scores among the first `n`.
pub open spec fn mejor_puntaje_hasta(ps: Seq<Option<(int, int)>>, n: int) -> Option<int>
    decreases n,
{
    if n <= 0 {
        None
    } else {
        let previo = mejor_puntaje_hasta(ps, n - 1);
        match ps[n - 1] {
            Some(x) => match previo {
                Some(j) => if mayor(x.0, x.1, ps[j].unwrap().0, ps[j].unwrap().1) {
                    Some(n - 1)
                } else {
                    previo
                },
                None => Some(n - 1),
            },
            None => previo,
        }
    }
}

/// Scores with positive denominators.
pub open spec fn puntajes_validos(ps: Seq<Option<(int, int)>>) -> bool {
    forall|k: int| 0 <= k < ps.len() && (#[trigger] ps[k]) is Some ==> ps[k].unwrap().1 > 0
}

proof fn lema_mejor_puntaje(ps: Seq<Option<(int, int)>>, n: int)
    requires
        0 <= n <= ps.len(),
        puntajes_validos(ps),
    ensures
        mejor_puntaje_hasta(ps, n) matches Some(j) ==> 0 <= j < n && ps[j] is Some,
        mejor_puntaje_hasta(ps, n) is None ==> forall|k: int| 0 <= k < n ==> ps[k] is None,
        mejor_puntaje_hasta(ps, n) matches Some(j) ==> forall|k: int|
            0 <= k < n && ps[k] is Some ==> !mayor(ps[k].unwrap().0, ps[k].unwrap().1, ps[j].unwrap().0, ps[j].unwrap().1),
        mejor_puntaje_hasta(ps, n) matches Some(j) ==> forall|k: int|
            0 <= k < j && ps[k] is Some ==> mayor(ps[j].unwrap().0, ps[j].unwrap().1, ps[k].unwrap().0, ps[k].unwrap().1),
    decreases n,
{
    if n > 0 {
        lema_mejor_puntaje(ps, n - 1);
        let previo = mejor_puntaje_hasta(ps, n - 1);
        if ps[n - 1] is Some {
            let x = ps[n - 1].unwrap();
            if previo is Some {
                let j = previo.unwrap();
                let y = ps[j].unwrap();
                assert(ps[n - 1].unwrap().1 > 0);
                assert(ps[j].unwrap().1 > 0);
                if mayor(x.0, x.1, y.0, y.1) {
                    assert forall|k: int| 0 <= k < n && ps[k] is Some implies !mayor(
                        ps[k].unwrap().0,
                        ps[k].unwrap().1,
                        x.0,
                        x.1,
                    ) by {
                        if k < n - 1 {
                            assert(ps[k].unwrap().1 > 0);
                            if mayor(ps[k].unwrap().0, ps[k].unwrap().1, x.0, x.1) {
                                lema_mayor_transitivo(
                                    ps[k].unwrap().0,
                                    ps[k].unwrap().1,
                                    x.0,
                                    x.1,
                                    y.0,
                                    y.1,
                                );
                            }
                        }
                    }
                    assert forall|k: int| 0 <= k < n - 1 && ps[k] is Some implies mayor(
                        x.0,
                        x.1,
                        ps[k].unwrap().0,
                        ps[k].unwrap().1,
                    ) by {
                        assert(ps[k].unwrap().1 > 0);
                        if k < j {
                            lema_mayor_transitivo(
                                x.0,
                                x.1,
                                y.0,
                                y.1,
                                ps[k].unwrap().0,
                                ps[k].unwrap().1,
                            );
                        } else if k > j {
                            // not above y, and y is below x
                            assert(!mayor(ps[k].unwrap().0, ps[k].unwrap().1, y.0, y.1));
                            assert(ps[k].unwrap().0 * y.1 <= y.0 * ps[k].unwrap().1);
                            assert(x.0 * y.1 > y.0 * x.1);
                            assert(x.0 * ps[k].unwrap().1 > ps[k].unwrap().0 * x.1) by (nonlinear_arith)
                                requires
                                    ps[k].unwrap().0 * y.1 <= y.0 * ps[k].unwrap().1,
                                    x.0 * y.1 > y.0 * x.1,
                                    y.1 > 0,
                                    x.1 > 0,
                                    ps[k].unwrap().1 > 0;
                        }
                    }
                }
            }
        }
    }
}

/// The first of the columns with the best score is the status column: no
/// scored column scores more, and every scored column before it scores less.
pub proof fn ley_columna_estado_es_la_mejor(ps: Seq<Option<(int, int)>>)
    requires
        puntajes_validos(ps),
    ensures
        mejor_puntaje_hasta(ps, ps.len() as int) matches Some(j) ==> {
            &&& 0 <= j < ps.len()
            &&& ps[j] is Some
            &&& forall|k: int|
                0 <= k < ps.len() && (#[trigger] ps[k]) is Some ==> !mayor(
                    ps[k].unwrap().0,
                    ps[k].unwrap().1,
                    ps[j].unwrap().0,
                    ps[j].unwrap().1,
                )
            &&& forall|k: int|
                0 <= k < j && (#[trigger] ps[k]) is Some ==> mayor(
                    ps[j].unwrap().0,
                    ps[j].unwrap().1,
                    ps[k].unwrap().0,
                    ps[k].unwrap().1,
                )
        },
        mejor_puntaje_hasta(ps, ps.len() as int) is None ==> forall|k: int|
            0 <= k < ps.len() ==> (#[trigger] ps[k]) is None,
{
    lema_mejor_puntaje(ps, ps.len() as int);
}

/// The scores as fractions of integers.
pub open spec fn puntajes_int(ps: Seq<Option<(u128, u128)>>) -> Seq<Option<(int, int)>> {
    ps.map_values(
        |p: Option<(u128, u128)>|
            match p {
                Some((a, b)) => Some((a as int, b as int)),
                None => None,
            },
    )
}

/// The index of the first of the best scores.
pub fn elegir_mejor_puntaje(ps: &Vec<Option<(u128, u128)>>) -> (r: Option<usize>)
    requires
        forall|k: int| 0 <= k < ps.len() ==> (#[trigger] ps@[k] matches Some((_, b)) ==> b > 0),
    ensures
        match r {
            Some(j) => mejor_puntaje_hasta(puntajes_int(ps@), ps.len() as int) == Some(j as int),
            None => mejor_puntaje_hasta(puntajes_int(ps@), ps.len() as int) is None,
        },
{
    let ghost pi = puntajes_int(ps@);
    let mut mejor: Option<usize> = None;
    let mut i: usize = 0;
    while i < ps.len()
        invariant
            i <= ps.len(),
            pi == puntajes_int(ps@),
            forall|k: int| 0 <= k < ps.len() ==> (#[trigger] ps@[k] matches Some((_, b)) ==> b > 0),
            match mejor {
                Some(j) => mejor_puntaje_hasta(pi, i as int) == Some(j as int) && j < i && ps@[j as int] is Some,
                None => mejor_puntaje_hasta(pi, i as int) is None,
            },
        decreases ps.len() - i,
    {
        match ps[i] {
            Some((a, b)) => {
                let toma = match mejor {
                    Some(j) => match ps[j] {
                        Some((c, d)) => mayor_fraccion(a, b, c, d),
                        None => true,
                    },
                    None => true,
                };
                if toma {
                    mejor = Some(i);
                }
            },
            None => {},
        }
        i = i + 1;
    }
    mejor
}

/// The `LIKE` pattern of a status pattern, bound as a parameter as it is:
/// upper-cased, between `%` signs.
pub open spec fn spec_patron_like(p: Seq<char>) -> Seq<char> {
    "%"@ + mayusculas_de(p) + "%"@
}

pub fn patron_like(p: &str) -> (r: String)
    ensures
        r@ == spec_patron_like(p@),
{
    let mut r = String::from_str("%");
    r.append(mayusculas(p).as_str());
    r.append("%");
    r
}

pub open spec fn sql_estado_distintos(sc: Seq<char>, st: Seq<char>) -> Seq<char> {
    "SELECT COUNT(DISTINCT CAST("@ + sc + " AS TEXT)), COUNT(*) FROM "@ + st + " WHERE CAST("@ + sc
        + " AS TEXT) IS NOT NULL AND CAST("@ + sc + " AS TEXT) != ''"@
}

pub open spec fn sql_estado_cortos(sc: Seq<char>, st: Seq<char>) -> Seq<char> {
    "SELECT COUNT(*) FROM (SELECT CAST("@ + sc + " AS TEXT) as v FROM "@ + st
        + " WHERE v IS NOT NULL AND v != '' GROUP BY v) WHERE LENGTH(v) <= "@ + decimal(
        constants::STATUS_SHORT_LENGTH_THRESHOLD as nat,
    )
}

pub open spec fn sql_estado_patrones(sc: Seq<char>, st: Seq<char>) -> Seq<char> {
    "SELECT SUM(CASE WHEN UPPER(CAST("@ + sc + " AS TEXT)) LIKE ? THEN 1 ELSE 0 END), SUM(CASE WHEN UPPER(CAST("@
        + sc + " AS TEXT)) LIKE ? THEN 1 ELSE 0 END), COUNT(*) FROM "@ + st
}

pub fn texto_estado_distintos(sc: &str, st: &str) -> (r: String)
    ensures
        r@ == sql_estado_distintos(sc@, st@),
{
    let mut r = String::from_str("SELECT COUNT(DISTINCT CAST(");
    r.append(sc);
    r.append(" AS TEXT)), COUNT(*) FROM ");
    r.append(st);
    r.append(" WHERE CAST(");
    r.append(sc);
    r.append(" AS TEXT) IS NOT NULL AND CAST(");
    r.append(sc);
    r.append(" AS TEXT) != ''");
    r
}

pub fn texto_estado_cortos(sc: &str, st: &str) -> (r: String)
    ensures
        r@ == sql_estado_cortos(sc@, st@),
{
    let mut r = String::from_str("SELECT COUNT(*) FROM (SELECT CAST(");
    r.append(sc);
    r.append(" AS TEXT) as v FROM ");
    r.append(st);
    r.append(" WHERE v IS NOT NULL AND v != '' GROUP BY v) WHERE LENGTH(v) <= ");
    r.append(texto_decimal(constants::STATUS_SHORT_LENGTH_THRESHOLD).as_str());
    r
}

pub fn texto_estado_patrones(sc: &str, st: &str) -> (r: String)
    ensures
        r@ == sql_estado_patrones(sc@, st@),
{
    let mut r = String::from_str("SELECT SUM(CASE WHEN UPPER(CAST(");
    r.append(sc);
    r.append(" AS TEXT)) LIKE ? THEN 1 ELSE 0 END), SUM(CASE WHEN UPPER(CAST(");
    r.append(sc);
    r.append(" AS TEXT)) LIKE ? THEN 1 ELSE 0 END), COUNT(*) FROM ");
    r.append(st);
    r
}

/// The integer in cell `i` of a row, if it reads as one.
fn entero_en(f: &Vec<ValorSql>, i: usize) -> (r: Option<i64>)
    ensures
        r == (if i < f.len() {
            spec_como_entero(f@[i as int])
        } else {
            None
        }),
{
    if i < f.len() {
        match como_entero(&f[i]) {
            Ok(x) => Some(x),
            Err(_) => None,
        }
    } else {
        None
    }
}

/// Cell `i` of a row read as an integer, if it is one.
pub open spec fn entero_de(f: Seq<ValorSql>, i: int) -> Option<i64> {
    if 0 <= i < f.len() {
        spec_como_entero(f[i])
    } else {
        None
    }
}

/// A cell read as an optional integer: NULL is none, an integer itself.
pub open spec fn entero_opcional_de(v: ValorSql) -> Option<Option<i64>> {
    match v {
        ValorSql::Nulo => Some(None),
        ValorSql::Entero(i) => Some(Some(i)),
        _ => None,
    }
}

/// The short distinct values that the second status query answered (0 when
/// it cannot be read).
pub open spec fn cortos_de(fc: Result<Vec<ValorSql>, ErrorBd>) -> i64 {
    match fc {
        Ok(g) => match entero_de(g@, 0) {
            Some(x) => x,
            None => 0,
        },
        Err(_) => 0,
    }
}

/// The pending and signed matches and the rows that the third status query
/// answered (rows at least one); 0, 0 and 1 when it cannot be read.
pub open spec fn patrones_de(fp: Result<Vec<ValorSql>, ErrorBd>) -> (i64, i64, i64) {
    match fp {
        Ok(h) => if h@.len() >= 3 {
            match (entero_opcional_de(h@[0]), entero_opcional_de(h@[1]), spec_como_entero(h@[2])) {
                (Some(Some(p)), Some(Some(q)), Some(n)) => (p, q, if n < 1 {
                    1
                } else {
                    n
                }),
                _ => (0, 0, 1),
            }
        } else {
            (0, 0, 1)
        },
        Err(_) => (0, 0, 1),
    }
}

/// The measurement of a status column from the answers of its three
/// queries: none when the first does not give two integers or counts no
/// non-empty row; the pattern matches only with few distinct values.
pub open spec fn medida_de(
    fd: Result<Vec<ValorSql>, ErrorBd>,
    fc: Result<Vec<ValorSql>, ErrorBd>,
    fp: Result<Vec<ValorSql>, ErrorBd>,
) -> Option<MedidaEstado> {
    match fd {
        Ok(f) => match (entero_de(f@, 0), entero_de(f@, 1)) {
            (Some(d), Some(t)) => if t <= 0 {
                None
            } else {
                let pq = if d <= constants::MAX_CATEGORICAL_VALUES {
                    patrones_de(fp)
                } else {
                    (0i64, 0i64, 1i64)
                };
                Some(
                    MedidaEstado {
                        distintos: d,
                        total: t,
                        cortos: cortos_de(fc),
                        pendientes: pq.0,
                        firmados: pq.1,
                        filas: pq.2,
                    },
                )
            },
            _ => None,
        },
        Err(_) => None,
    }
}

/// A status query is left out only when the first answer makes it
/// needless: the count of short values is asked for whenever the column has
/// rows, the pattern counts whenever it also has few distinct values.
pub open spec fn estados_necesarios(
    fd: Result<Vec<ValorSql>, ErrorBd>,
    fc: Result<Vec<ValorSql>, ErrorBd>,
    fp: Result<Vec<ValorSql>, ErrorBd>,
) -> bool {
    fd matches Ok(f) ==> match (entero_de(f@, 0), entero_de(f@, 1)) {
        (Some(d), Some(t)) => t > 0 ==> {
            &&& fc != Err::<Vec<ValorSql>, ErrorBd>(ErrorBd::TipoInvalido)
            &&& d <= constants::MAX_CATEGORICAL_VALUES ==> fp != Err::<Vec<ValorSql>, ErrorBd>(ErrorBd::TipoInvalido)
        },
        _ => true,
    }
}

/// `m` is what the three status queries of column `sc` of table `st`
/// (both quoted) answer, the patterns `pl` and `fl` bound to the third.
pub open spec fn medida_respondida(
    sc: Seq<char>,
    st: Seq<char>,
    pl: Seq<char>,
    fl: Seq<char>,
    m: Option<MedidaEstado>,
) -> bool {
    exists|
        fd: Result<Vec<ValorSql>, ErrorBd>,
        fc: Result<Vec<ValorSql>, ErrorBd>,
        fp: Result<Vec<ValorSql>, ErrorBd>,
    |
        #![trigger medida_de(fd, fc, fp)]
        fila_respondida(sql_estado_distintos(sc, st), Seq::empty(), fd) && fila_respondida_u_omitida(
            sql_estado_cortos(sc, st),
            Seq::empty(),
            fc,
        ) && fila_respondida_u_omitida(
            sql_estado_patrones(sc, st),
            seq![ParamVista::Texto(pl), ParamVista::Texto(fl)],
            fp,
        ) && estados_necesarios(fd, fc, fp) && m == medida_de(fd, fc, fp)
}

/// Measures a candidate status column: what `medida_de` makes of the
/// answers of its three queries.
fn medir_estado(
    conn: &rusqlite::Connection,
    st: &str,
    col: &str,
    pend_like: &String,
    firm_like: &String,
) -> (r: Option<MedidaEstado>)
    ensures
        medida_respondida(spec_safe_ident(col@), st@, pend_like@, firm_like@, r),
        r matches Some(m) ==> m.total > 0 && m.filas >= 1,
        r matches Some(m) ==> (m.distintos > constants::MAX_CATEGORICAL_VALUES ==> m.pendientes == 0
            && m.firmados == 0 && m.filas == 1),
{
    let sc = safe_ident(col);
    let sin_valores: Vec<ParamSql> = Vec::new();
    assert(vistas_params(sin_valores@) =~= Seq::<ParamVista>::empty());
    let ghost nada: Result<Vec<ValorSql>, ErrorBd> = Err(ErrorBd::TipoInvalido);
    let sql_d = texto_estado_distintos(sc.as_str(), st);
    let rd = consultar_fila(conn, sql_d.as_str(), sin_valores.as_slice());
    let ghost gd = rd;
    let fila = match rd {
        Ok(f) => f,
        Err(_) => {
            assert(medida_de(gd, nada, nada) is None);
            return None;
        },
    };
    let (distintos, total) = match (entero_en(&fila, 0), entero_en(&fila, 1)) {
        (Some(d), Some(t)) => (d, t),
        _ => {
            assert(medida_de(gd, nada, nada) is None);
            return None;
        },
    };
    if total <= 0 {
        assert(medida_de(gd, nada, nada) is None);
        return None;
    }
    let sql_c = texto_estado_cortos(sc.as_str(), st);
    let rc = consultar_fila(conn, sql_c.as_str(), sin_valores.as_slice());
    let ghost gc = rc;
    let cortos = match rc {
        Ok(f) => match entero_en(&f, 0) {
            Some(x) => x,
            None => 0,
        },
        Err(_) => 0,
    };
    let mut pendientes: i64 = 0;
    let mut firmados: i64 = 0;
    let mut filas: i64 = 1;
    let ghost mut gp = nada;
    if distintos <= constants::MAX_CATEGORICAL_VALUES as i64 {
        let mut params: Vec<ParamSql> = Vec::new();
        params.push(ParamSql::Texto(pend_like.clone()));
        params.push(ParamSql::Texto(firm_like.clone()));
        assert(vistas_params(params@) =~= seq![ParamVista::Texto(pend_like@), ParamVista::Texto(firm_like@)]);
        let sql_p = texto_estado_patrones(sc.as_str(), st);
        let rp = consultar_fila(conn, sql_p.as_str(), params.as_slice());
        proof {
            gp = rp;
        }
        match rp {
            Ok(f) => if f.len() >= 3 {
                match (como_entero_opcional(&f[0]), como_entero_opcional(&f[1]), como_entero(&f[2])) {
                    (Ok(Some(p)), Ok(Some(q)), Ok(n)) => {
                        pendientes = p;
                        firmados = q;
                        filas = if n < 1 {
                            1
                        } else {
                            n
                        };
                    },
                    _ => {},
                }
            },
            Err(_) => {},
        }
    }
    let r = Some(MedidaEstado { distintos, total, cortos, pendientes, firmados, filas });
    assert(r == medida_de(gd, gc, gp));
    r
}

/// The scores of a list of measurements (none where nothing was measured).
pub open spec fn puntajes_de(ms: Seq<Option<MedidaEstado>>) -> Seq<Option<(int, int)>> {
    Seq::new(
        ms.len(),
        |k: int|
            match ms[k] {
                Some(m) => puntaje_estado_spec(m),
                None => None,
            },
    )
}

/// `m` is the measurement of column `nombre` of `tabla` with the patterns
/// `pp` and `sp`: none for a name that is not plain, else what its queries
/// answer (see `medida_respondida`).
pub open spec fn medida_de_columna(
    nombre: Seq<char>,
    tabla: Seq<char>,
    pp: Seq<char>,
    sp: Seq<char>,
    m: Option<MedidaEstado>,
) -> bool {
    if spec_clean_identifier(nombre) {
        medida_respondida(
            spec_safe_ident(nombre),
            spec_safe_ident(tabla),
            spec_patron_like(pp),
            spec_patron_like(sp),
            m,
        )
    } else {
        m is None
    }
}

/// Each `ms[k]` is the measurement of column `nombres[k]`.
pub open spec fn medidas_respondidas(
    nombres: Seq<String>,
    tabla: Seq<char>,
    pp: Seq<char>,
    sp: Seq<char>,
    ms: Seq<Option<MedidaEstado>>,
) -> bool {
    &&& ms.len() == nombres.len()
    &&& forall|k: int| 0 <= k < ms.len() ==> #[trigger] medida_de_columna(nombres[k]@, tabla, pp, sp, ms[k])
}

/// `o` is the status column that the measurements `ms` of the columns
/// `nombres` give: only plain names are measured, and the first of the best
/// scores is chosen, none when no column scores.
pub open spec fn eleccion_de_estado(
    nombres: Seq<String>,
    ms: Seq<Option<MedidaEstado>>,
    o: Option<String>,
) -> bool {
    &&& ms.len() == nombres.len()
    &&& forall|k: int| 0 <= k < ms.len() && (#[trigger] ms[k]) is Some ==> spec_clean_identifier(nombres[k]@)
    &&& match mejor_puntaje_hasta(puntajes_de(ms), ms.len() as int) {
        Some(j) => o matches Some(c) && c@ == nombres[j]@,
        None => o is None,
    }
}

/// The status column of `tabla` among `col_names`: each column with a plain
/// name is measured and scored (see `puntaje_estado_spec`), and the first of
/// the best-scored columns is chosen; none when no column scores.
pub fn detectar_columna_estado(
    conn: &rusqlite::Connection,
    tabla: &str,
    col_names: &Vec<String>,
    pending_pattern: &str,
    signed_pattern: &str,
) -> (r: Result<Option<String>, ErrorBd>)
    ensures
        r is Ok,
        r matches Ok(Some(c)) ==> exists|j: int|
            0 <= j < col_names.len() && c@ == (#[trigger] col_names@[j])@ && spec_clean_identifier(
                c@,
            ),
        (forall|j: int| 0 <= j < col_names.len() ==> !spec_clean_identifier((#[trigger] col_names@[j])@))
            ==> r == Ok::<Option<String>, ErrorBd>(None),
        r matches Ok(o) ==> exists|ms: Seq<Option<MedidaEstado>>| #[trigger]
            eleccion_de_estado(col_names@, ms, o) && medidas_respondidas(
                col_names@,
                tabla@,
                pending_pattern@,
                signed_pattern@,
                ms,
            ),
{
    let st = safe_ident(tabla);
    let pend_like = patron_like(pending_pattern);
    let firm_like = patron_like(signed_pattern);
    let mut puntajes: Vec<Option<(u128, u128)>> = Vec::new();
    let ghost mut ms: Seq<Option<MedidaEstado>> = Seq::empty();
    let mut i: usize = 0;
    while i < col_names.len()
        invariant
            i <= col_names.len(),
            puntajes.len() == i,
            ms.len() == i,
            st@ == spec_safe_ident(tabla@),
            pend_like@ == spec_patron_like(pending_pattern@),
            firm_like@ == spec_patron_like(signed_pattern@),
            forall|k: int| 0 <= k < i ==> #[trigger] medida_de_columna(
                col_names@[k]@,
                tabla@,
                pending_pattern@,
                signed_pattern@,
                ms[k],
            ),
            puntajes_int(puntajes@) =~= puntajes_de(ms),
            forall|k: int| 0 <= k < i && (#[trigger] ms[k]) is Some ==> spec_clean_identifier(col_names@[k]@),
            forall|k: int| 0 <= k < i ==> (#[trigger] puntajes@[k] matches Some((_, b)) ==> b > 0),
            forall|k: int| 0 <= k < i && (#[trigger] puntajes@[k]) is Some ==> spec_clean_identifier(col_names@[k]@),
        decreases col_names.len() - i,
    {
        let col = col_names[i].as_str();
        let mut p: Option<(u128, u128)> = None;
        let ghost mut medida: Option<MedidaEstado> = None;
        if clean_identifier(col) {
            match medir_estado(conn, st.as_str(), col, &pend_like, &firm_like) {
                Some(m) => {
                    p = puntaje_estado(&m);
                    proof {
                        medida = Some(m);
                    }
                },
                None => {},
            }
        }
        let ghost antes = puntajes@;
        puntajes.push(p);
        proof {
            let ms0 = ms;
            ms = ms.push(medida);
            assert(medida_de_columna(col_names@[i as int]@, tabla@, pending_pattern@, signed_pattern@, medida));
            assert forall|k: int| 0 <= k < ms.len() implies #[trigger] medida_de_columna(
                col_names@[k]@,
                tabla@,
                pending_pattern@,
                signed_pattern@,
                ms[k],
            ) by {
                if k < ms0.len() {
                    assert(ms[k] == ms0[k]);
                }
            }
            assert(puntajes@ =~= antes.push(p));
            assert forall|k: int| 0 <= k < ms.len() implies puntajes_int(puntajes@)[k] == puntajes_de(ms)[k] by {
                if k < ms0.len() {
                    assert(puntajes_int(antes)[k] == puntajes_de(ms0)[k]);
                }
            }
        }
        i = i + 1;
    }
    match elegir_mejor_puntaje(&puntajes) {
        Some(j) => {
            proof {
                lema_mejor_puntaje(puntajes_int(puntajes@), puntajes.len() as int);
            }
            assert(puntajes@[j as int] is Some);
            let c = col_names[j].clone();
            assert(eleccion_de_estado(col_names@, ms, Some(c)));
            assert(medidas_respondidas(col_names@, tabla@, pending_pattern@, signed_pattern@, ms));
            Ok(Some(c))
        },
        None => {
            assert(eleccion_de_estado(col_names@, ms, None));
            assert(medidas_respondidas(col_names@, tabla@, pending_pattern@, signed_pattern@, ms));
            Ok(None)
        },
    }
}


// ── dependent columns ──────────────────────────────────────────────────────

/// A list of (key, value) text pairs, by their views.
pub open spec fn vista_pares(ps: Seq<(String, String)>) -> Seq<(Seq<char>, Seq<char>)> {
    ps.map_values(|p: (String, String)| (p.0@, p.1@))
}

/// A grouping, by its views.
pub open spec fn vista_grupos(g: Seq<(String, Vec<String>)>) -> Seq<(Seq<char>, Seq<Seq<char>>)> {
    g.map_values(|x: (String, Vec<String>)| (x.0@, vistas(x.1@)))
}

/// Every value of a group comes from a pair of the group's key.
proof fn lema_agrupar_origen(ps: Seq<(Seq<char>, Seq<char>)>)
    ensures
        forall|i: int, m: int|
            0 <= i < agrupar(ps).len() && 0 <= m < agrupar(ps)[i].1.len() ==> ps.contains(
                (agrupar(ps)[i].0, #[trigger] agrupar(ps)[i].1[m]),
            ),
    decreases ps.len(),
{
    if ps.len() > 0 {
        let previos = ps.drop_last();
        lema_agrupar_origen(previos);
        let g = agrupar(previos);
        let (k, v) = ps.last();
        lema_indice_grupo(g, k);
        let g2 = agrupar(ps);
        assert forall|i: int, m: int|
            0 <= i < g2.len() && 0 <= m < g2[i].1.len() implies ps.contains((g2[i].0, #[trigger] g2[i].1[m])) by {
            match indice_grupo(g, k) {
                Some(x) => {
                    if i == x && m == g[x].1.len() {
                        assert(g2[i].1[m] == v);
                        assert(ps[ps.len() - 1] == (k, v));
                    } else {
                        assert(g2[i].0 == g[i].0);
                        assert(g2[i].1[m] == g[i].1[m]);
                        assert(previos.contains((g[i].0, g[i].1[m])));
                        let q = choose|q: int| 0 <= q < previos.len() && previos[q] == (g[i].0, g[i].1[m]);
                        assert(ps[q] == previos[q]);
                    }
                },
                None => {
                    if i == g.len() {
                        assert(g2[i] == (k, seq![v]));
                        assert(ps[ps.len() - 1] == (k, v));
                    } else {
                        assert(g2[i] == g[i]);
                        assert(previos.contains((g[i].0, g[i].1[m])));
                        let q = choose|q: int| 0 <= q < previos.len() && previos[q] == (g[i].0, g[i].1[m]);
                        assert(ps[q] == previos[q]);
                    }
                },
            }
        }
    }
}

/// Grouping pairs that are all different lists each value of a key once:
/// the values of every group are pairwise different.
pub proof fn ley_agrupar_sin_repetir(ps: Seq<(Seq<char>, Seq<char>)>)
    requires
        ps.no_duplicates(),
    ensures
        forall|i: int| 0 <= i < agrupar(ps).len() ==> (#[trigger] agrupar(ps)[i]).1.no_duplicates(),
    decreases ps.len(),
{
    if ps.len() > 0 {
        let previos = ps.drop_last();
        assert(previos.no_duplicates()) by {
            assert forall|a: int, b: int| 0 <= a < b < previos.len() implies previos[a] != previos[b] by {
                assert(previos[a] == ps[a] && previos[b] == ps[b]);
            }
        }
        ley_agrupar_sin_repetir(previos);
        lema_agrupar_origen(previos);
        let g = agrupar(previos);
        let (k, v) = ps.last();
        lema_indice_grupo(g, k);
        let g2 = agrupar(ps);
        match indice_grupo(g, k) {
            Some(x) => {
                assert forall|m: int| 0 <= m < g[x].1.len() implies g[x].1[m] != v by {
                    if g[x].1[m] == v {
                        assert(previos.contains((g[x].0, g[x].1[m])));
                        let q = choose|q: int| 0 <= q < previos.len() && previos[q] == (g[x].0, g[x].1[m]);
                        assert(ps[q] == ps[ps.len() - 1]);
                    }
                }
                assert forall|i: int| 0 <= i < g2.len() implies (#[trigger] g2[i]).1.no_duplicates() by {
                    if i == x {
                        let w = g[x].1.push(v);
                        assert(g2[i].1 == w);
                        assert(g[x].1.no_duplicates());
                        assert forall|a: int, b: int| 0 <= a < b < w.len() implies w[a] != w[b] by {
                            if b == w.len() - 1 {
                                assert(w[a] == g[x].1[a]);
                            } else {
                                assert(w[a] == g[x].1[a] && w[b] == g[x].1[b]);
                            }
                        }
                    } else {
                        assert(g2[i] == g[i]);
                        assert(g[i].1.no_duplicates());
                    }
                }
            },
            None => {
                assert forall|i: int| 0 <= i < g2.len() implies (#[trigger] g2[i]).1.no_duplicates() by {
                    if i < g.len() {
                        assert(g2[i] == g[i]);
                        assert(g[i].1.no_duplicates());
                    } else {
                        assert(g2[i].1 == seq![v]);
                    }
                }
            },
        }
    }
}

/// The index of the group whose key is `k`.
pub open spec fn indice_grupo(g: Seq<(Seq<char>, Seq<Seq<char>>)>, k: Seq<char>) -> Option<int>
    decreases g.len(),
{
    if g.len() == 0 {
        None
    } else if g.last().0 == k {
        Some(g.len() - 1)
    } else {
        indice_grupo(g.drop_last(), k)
    }
}

/// The pairs grouped by key: keys in order of first appearance, each with
/// its values in order (a key that comes again adds its value to its group).
pub open spec fn agrupar(ps: Seq<(Seq<char>, Seq<char>)>) -> Seq<(Seq<char>, Seq<Seq<char>>)>
    decreases ps.len(),
{
    if ps.len() == 0 {
        Seq::empty()
    } else {
        let g = agrupar(ps.drop_last());
        let (k, v) = ps.last();
        match indice_grupo(g, k) {
            Some(i) => g.update(i, (k, g[i].1.push(v))),
            None => g.push((k, seq![v])),
        }
    }
}

proof fn lema_indice_grupo(g: Seq<(Seq<char>, Seq<Seq<char>>)>, k: Seq<char>)
    ensures
        indice_grupo(g, k) matches Some(i) ==> 0 <= i < g.len() && g[i].0 == k,
        indice_grupo(g, k) is None ==> forall|i: int| 0 <= i < g.len() ==> (#[trigger] g[i]).0 != k,
    decreases g.len(),
{
    if g.len() > 0 {
        lema_indice_grupo(g.drop_last(), k);
        if g.last().0 != k {
            assert forall|i: int| 0 <= i < g.len() - 1 implies #[trigger] g[i] == g.drop_last()[i] by {}
        }
    }
}

/// Keys occur once.
pub open spec fn claves_distintas(g: Seq<(Seq<char>, Seq<Seq<char>>)>) -> bool {
    forall|i: int, j: int| 0 <= i < j < g.len() ==> (#[trigger] g[i]).0 != (#[trigger] g[j]).0
}

/// Every pair's value is in the group of its key.
pub open spec fn pares_agrupados(ps: Seq<(Seq<char>, Seq<char>)>, g: Seq<(Seq<char>, Seq<Seq<char>>)>) -> bool {
    forall|p: int|
        0 <= p < ps.len() ==> exists|i: int|
            0 <= i < g.len() && g[i].0 == (#[trigger] ps[p]).0 && g[i].1.contains(ps[p].1)
}

/// Grouping keeps every key once and loses no pair: each pair's value is in
/// the one group of its key.
pub proof fn ley_agrupar(ps: Seq<(Seq<char>, Seq<char>)>)
    ensures
        claves_distintas(agrupar(ps)),
        pares_agrupados(ps, agrupar(ps)),
    decreases ps.len(),
{
    if ps.len() > 0 {
        let previos = ps.drop_last();
        ley_agrupar(previos);
        let g = agrupar(previos);
        let (k, v) = ps.last();
        lema_indice_grupo(g, k);
        let g2 = agrupar(ps);
        match indice_grupo(g, k) {
            Some(i) => {
                assert(g2 == g.update(i, (k, g[i].1.push(v))));
                assert forall|a: int, b: int| 0 <= a < b < g2.len() implies (#[trigger] g2[a]).0 != (
                #[trigger] g2[b]).0 by {
                    assert(g2[a].0 == g[a].0);
                    assert(g2[b].0 == g[b].0);
                }
                assert forall|p: int| 0 <= p < ps.len() implies exists|j: int|
                    0 <= j < g2.len() && g2[j].0 == (#[trigger] ps[p]).0 && g2[j].1.contains(ps[p].1) by {
                    if p == ps.len() - 1 {
                        assert(g2[i].1 == g[i].1.push(v));
                        assert(g2[i].1[g2[i].1.len() - 1] == v);
                    } else {
                        assert(ps[p] == previos[p]);
                        let j = choose|j: int|
                            0 <= j < g.len() && g[j].0 == previos[p].0 && g[j].1.contains(previos[p].1);
                        if j == i {
                            let m = choose|m: int| 0 <= m < g[j].1.len() && g[j].1[m] == previos[p].1;
                            assert(g2[j].1[m] == previos[p].1);
                        } else {
                            assert(g2[j] == g[j]);
                        }
                    }
                }
            },
            None => {
                assert(g2 == g.push((k, seq![v])));
                assert forall|a: int, b: int| 0 <= a < b < g2.len() implies (#[trigger] g2[a]).0 != (
                #[trigger] g2[b]).0 by {
                    if b == g2.len() - 1 {
                        assert(g[a].0 != k);
                    } else {
                        assert(g2[a] == g[a]);
                        assert(g2[b] == g[b]);
                    }
                }
                assert forall|p: int| 0 <= p < ps.len() implies exists|j: int|
                    0 <= j < g2.len() && g2[j].0 == (#[trigger] ps[p]).0 && g2[j].1.contains(ps[p].1) by {
                    if p == ps.len() - 1 {
                        assert(g2[g.len() as int].1[0] == v);
                    } else {
                        assert(ps[p] == previos[p]);
                        let j = choose|j: int|
                            0 <= j < g.len() && g[j].0 == previos[p].0 && g[j].1.contains(previos[p].1);
                        assert(g2[j] == g[j]);
                    }
                }
            },
        }
    }
}

/// The index of the group keyed `k`, searched from the end.
fn buscar_grupo(r: &Vec<(String, Vec<String>)>, k: &String) -> (res: Option<usize>)
    ensures
        match res {
            Some(i) => indice_grupo(vista_grupos(r@), k@) == Some(i as int) && i < r.len(),
            None => indice_grupo(vista_grupos(r@), k@) is None,
        },
{
    let ghost g = vista_grupos(r@);
    let mut j: usize = r.len();
    assert(g.subrange(0, j as int) =~= g);
    while j > 0
        invariant
            j <= r.len(),
            g == vista_grupos(r@),
            indice_grupo(g, k@) == indice_grupo(g.subrange(0, j as int), k@),
        decreases j,
    {
        assert(g.subrange(0, j as int).drop_last() =~= g.subrange(0, j - 1));
        if r[j - 1].0 == *k {
            return Some(j - 1);
        }
        j = j - 1;
    }
    assert(g.subrange(0, 0) =~= Seq::<(Seq<char>, Seq<Seq<char>>)>::empty());
    None
}

/// The pairs grouped by key (see `agrupar`).
pub fn agrupar_pares(pares: &Vec<(String, String)>) -> (r: Vec<(String, Vec<String>)>)
    ensures
        vista_grupos(r@) == agrupar(vista_pares(pares@)),
{
    let mut r: Vec<(String, Vec<String>)> = Vec::new();
    let mut i: usize = 0;
    while i < pares.len()
        invariant
            i <= pares.len(),
            vista_grupos(r@) == agrupar(vista_pares(pares@.subrange(0, i as int))),
        decreases pares.len() - i,
    {
        let ghost g = vista_grupos(r@);
        let ghost ps = vista_pares(pares@.subrange(0, i + 1));
        assert(ps.drop_last() =~= vista_pares(pares@.subrange(0, i as int)));
        assert(ps.last() == (pares@[i as int].0@, pares@[i as int].1@));
        let k = &pares[i].0;
        let v = &pares[i].1;
        let pos = buscar_grupo(&r, k);
        let j: usize = match pos {
            Some(x) => x + 1,
            None => 0,
        };
        proof {
            lema_indice_grupo(g, k@);
        }
        if j > 0 {
            assert(indice_grupo(g, k@) == Some(j - 1));
            let ghost antes = r@;
            let mut grupo = r.remove(j - 1);
            assert(grupo == antes[j - 1]);
            let ghost valores_antes = grupo.1@;
            grupo.1.push(v.clone());
            assert(vistas(grupo.1@) =~= vistas(valores_antes).push(v@));
            assert(grupo.0@ == k@);
            r.insert(j - 1, grupo);
            assert(r@ =~= antes.update(j - 1, grupo));
            assert(vista_grupos(r@) =~= g.update(j - 1, (k@, g[j - 1].1.push(v@))));
        } else {
            let mut valores: Vec<String> = Vec::new();
            valores.push(v.clone());
            assert(vistas(valores@) =~= seq![v@]);
            r.push((k.clone(), valores));
            assert(vista_grupos(r@) =~= g.push((k@, seq![v@])));
        }
        i = i + 1;
    }
    assert(pares@.subrange(0, pares.len() as int) =~= pares@);
    r
}


/// A foreign-key key names a column when, lower-cased, it holds the
/// lower-cased column name.
pub open spec fn clave_menciona(clave: Seq<char>, col: Seq<char>) -> bool {
    contiene(minusculas_de(clave), minusculas_de(col))
}

pub fn clave_menciona_exec(clave: &str, col: &str) -> (r: bool)
    ensures
        r == clave_menciona(clave@, col@),
{
    contiene_exec(&chars_de(minusculas(clave).as_str()), &chars_de(minusculas(col).as_str()))
}

/// The text before the first `.` (all of it when there is none), as
/// `split('.').next()` gives it.
pub open spec fn primer_segmento(s: Seq<char>) -> Seq<char>
    decreases s.len(),
{
    if s.len() == 0 {
        s
    } else if s[0] == '.' {
        Seq::empty()
    } else {
        seq![s[0]] + primer_segmento(s.drop_first())
    }
}

pub fn primer_segmento_exec(s: &str) -> (r: String)
    ensures
        r@ == primer_segmento(s@),
{
    let cs = chars_de(s);
    let mut i: usize = 0;
    assert(cs@.skip(0) =~= cs@);
    while i < cs.len()
        invariant
            i <= cs.len(),
            cs@ == s@,
            forall|j: int| 0 <= j < i ==> cs@[j] != '.',
            primer_segmento(s@) == cs@.subrange(0, i as int) + primer_segmento(cs@.skip(i as int)),
        decreases cs.len() - i,
    {
        if cs[i] == '.' {
            assert(primer_segmento(cs@.skip(i as int)) =~= Seq::<char>::empty());
            assert(cs@.subrange(0, i as int) + Seq::<char>::empty() =~= cs@.subrange(0, i as int));
            return String::from_str(s.substring_char(0, i));
        }
        assert(cs@.skip(i as int).drop_first() =~= cs@.skip(i + 1));
        assert(cs@.subrange(0, i + 1) =~= cs@.subrange(0, i as int) + seq![cs@[i as int]]);
        i = i + 1;
    }
    assert(cs@.skip(i as int) =~= Seq::<char>::empty());
    assert(cs@.subrange(0, i as int) =~= s@);
    String::from_str(s)
}

/// The statement relating the values of two columns through a link table.
pub open spec fn sql_mapeo(
    scp: Seq<char>,
    sch: Seq<char>,
    rel: Seq<char>,
    sa: Seq<char>,
    sb: Seq<char>,
    sapc: Seq<char>,
    saoc: Seq<char>,
) -> Seq<char> {
    "SELECT DISTINCT a."@ + scp + ", b."@ + sch + " FROM "@ + rel + " tr JOIN "@ + sa + " a ON tr."@
        + sapc + " = a."@ + sapc + " JOIN "@ + sb + " b ON tr."@ + saoc + " = b."@ + saoc
        + " WHERE a."@ + scp + " IS NOT NULL AND b."@ + sch + " IS NOT NULL ORDER BY 1, 2"@
}

/// The link query asks for distinct pairs: it starts with `SELECT DISTINCT`,
/// so each (parent, child) pair comes back once and (see
/// `ley_agrupar_sin_repetir`) each child is listed once under its parent.
pub proof fn ley_enlace_sin_repetir(
    scp: Seq<char>,
    sch: Seq<char>,
    rel: Seq<char>,
    sa: Seq<char>,
    sb: Seq<char>,
    sapc: Seq<char>,
    saoc: Seq<char>,
)
    ensures
        sql_mapeo(scp, sch, rel, sa, sb, sapc, saoc).take(16) == "SELECT DISTINCT "@,
{
    reveal_strlit("SELECT DISTINCT a.");
    reveal_strlit("SELECT DISTINCT ");
    let t = sql_mapeo(scp, sch, rel, sa, sb, sapc, saoc);
    assert(t.take(16) =~= "SELECT DISTINCT "@);
}

pub fn texto_mapeo(
    scp: &str,
    sch: &str,
    rel: &str,
    sa: &str,
    sb: &str,
    sapc: &str,
    saoc: &str,
) -> (r: String)
    ensures
        r@ == sql_mapeo(scp@, sch@, rel@, sa@, sb@, sapc@, saoc@),
{
    let mut r = String::from_str("SELECT DISTINCT a.");
    r.append(scp);
    r.append(", b.");
    r.append(sch);
    r.append(" FROM ");
    r.append(rel);
    r.append(" tr JOIN ");
    r.append(sa);
    r.append(" a ON tr.");
    r.append(sapc);
    r.append(" = a.");
    r.append(sapc);
    r.append(" JOIN ");
    r.append(sb);
    r.append(" b ON tr.");
    r.append(saoc);
    r.append(" = b.");
    r.append(saoc);
    r.append(" WHERE a.");
    r.append(scp);
    r.append(" IS NOT NULL AND b.");
    r.append(sch);
    r.append(" IS NOT NULL ORDER BY 1, 2");
    r
}

/// The first two cells of each row that has two and where both are texts,
/// as pairs, in row order.
pub open spec fn pares_spec(filas: Seq<Vec<ValorSql>>) -> Seq<(String, String)>
    decreases filas.len(),
{
    if filas.len() == 0 {
        Seq::empty()
    } else {
        let r = pares_spec(filas.drop_last());
        let f = filas.last();
        if f@.len() >= 2 && spec_como_texto(f@[0]) is Some && spec_como_texto(f@[1]) is Some {
            r.push((spec_como_texto(f@[0])->0, spec_como_texto(f@[1])->0))
        } else {
            r
        }
    }
}

/// The rows whose first two cells are texts, as pairs.
pub fn pares_de_filas(filas: &Vec<Vec<ValorSql>>) -> (r: Vec<(String, String)>)
    ensures
        r@ == pares_spec(filas@),
{
    let mut r: Vec<(String, String)> = Vec::new();
    let mut i: usize = 0;
    while i < filas.len()
        invariant
            i <= filas.len(),
            r@ == pares_spec(filas@.take(i as int)),
        decreases filas.len() - i,
    {
        assert(filas@.take(i as int) =~= filas@.take(i + 1).drop_last());
        if filas[i].len() >= 2 {
            match (como_texto(&filas[i][0]), como_texto(&filas[i][1])) {
                (Ok(a), Ok(b)) => r.push((a, b)),
                _ => {},
            }
        }
        i = i + 1;
    }
    assert(filas@.take(filas.len() as int) =~= filas@);
    r
}

/// The indices, in order, of the foreign keys whose key names `col`.
pub open spec fn indices_que_mencionan(fks: Seq<(String, FkInfo)>, col: Seq<char>) -> Seq<usize>
    decreases fks.len(),
{
    if fks.len() == 0 {
        Seq::empty()
    } else {
        let r = indices_que_mencionan(fks.drop_last(), col);
        if clave_menciona(fks.last().0@, col) {
            r.push((fks.len() - 1) as usize)
        } else {
            r
        }
    }
}

/// The indices of the foreign keys whose key names `col`.
fn claves_que_mencionan(fks: &Vec<(String, FkInfo)>, col: &str) -> (r: Vec<usize>)
    ensures
        r@ == indices_que_mencionan(fks@, col@),
        forall|k: int| 0 <= k < r.len() ==> (#[trigger] r@[k]) < fks.len() && clave_menciona(
            fks@[r@[k] as int].0@,
            col@,
        ),
{
    let mut r: Vec<usize> = Vec::new();
    let mut i: usize = 0;
    while i < fks.len()
        invariant
            i <= fks.len(),
            r@ == indices_que_mencionan(fks@.take(i as int), col@),
            forall|k: int| 0 <= k < r.len() ==> (#[trigger] r@[k]) < i && clave_menciona(
                fks@[r@[k] as int].0@,
                col@,
            ),
        decreases fks.len() - i,
    {
        assert(fks@.take(i as int) =~= fks@.take(i + 1).drop_last());
        if clave_menciona_exec(fks[i].0.as_str(), col) {
            r.push(i);
        }
        i = i + 1;
    }
    assert(fks@.take(fks.len() as int) =~= fks@);
    r
}

/// `c` is the key column of a foreign key's target as answered: the named
/// column, else what the target table's column list answered as its key
/// (`rowid` when it could not be run).
pub open spec fn destino_respondido(fk: FkInfo, c: Seq<char>) -> bool {
    if fk.columna@.len() > 0 {
        c == fk.columna@
    } else {
        exists|f: Filas|
            #[trigger] f.consulta() == (sql_table_info(fk.tabla@), Seq::<ParamVista>::empty()) && c
                == pk_o_respaldo(f, constants::DEFAULT_PK_FALLBACK@)
    }
}

/// The key column of a foreign key's target: the named column, else the
/// target table's primary key (or `rowid`).
fn columna_destino(conn: &rusqlite::Connection, fk: &FkInfo) -> (r: String)
    ensures
        destino_respondido(*fk, r@),
{
    if fk.columna.as_str().unicode_len() == 0 {
        obtener_pk_con_fallback(conn, fk.tabla.as_str(), constants::DEFAULT_PK_FALLBACK)
    } else {
        fk.columna.clone()
    }
}

/// Keys `ia` (naming the parent) and `ib` (naming the child) can be linked:
/// both point at the same table, and that table, the tables the keys belong
/// to and both columns have plain names.
pub open spec fn par_enlazable(fks: Seq<(String, FkInfo)>, cp: Seq<char>, ch: Seq<char>, ia: int, ib: int) -> bool {
    &&& fks[ib].1.tabla@ == fks[ia].1.tabla@
    &&& spec_clean_identifier(fks[ib].1.tabla@)
    &&& spec_clean_identifier(primer_segmento(fks[ia].0@))
    &&& spec_clean_identifier(primer_segmento(fks[ib].0@))
    &&& spec_clean_identifier(cp)
    &&& spec_clean_identifier(ch)
}

/// The mapping that a link query answered: its rows' pairs grouped by
/// parent value, when it could be run and they are not none.
pub open spec fn mapeo_de_respuesta(f: Filas) -> Option<Seq<(Seq<char>, Seq<Seq<char>>)>> {
    let g = agrupar(vista_pares(pares_spec(f.filas())));
    if f.ejecutada() && g.len() > 0 {
        Some(g)
    } else {
        None
    }
}

/// The link query for keys `ia` and `ib`, with the target key columns `dp`
/// and `dh`.
pub open spec fn sql_enlace(fks: Seq<(String, FkInfo)>, cp: Seq<char>, ch: Seq<char>, ia: int, ib: int, dp: Seq<char>, dh: Seq<char>) -> Seq<char> {
    sql_mapeo(
        spec_safe_ident(cp),
        spec_safe_ident(ch),
        spec_safe_ident(fks[ib].1.tabla@),
        spec_safe_ident(fks[ia].1.tabla@),
        spec_safe_ident(fks[ib].1.tabla@),
        spec_safe_ident(dp),
        spec_safe_ident(dh),
    )
}

/// `o` is what the link query for keys `ia` and `ib` answered (see
/// `mapeo_de_respuesta`), its key columns as answered.
pub open spec fn mapeo_respondido(
    fks: Seq<(String, FkInfo)>,
    cp: Seq<char>,
    ch: Seq<char>,
    ia: int,
    ib: int,
    o: Option<Seq<(Seq<char>, Seq<Seq<char>>)>>,
) -> bool {
    exists|dp: Seq<char>, dh: Seq<char>, f: Filas|
        #![trigger destino_respondido(fks[ia].1, dp), destino_respondido(fks[ib].1, dh), f.consulta()]
        destino_respondido(fks[ia].1, dp) && destino_respondido(fks[ib].1, dh) && f.consulta() == (
            sql_enlace(fks, cp, ch, ia, ib, dp, dh),
            Seq::<ParamVista>::empty(),
        ) && o == mapeo_de_respuesta(f)
}

/// Keys `ia` and `ib` give no mapping: they cannot be linked, or their link
/// query answered none.
pub open spec fn intento_vacio(fks: Seq<(String, FkInfo)>, cp: Seq<char>, ch: Seq<char>, ia: int, ib: int) -> bool {
    !par_enlazable(fks, cp, ch, ia, ib) || mapeo_respondido(fks, cp, ch, ia, ib, None)
}

/// `r` is the mapping that the link queries answered: trying the keys that
/// name the parent in order, and for each the keys that name the child in
/// order, the first that gives one; none when none does.
pub open spec fn mapeo_dependencia_respondido(
    fks: Seq<(String, FkInfo)>,
    cp: Seq<char>,
    ch: Seq<char>,
    r: Option<Seq<(Seq<char>, Seq<Seq<char>>)>>,
) -> bool {
    if r is Some {
        exists|a: int, b: int| #[trigger] mapeo_elegido(fks, cp, ch, r->0, a, b)
    } else {
        forall|a: int, b: int|
            0 <= a < indices_que_mencionan(fks, cp).len() && 0 <= b < indices_que_mencionan(fks, ch).len()
                ==> #[trigger] intento_vacio(
                fks,
                cp,
                ch,
                indices_que_mencionan(fks, cp)[a] as int,
                indices_que_mencionan(fks, ch)[b] as int,
            )
    }
}

proof fn lema_mapeo_elegido(
    fks: Seq<(String, FkInfo)>,
    cp: Seq<char>,
    ch: Seq<char>,
    m: Seq<(Seq<char>, Seq<Seq<char>>)>,
    a: int,
    b: int,
)
    requires
        mapeo_elegido(fks, cp, ch, m, a, b),
    ensures
        mapeo_dependencia_respondido(fks, cp, ch, Some(m)),
{
    let r = Some(m);
    assert(mapeo_elegido(fks, cp, ch, r->0, a, b));
}

/// Mapping `m` comes from the `a`-th key naming the parent and the `b`-th
/// naming the child: they can be linked, their link query answered `m`, and
/// every pair tried before them gave none.
pub open spec fn mapeo_elegido(
    fks: Seq<(String, FkInfo)>,
    cp: Seq<char>,
    ch: Seq<char>,
    m: Seq<(Seq<char>, Seq<Seq<char>>)>,
    a: int,
    b: int,
) -> bool {
    let pa = indices_que_mencionan(fks, cp);
    let hi = indices_que_mencionan(fks, ch);
    &&& 0 <= a < pa.len()
    &&& 0 <= b < hi.len()
    &&& par_enlazable(fks, cp, ch, pa[a] as int, hi[b] as int)
    &&& mapeo_respondido(fks, cp, ch, pa[a] as int, hi[b] as int, Some(m))
    &&& forall|a2: int, b2: int|
        0 <= a2 < pa.len() && 0 <= b2 < hi.len() && (a2 < a || (a2 == a && b2 < b))
            ==> #[trigger] intento_vacio(fks, cp, ch, pa[a2] as int, hi[b2] as int)
}

/// A mapping as plain values, if any.
pub open spec fn vista_mapeo(o: Option<Vec<(String, Vec<String>)>>) -> Option<Seq<(Seq<char>, Seq<Seq<char>>)>> {
    match o {
        Some(m) => Some(vista_grupos(m@)),
        None => None,
    }
}

/// Which values of `col_hijo` go with each value of `col_padre`: for the
/// first pair of foreign keys (one whose key names the parent, one whose key
/// names the child, both to the same table, all names plain) whose link
/// query yields rows, those rows grouped by parent value. `None` when no key
/// names one of the columns or no pair yields rows.
pub fn construir_mapeo_dependencia(
    conn: &rusqlite::Connection,
    col_padre: &str,
    col_hijo: &str,
    fk_pairs: &Vec<(String, FkInfo)>,
) -> (r: Result<Option<Vec<(String, Vec<String>)>>, ErrorBd>)
    ensures
        r matches Ok(o) && mapeo_dependencia_respondido(fk_pairs@, col_padre@, col_hijo@, vista_mapeo(o)),
        r matches Ok(Some(m)) ==> m.len() > 0,
        (forall|k: int| 0 <= k < fk_pairs.len() ==> !clave_menciona((#[trigger] fk_pairs@[k]).0@, col_padre@))
            ==> r == Ok::<Option<Vec<(String, Vec<String>)>>, ErrorBd>(None),
        (forall|k: int| 0 <= k < fk_pairs.len() ==> !clave_menciona((#[trigger] fk_pairs@[k]).0@, col_hijo@))
            ==> r == Ok::<Option<Vec<(String, Vec<String>)>>, ErrorBd>(None),
        !spec_clean_identifier(col_padre@) || !spec_clean_identifier(col_hijo@) ==> r == Ok::<
            Option<Vec<(String, Vec<String>)>>,
            ErrorBd,
        >(None),
{
    let padre_keys = claves_que_mencionan(fk_pairs, col_padre);
    let hijo_keys = claves_que_mencionan(fk_pairs, col_hijo);
    let ghost fks = fk_pairs@;
    let ghost cp = col_padre@;
    let ghost ch = col_hijo@;
    let ghost pa = padre_keys@;
    let ghost hi = hijo_keys@;
    if padre_keys.len() == 0 || hijo_keys.len() == 0 {
        return Ok(None);
    }
    assert(clave_menciona(fk_pairs@[padre_keys@[0] as int].0@, col_padre@));
    assert(clave_menciona(fk_pairs@[hijo_keys@[0] as int].0@, col_hijo@));
    let mut a: usize = 0;
    while a < padre_keys.len()
        invariant
            a <= padre_keys.len(),
            fks == fk_pairs@,
            cp == col_padre@,
            ch == col_hijo@,
            pa == padre_keys@,
            hi == hijo_keys@,
            pa == indices_que_mencionan(fks, cp),
            hi == indices_que_mencionan(fks, ch),
            padre_keys.len() > 0,
            padre_keys@[0] < fk_pairs.len(),
            clave_menciona(fk_pairs@[padre_keys@[0] as int].0@, col_padre@),
            hijo_keys.len() > 0,
            hijo_keys@[0] < fk_pairs.len(),
            clave_menciona(fk_pairs@[hijo_keys@[0] as int].0@, col_hijo@),
            forall|k: int| 0 <= k < padre_keys.len() ==> (#[trigger] padre_keys@[k]) < fk_pairs.len(),
            forall|k: int| 0 <= k < hijo_keys.len() ==> (#[trigger] hijo_keys@[k]) < fk_pairs.len(),
            forall|a2: int, b2: int|
                0 <= a2 < a && 0 <= b2 < hi.len() ==> #[trigger] intento_vacio(fks, cp, ch, pa[a2] as int, hi[b2] as int),
        decreases padre_keys.len() - a,
    {
        let ia = padre_keys[a];
        let (pk_key, fk_info_pk) = (&fk_pairs[ia].0, &fk_pairs[ia].1);
        let pt = primer_segmento_exec(pk_key.as_str());
        let mut b: usize = 0;
        while b < hijo_keys.len()
            invariant
                b <= hijo_keys.len(),
                a < padre_keys.len(),
                ia == padre_keys@[a as int],
                pk_key == fk_pairs@[ia as int].0,
                fk_info_pk == fk_pairs@[ia as int].1,
                pt@ == primer_segmento(pk_key@),
                fks == fk_pairs@,
                cp == col_padre@,
                ch == col_hijo@,
                pa == padre_keys@,
                hi == hijo_keys@,
                pa == indices_que_mencionan(fks, cp),
                hi == indices_que_mencionan(fks, ch),
                padre_keys.len() > 0,
                padre_keys@[0] < fk_pairs.len(),
                clave_menciona(fk_pairs@[padre_keys@[0] as int].0@, col_padre@),
                hijo_keys.len() > 0,
                hijo_keys@[0] < fk_pairs.len(),
                clave_menciona(fk_pairs@[hijo_keys@[0] as int].0@, col_hijo@),
                forall|k: int| 0 <= k < padre_keys.len() ==> (#[trigger] padre_keys@[k]) < fk_pairs.len(),
                forall|k: int| 0 <= k < hijo_keys.len() ==> (#[trigger] hijo_keys@[k]) < fk_pairs.len(),
                forall|a2: int, b2: int|
                    0 <= a2 < a && 0 <= b2 < hi.len() ==> #[trigger] intento_vacio(fks, cp, ch, pa[a2] as int, hi[b2] as int),
                forall|b2: int|
                    0 <= b2 < b ==> #[trigger] intento_vacio(fks, cp, ch, pa[a as int] as int, hi[b2] as int),
            decreases hijo_keys.len() - b,
        {
            let ib = hijo_keys[b];
            let (fk_key, fk_info_fk) = (&fk_pairs[ib].0, &fk_pairs[ib].1);
            let ht = primer_segmento_exec(fk_key.as_str());
            if fk_info_fk.tabla == fk_info_pk.tabla && clean_identifier(fk_info_fk.tabla.as_str())
                && clean_identifier(pt.as_str()) && clean_identifier(ht.as_str()) && clean_identifier(
                col_padre,
            ) && clean_identifier(col_hijo) {
                assert(par_enlazable(fks, cp, ch, ia as int, ib as int));
                let scp = safe_ident(col_padre);
                let sch = safe_ident(col_hijo);
                let rel = safe_ident(fk_info_fk.tabla.as_str());
                let sa = safe_ident(fk_info_pk.tabla.as_str());
                let sb = safe_ident(fk_info_fk.tabla.as_str());
                let pk_col_name = columna_destino(conn, fk_info_pk);
                let fk_col_name = columna_destino(conn, fk_info_fk);
                let sapc = safe_ident(pk_col_name.as_str());
                let saoc = safe_ident(fk_col_name.as_str());
                let sql = texto_mapeo(
                    scp.as_str(),
                    sch.as_str(),
                    rel.as_str(),
                    sa.as_str(),
                    sb.as_str(),
                    sapc.as_str(),
                    saoc.as_str(),
                );
                let ghost dp = pk_col_name@;
                let ghost dh = fk_col_name@;
                assert(sql@ == sql_enlace(fks, cp, ch, ia as int, ib as int, dp, dh));
                let sin_valores: Vec<ParamSql> = Vec::new();
                assert(vistas_params(sin_valores@) =~= Seq::<ParamVista>::empty());
                let a_sql = consultar(conn, sql.as_str(), sin_valores.as_slice());
                match a_sql {
                    Ok(f) => {
                        let pares = pares_de_filas(f.lista());
                        let mapeo = agrupar_pares(&pares);
                        assert(vista_grupos(mapeo@).len() == mapeo.len());
                        if mapeo.len() > 0 {
                            assert(mapeo_de_respuesta(f) == Some(vista_grupos(mapeo@)));
                            assert(destino_respondido(fks[ia as int].1, dp) && destino_respondido(fks[ib as int].1, dh)
                                && f.consulta() == (sql_enlace(fks, cp, ch, ia as int, ib as int, dp, dh), Seq::<ParamVista>::empty())
                                && Some(vista_grupos(mapeo@)) == mapeo_de_respuesta(f));
                            let ghost gm = vista_grupos(mapeo@);
                            proof {
                                lema_mapeo_elegido(fks, cp, ch, gm, a as int, b as int);
                            }
                            let res: Result<Option<Vec<(String, Vec<String>)>>, ErrorBd> = Ok(Some(mapeo));
                            assert(vista_mapeo(res->Ok_0) == Some(gm));
                            assert(mapeo_dependencia_respondido(fk_pairs@, col_padre@, col_hijo@, vista_mapeo(res->Ok_0)));
                            return res;
                        }
                        assert(mapeo_de_respuesta(f) is None);
                        assert(destino_respondido(fks[ia as int].1, dp) && destino_respondido(fks[ib as int].1, dh)
                            && f.consulta() == (sql_enlace(fks, cp, ch, ia as int, ib as int, dp, dh), Seq::<ParamVista>::empty())
                            && None::<Seq<(Seq<char>, Seq<Seq<char>>)>> == mapeo_de_respuesta(f));
                    },
                    Err(e) => {
                        let ghost g = choose|g: Filas|
                            #[trigger] g.consulta() == (sql@, Seq::<ParamVista>::empty()) && !g.ejecutada() && g.error() == Some(e);
                        assert(mapeo_de_respuesta(g) is None);
                        assert(destino_respondido(fks[ia as int].1, dp) && destino_respondido(fks[ib as int].1, dh)
                            && g.consulta() == (sql_enlace(fks, cp, ch, ia as int, ib as int, dp, dh), Seq::<ParamVista>::empty())
                            && None::<Seq<(Seq<char>, Seq<Seq<char>>)>> == mapeo_de_respuesta(g));
                    },
                }
                assert(intento_vacio(fks, cp, ch, pa[a as int] as int, hi[b as int] as int));
            } else {
                assert(!par_enlazable(fks, cp, ch, ia as int, ib as int));
                assert(intento_vacio(fks, cp, ch, pa[a as int] as int, hi[b as int] as int));
            }
            b = b + 1;
        }
        a = a + 1;
    }
    Ok(None)
}

/// No foreign key's key names a `categorical` column.
pub open spec fn ninguna_clave_categorica(columnas: Seq<ColumnaInfo>, fks: Seq<(String, FkInfo)>) -> bool {
    forall|i: int, k: int|
        0 <= i < columnas.len() && 0 <= k < fks.len() && (#[trigger] columnas[i]).tipo@ == "categorical"@
            ==> !clave_menciona((#[trigger] fks[k]).0@, columnas[i].nombre@)
}

/// The indices, in order, of the `categorical` columns.
pub open spec fn indices_categoricas(cols: Seq<ColumnaInfo>) -> Seq<usize>
    decreases cols.len(),
{
    if cols.len() == 0 {
        Seq::empty()
    } else {
        let r = indices_categoricas(cols.drop_last());
        if cols.last().tipo@ == "categorical"@ {
            r.push((cols.len() - 1) as usize)
        } else {
            r
        }
    }
}

/// A dependency as plain values: parent, dependent, mapping.
pub open spec fn vista_dependencia(d: DependenciaInfo) -> (Seq<char>, Seq<char>, Seq<(Seq<char>, Seq<Seq<char>>)>) {
    (d.columna_padre@, d.columna_dependiente@, vista_grupos(d.mapeo@))
}

/// Dependencies as plain values.
pub open spec fn vistas_dependencias(v: Seq<DependenciaInfo>) -> Seq<(Seq<char>, Seq<char>, Seq<(Seq<char>, Seq<Seq<char>>)>)> {
    Seq::new(v.len(), |i: int| vista_dependencia(v[i]))
}

/// For dependent `cols[cat[h]]`, the dependencies on the first `p`
/// parents `cols[cat[q]]` (other names) whose mapping `fila[q]` is some.
pub open spec fn dependencias_de_fila(
    cols: Seq<ColumnaInfo>,
    cat: Seq<usize>,
    fila: Seq<Option<Seq<(Seq<char>, Seq<Seq<char>>)>>>,
    h: int,
    p: int,
) -> Seq<(Seq<char>, Seq<char>, Seq<(Seq<char>, Seq<Seq<char>>)>)>
    decreases p,
{
    if p <= 0 {
        Seq::empty()
    } else {
        let previas = dependencias_de_fila(cols, cat, fila, h, p - 1);
        let padre = cols[cat[p - 1] as int].nombre@;
        let hijo = cols[cat[h] as int].nombre@;
        if padre != hijo && fila[p - 1] is Some {
            previas.push((padre, hijo, fila[p - 1]->0))
        } else {
            previas
        }
    }
}

/// The dependencies for the first `h` dependents, dependent by dependent.
pub open spec fn dependencias_hasta(
    cols: Seq<ColumnaInfo>,
    cat: Seq<usize>,
    ms: Seq<Seq<Option<Seq<(Seq<char>, Seq<Seq<char>>)>>>>,
    h: int,
) -> Seq<(Seq<char>, Seq<char>, Seq<(Seq<char>, Seq<Seq<char>>)>)>
    decreases h,
{
    if h <= 0 {
        Seq::empty()
    } else {
        dependencias_hasta(cols, cat, ms, h - 1) + dependencias_de_fila(cols, cat, ms[h - 1], h - 1, cat.len() as int)
    }
}

/// `ms[h][p]` is the mapping answered for parent `cols[cat[p]]` and dependent
/// `cols[cat[h]]` (see `mapeo_dependencia_respondido`), for every pair of
/// different names among the first `n` dependents.
pub open spec fn mapeos_respondidos(
    cols: Seq<ColumnaInfo>,
    cat: Seq<usize>,
    fks: Seq<(String, FkInfo)>,
    ms: Seq<Seq<Option<Seq<(Seq<char>, Seq<Seq<char>>)>>>>,
    n: int,
) -> bool {
    forall|h: int, p: int|
        0 <= h < n && 0 <= p < cat.len() && cols[cat[p] as int].nombre@ != cols[cat[h] as int].nombre@
            ==> mapeo_dependencia_respondido(
            fks,
            cols[cat[p] as int].nombre@,
            cols[cat[h] as int].nombre@,
            #[trigger] ms[h][p],
        )
}

/// `r` is what the link queries answered for every ordered pair of
/// different `categorical` columns (dependent outer, parent inner, both in
/// the columns' order): a dependency for each pair whose mapping is some.
pub open spec fn dependencias_respondidas(
    cols: Seq<ColumnaInfo>,
    fks: Seq<(String, FkInfo)>,
    r: Result<Vec<DependenciaInfo>, ErrorBd>,
) -> bool {
    let cat = indices_categoricas(cols);
    r matches Ok(v) && exists|ms: Seq<Seq<Option<Seq<(Seq<char>, Seq<Seq<char>>)>>>>|
        ms.len() == cat.len() && #[trigger] mapeos_respondidos(cols, cat, fks, ms, cat.len() as int)
            && vistas_dependencias(v@) == dependencias_hasta(cols, cat, ms, cat.len() as int)
}

proof fn lema_dependencias_hasta_prefijo(
    cols: Seq<ColumnaInfo>,
    cat: Seq<usize>,
    ms1: Seq<Seq<Option<Seq<(Seq<char>, Seq<Seq<char>>)>>>>,
    ms2: Seq<Seq<Option<Seq<(Seq<char>, Seq<Seq<char>>)>>>>,
    h: int,
)
    requires
        forall|k: int| 0 <= k < h ==> ms1[k] == ms2[k],
    ensures
        dependencias_hasta(cols, cat, ms1, h) == dependencias_hasta(cols, cat, ms2, h),
    decreases h,
{
    if h > 0 {
        lema_dependencias_hasta_prefijo(cols, cat, ms1, ms2, h - 1);
    }
}

proof fn lema_dependencias_de_fila_prefijo(
    cols: Seq<ColumnaInfo>,
    cat: Seq<usize>,
    f1: Seq<Option<Seq<(Seq<char>, Seq<Seq<char>>)>>>,
    f2: Seq<Option<Seq<(Seq<char>, Seq<Seq<char>>)>>>,
    h: int,
    p: int,
)
    requires
        forall|k: int| 0 <= k < p ==> f1[k] == f2[k],
    ensures
        dependencias_de_fila(cols, cat, f1, h, p) == dependencias_de_fila(cols, cat, f2, h, p),
    decreases p,
{
    if p > 0 {
        lema_dependencias_de_fila_prefijo(cols, cat, f1, f2, h, p - 1);
    }
}

fn categoricas(columnas: &Vec<ColumnaInfo>) -> (r: Vec<usize>)
    ensures
        r@ == indices_categoricas(columnas@),
        forall|k: int| 0 <= k < r.len() ==> (#[trigger] r@[k]) < columnas.len()
            && columnas@[r@[k] as int].tipo@ == "categorical"@,
{
    let mut cat: Vec<usize> = Vec::new();
    let mut i: usize = 0;
    while i < columnas.len()
        invariant
            i <= columnas.len(),
            cat@ == indices_categoricas(columnas@.take(i as int)),
            forall|k: int| 0 <= k < cat.len() ==> (#[trigger] cat@[k]) < i
                && columnas@[cat@[k] as int].tipo@ == "categorical"@,
        decreases columnas.len() - i,
    {
        assert(columnas@.take(i as int) =~= columnas@.take(i + 1).drop_last());
        if columnas[i].tipo == String::from_str("categorical") {
            cat.push(i);
        }
        i = i + 1;
    }
    assert(columnas@.take(columnas.len() as int) =~= columnas@);
    cat
}

/// The dependencies among the `categorical` columns: for each ordered pair
/// of different ones (dependent outer, parent inner), the mapping that
/// `construir_mapeo_dependencia` finds, when it is not empty.
pub fn detectar_dependencias(
    conn: &rusqlite::Connection,
    columnas: &Vec<ColumnaInfo>,
    fk_pairs: &Vec<(String, FkInfo)>,
) -> (r: Result<Vec<DependenciaInfo>, ErrorBd>)
    ensures
        dependencias_respondidas(columnas@, fk_pairs@, r),
        ninguna_clave_categorica(columnas@, fk_pairs@) ==> (r matches Ok(v) && v.len() == 0),
        r matches Ok(v) ==> forall|k: int| 0 <= k < v.len() ==> {
            &&& (#[trigger] v@[k]).mapeo.len() > 0
            &&& v@[k].columna_padre@ != v@[k].columna_dependiente@
            &&& exists|i: int| 0 <= i < columnas.len() && columnas@[i].tipo@ == "categorical"@
                && columnas@[i].nombre@ == v@[k].columna_padre@
            &&& exists|i: int| 0 <= i < columnas.len() && columnas@[i].tipo@ == "categorical"@
                && columnas@[i].nombre@ == v@[k].columna_dependiente@
        },
{
    let cat = categoricas(columnas);
    let ghost cols = columnas@;
    let ghost fks = fk_pairs@;
    let ghost mut ms: Seq<Seq<Option<Seq<(Seq<char>, Seq<Seq<char>>)>>>> = Seq::empty();
    let mut dependencias: Vec<DependenciaInfo> = Vec::new();
    let mut h: usize = 0;
    while h < cat.len()
        invariant
            h <= cat.len(),
            cols == columnas@,
            fks == fk_pairs@,
            cat@ == indices_categoricas(cols),
            ms.len() == h,
            forall|k: int| 0 <= k < h ==> (#[trigger] ms[k]).len() == cat.len(),
            mapeos_respondidos(cols, cat@, fks, ms, h as int),
            vistas_dependencias(dependencias@) == dependencias_hasta(cols, cat@, ms, h as int),
            ninguna_clave_categorica(columnas@, fk_pairs@) ==> dependencias.len() == 0,
            forall|k: int| 0 <= k < cat.len() ==> (#[trigger] cat@[k]) < columnas.len()
                && columnas@[cat@[k] as int].tipo@ == "categorical"@,
            forall|k: int| 0 <= k < dependencias.len() ==> {
                &&& (#[trigger] dependencias@[k]).mapeo.len() > 0
                &&& dependencias@[k].columna_padre@ != dependencias@[k].columna_dependiente@
                &&& exists|i: int| 0 <= i < columnas.len() && columnas@[i].tipo@ == "categorical"@
                    && columnas@[i].nombre@ == dependencias@[k].columna_padre@
                &&& exists|i: int| 0 <= i < columnas.len() && columnas@[i].tipo@ == "categorical"@
                    && columnas@[i].nombre@ == dependencias@[k].columna_dependiente@
            },
        decreases cat.len() - h,
    {
        let hijo = &columnas[cat[h]];
        let ghost antes = vistas_dependencias(dependencias@);
        let ghost mut fila: Seq<Option<Seq<(Seq<char>, Seq<Seq<char>>)>>> = Seq::empty();
        let mut p: usize = 0;
        while p < cat.len()
            invariant
                p <= cat.len(),
                h < cat.len(),
                cols == columnas@,
                fks == fk_pairs@,
                fila.len() == p,
                forall|q: int|
                    0 <= q < p && cols[cat@[q] as int].nombre@ != cols[cat@[h as int] as int].nombre@
                        ==> mapeo_dependencia_respondido(
                        fks,
                        cols[cat@[q] as int].nombre@,
                        cols[cat@[h as int] as int].nombre@,
                        #[trigger] fila[q],
                    ),
                vistas_dependencias(dependencias@) == antes + dependencias_de_fila(cols, cat@, fila, h as int, p as int),
                ninguna_clave_categorica(columnas@, fk_pairs@) ==> dependencias.len() == 0,
                hijo == columnas@[cat@[h as int] as int],
                forall|k: int| 0 <= k < cat.len() ==> (#[trigger] cat@[k]) < columnas.len()
                    && columnas@[cat@[k] as int].tipo@ == "categorical"@,
                forall|k: int| 0 <= k < dependencias.len() ==> {
                    &&& (#[trigger] dependencias@[k]).mapeo.len() > 0
                    &&& dependencias@[k].columna_padre@ != dependencias@[k].columna_dependiente@
                    &&& exists|i: int| 0 <= i < columnas.len() && columnas@[i].tipo@ == "categorical"@
                        && columnas@[i].nombre@ == dependencias@[k].columna_padre@
                    &&& exists|i: int| 0 <= i < columnas.len() && columnas@[i].tipo@ == "categorical"@
                        && columnas@[i].nombre@ == dependencias@[k].columna_dependiente@
                },
            decreases cat.len() - p,
        {
            let padre = &columnas[cat[p]];
            proof {
                if ninguna_clave_categorica(columnas@, fk_pairs@) {
                    assert forall|k: int| 0 <= k < fk_pairs.len() implies !clave_menciona(
                        (#[trigger] fk_pairs@[k]).0@,
                        padre.nombre@,
                    ) by {
                        assert(columnas@[cat@[p as int] as int].tipo@ == "categorical"@);
                    }
                }
            }
            let ghost fila0 = fila;
            let ghost d0 = dependencias@;
            let ghost mut o: Option<Seq<(Seq<char>, Seq<Seq<char>>)>> = None;
            if padre.nombre != hijo.nombre {
                let rm = construir_mapeo_dependencia(conn, padre.nombre.as_str(), hijo.nombre.as_str(), fk_pairs);
                let om = match rm {
                    Ok(x) => x,
                    Err(e) => return Err(e),
                };
                proof {
                    o = vista_mapeo(om);
                }
                match om {
                    Some(mapeo) => {
                        if mapeo.len() > 0 {
                            let d = DependenciaInfo {
                                columna_padre: padre.nombre.clone(),
                                columna_dependiente: hijo.nombre.clone(),
                                mapeo,
                            };
                            assert(columnas@[cat@[p as int] as int].nombre@ == d.columna_padre@);
                            assert(columnas@[cat@[h as int] as int].nombre@ == d.columna_dependiente@);
                            dependencias.push(d);
                            assert(vistas_dependencias(dependencias@) =~= vistas_dependencias(d0).push(vista_dependencia(d)));
                        }
                    },
                    None => {},
                }
            }
            proof {
                fila = fila.push(o);
                assert(fila.drop_last() =~= fila0);
                lema_dependencias_de_fila_prefijo(cols, cat@, fila0, fila, h as int, p as int);
                assert forall|q: int|
                    0 <= q < p + 1 && cols[cat@[q] as int].nombre@ != cols[cat@[h as int] as int].nombre@
                        implies mapeo_dependencia_respondido(
                        fks,
                        cols[cat@[q] as int].nombre@,
                        cols[cat@[h as int] as int].nombre@,
                        #[trigger] fila[q],
                    ) by {
                    if q < p {
                        assert(fila[q] == fila0[q]);
                    }
                }
            }
            p = p + 1;
        }
        proof {
            let ms0 = ms;
            ms = ms.push(fila);
            lema_dependencias_hasta_prefijo(cols, cat@, ms0, ms, h as int);
            assert(ms[h as int] == fila);
            assert forall|h2: int, q: int|
                0 <= h2 < h + 1 && 0 <= q < cat.len() && cols[cat@[q] as int].nombre@ != cols[cat@[h2] as int].nombre@
                    implies mapeo_dependencia_respondido(
                    fks,
                    cols[cat@[q] as int].nombre@,
                    cols[cat@[h2] as int].nombre@,
                    #[trigger] ms[h2][q],
                ) by {
                if h2 < h {
                    assert(ms[h2] == ms0[h2]);
                }
            }
            assert(vistas_dependencias(dependencias@) =~= dependencias_hasta(cols, cat@, ms, h + 1));
        }
        h = h + 1;
    }
    assert(dependencias_respondidas(columnas@, fk_pairs@, Ok::<Vec<DependenciaInfo>, ErrorBd>(dependencias)));
    Ok(dependencias)
}


// ── the filters offered to the user ────────────────────────────────────────

/// A column's values as texts (numbers as their numerals), in order.
pub open spec fn textos_de_valores(v: Seq<ValorColumna>) -> Seq<Seq<char>>
    decreases v.len(),
{
    if v.len() == 0 {
        Seq::empty()
    } else {
        textos_de_valores(v.drop_last()).push(texto_de_valor(v.last()))
    }
}

/// The filter offered for a column: one for a column of each of the five
/// kinds, carrying the fields that its kind uses (the values only as texts);
/// none for a column of another kind.
pub open spec fn filtro_de(c: ColumnaInfo) -> Option<FiltroVista> {
    let t = c.tipo@;
    let categorica = t == "categorical"@ || t == "categorical_fk"@;
    let fk = t == "categorical_fk"@;
    if categorica || t == "date"@ || t == "numeric"@ || t == "text_search"@ {
        Some(
            FiltroVista {
                nombre: c.nombre@,
                tipo: t,
                valores: if categorica {
                    match c.valores {
                        Some(v) => Some(textos_de_valores(v@)),
                        None => None,
                    }
                } else {
                    None
                },
                min: if t == "numeric"@ { c.min } else { None },
                max: if t == "numeric"@ { c.max } else { None },
                fecha_min: if t == "date"@ { vista_opcional(c.fecha_min) } else { None },
                fecha_max: if t == "date"@ { vista_opcional(c.fecha_max) } else { None },
                col_original: if fk { vista_opcional(c.col_original) } else { None },
                tabla_catalogo: if fk { vista_opcional(c.tabla_catalogo) } else { None },
                col_nombre_catalogo: if fk { vista_opcional(c.col_nombre_catalogo) } else { None },
            },
        )
    } else {
        None
    }
}

/// The filters of the columns that have one, in the columns' order.
pub open spec fn filtros_de(cols: Seq<ColumnaInfo>) -> Seq<FiltroVista>
    decreases cols.len(),
{
    if cols.len() == 0 {
        Seq::empty()
    } else {
        let r = filtros_de(cols.drop_last());
        match filtro_de(cols.last()) {
            Some(f) => r.push(f),
            None => r,
        }
    }
}

/// The filter offered for a numeric column is a numeric filter under the
/// column's name carrying the column's own bounds: its `min` is the column's
/// `min` and its `max` the column's `max`.
pub proof fn ley_filtro_numerico(c: ColumnaInfo)
    requires
        c.tipo@ == "numeric"@,
    ensures
        filtro_de(c) matches Some(f) && f.nombre == c.nombre@ && f.tipo == "numeric"@ && f.min == c.min
            && f.max == c.max,
{
    lema_tipos_distintos();
}

/// Every filter of the columns comes from one of them.
proof fn lema_filtros_de_origen(cols: Seq<ColumnaInfo>)
    ensures
        forall|q: int|
            0 <= q < filtros_de(cols).len() ==> exists|k: int|
                0 <= k < cols.len() && filtro_de(cols[k]) == Some(#[trigger] filtros_de(cols)[q]),
    decreases cols.len(),
{
    if cols.len() > 0 {
        let r = filtros_de(cols.drop_last());
        lema_filtros_de_origen(cols.drop_last());
        assert forall|q: int| 0 <= q < filtros_de(cols).len() implies exists|k: int|
            0 <= k < cols.len() && filtro_de(cols[k]) == Some(#[trigger] filtros_de(cols)[q]) by {
            if q < r.len() {
                assert(filtros_de(cols)[q] == r[q]);
                let k = choose|k: int| 0 <= k < cols.drop_last().len() && filtro_de(cols.drop_last()[k]) == Some(r[q]);
                assert(cols.drop_last()[k] == cols[k]);
            } else {
                assert(filtro_de(cols[cols.len() - 1]) == Some(filtros_de(cols)[q]));
            }
        }
    }
}

/// Every numeric filter offered (after sorting) carries the bounds of a
/// numeric column of its name: its `min` is that column's `min`, its `max`
/// that column's `max`.
pub proof fn ley_filtros_numericos_con_sus_limites(cols: Seq<ColumnaInfo>)
    ensures
        forall|q: int|
            0 <= q < ordenar_filtros(filtros_de(cols)).len() && (#[trigger] ordenar_filtros(filtros_de(cols))[q]).tipo
                == "numeric"@ ==> exists|k: int|
                0 <= k < cols.len() && cols[k].tipo@ == "numeric"@ && #[trigger] cols[k].nombre@ == ordenar_filtros(
                    filtros_de(cols),
                )[q].nombre && cols[k].min == ordenar_filtros(filtros_de(cols))[q].min && cols[k].max
                    == ordenar_filtros(filtros_de(cols))[q].max,
{
    let s = filtros_de(cols);
    let o = ordenar_filtros(s);
    ley_filtros_conservados(s);
    lema_filtros_de_origen(cols);
    assert forall|q: int| 0 <= q < o.len() && (#[trigger] o[q]).tipo == "numeric"@ implies exists|k: int|
        0 <= k < cols.len() && cols[k].tipo@ == "numeric"@ && #[trigger] cols[k].nombre@ == o[q].nombre
            && cols[k].min == o[q].min && cols[k].max == o[q].max by {
        let f = o[q];
        assert(o.to_multiset().count(f) > 0) by {
            broadcast use vstd::seq_lib::group_to_multiset_ensures;
            assert(o.contains(f));
        }
        assert(s.contains(f)) by {
            broadcast use vstd::seq_lib::group_to_multiset_ensures;
        }
        let p = choose|p: int| 0 <= p < s.len() && s[p] == f;
        let k = choose|k: int| 0 <= k < cols.len() && filtro_de(cols[k]) == Some(#[trigger] s[p]);
        let c = cols[k];
        reveal_strlit("numeric");
        assert(filtro_de(c) == Some(f));
        assert(f.tipo == c.tipo@);
        assert(c.tipo@ == "numeric"@);
        ley_filtro_numerico(c);
    }
}

/// Where `f` goes among filters: before the first one whose name comes
/// after its own.
pub open spec fn lugar_de(s: Seq<FiltroVista>, f: FiltroVista) -> int
    decreases s.len(),
{
    if s.len() == 0 {
        0
    } else if menor_lex(f.nombre, s[0].nombre) {
        0
    } else {
        1 + lugar_de(s.drop_first(), f)
    }
}

/// The filters sorted by name, those of equal name in the order they came
/// in: each is put after every earlier one whose name does not come after
/// its own.
pub open spec fn ordenar_filtros(s: Seq<FiltroVista>) -> Seq<FiltroVista>
    decreases s.len(),
{
    if s.len() == 0 {
        s
    } else {
        let r = ordenar_filtros(s.drop_last());
        r.insert(lugar_de(r, s.last()), s.last())
    }
}

/// Each name does not come before any name ahead of it.
pub open spec fn ordenados_por_nombre(s: Seq<FiltroVista>) -> bool {
    forall|i: int, j: int|
        0 <= i < j < s.len() ==> !menor_lex(#[trigger] s[j].nombre, #[trigger] s[i].nombre)
}

/// The filters by their plain values.
pub open spec fn vistas_filtros(s: Seq<FiltroInfo>) -> Seq<FiltroVista> {
    Seq::new(s.len(), |i: int| s[i]@)
}

proof fn lema_lugar(s: Seq<FiltroVista>, f: FiltroVista)
    ensures
        0 <= lugar_de(s, f) <= s.len(),
        forall|j: int| 0 <= j < lugar_de(s, f) ==> !menor_lex(f.nombre, #[trigger] s[j].nombre),
        lugar_de(s, f) < s.len() ==> menor_lex(f.nombre, s[lugar_de(s, f)].nombre),
    decreases s.len(),
{
    if s.len() > 0 && !menor_lex(f.nombre, s[0].nombre) {
        let t = s.drop_first();
        lema_lugar(t, f);
        assert forall|j: int| 0 <= j < lugar_de(s, f) implies !menor_lex(
            f.nombre,
            #[trigger] s[j].nombre,
        ) by {
            if j > 0 {
                assert(s[j] == t[j - 1]);
            }
        }
    }
}

proof fn lema_insertar_ordenado(r: Seq<FiltroVista>, x: FiltroVista)
    requires
        ordenados_por_nombre(r),
    ensures
        ordenados_por_nombre(r.insert(lugar_de(r, x), x)),
{
    lema_lugar(r, x);
    let p = lugar_de(r, x);
    let t = r.insert(p, x);
    assert forall|i: int, j: int| 0 <= i < j < t.len() implies !menor_lex(
        #[trigger] t[j].nombre,
        #[trigger] t[i].nombre,
    ) by {
        if j < p {
            assert(t[i] == r[i] && t[j] == r[j]);
        } else if j == p {
            assert(t[i] == r[i] && t[j] == x);
        } else if i < p {
            assert(t[i] == r[i] && t[j] == r[j - 1]);
        } else if i == p {
            assert(t[i] == x && t[j] == r[j - 1]);
            let a = r[p].nombre;
            let b = r[j - 1].nombre;
            assert(menor_lex(x.nombre, a));
            if j - 1 > p {
                assert(!menor_lex(r[j - 1].nombre, r[p].nombre));
                lema_menor_total(a, b);
                if menor_lex(a, b) {
                    lema_menor_transitivo(x.nombre, a, b);
                }
            }
            lema_menor_asimetrico(x.nombre, b);
        } else {
            assert(t[i] == r[i - 1] && t[j] == r[j - 1]);
        }
    }
}

/// Sorting leaves the filters in order of their names.
pub proof fn ley_filtros_ordenados(s: Seq<FiltroVista>)
    ensures
        ordenados_por_nombre(ordenar_filtros(s)),
    decreases s.len(),
{
    if s.len() > 0 {
        ley_filtros_ordenados(s.drop_last());
        lema_insertar_ordenado(ordenar_filtros(s.drop_last()), s.last());
    }
}

/// Sorting keeps every filter, each as often as it came.
pub proof fn ley_filtros_conservados(s: Seq<FiltroVista>)
    ensures
        ordenar_filtros(s).to_multiset() == s.to_multiset(),
    decreases s.len(),
{
    broadcast use vstd::seq_lib::to_multiset_insert, vstd::seq_lib::to_multiset_build;

    if s.len() > 0 {
        let r = ordenar_filtros(s.drop_last());
        ley_filtros_conservados(s.drop_last());
        lema_lugar(r, s.last());
        assert(s =~= s.drop_last().push(s.last()));
    }
}

/// The filters named `n`.
pub open spec fn con_nombre(n: Seq<char>) -> spec_fn(FiltroVista) -> bool {
    |f: FiltroVista| f.nombre == n
}

proof fn lema_despues_del_lugar(r: Seq<FiltroVista>, x: FiltroVista, j: int)
    requires
        ordenados_por_nombre(r),
        lugar_de(r, x) <= j < r.len(),
    ensures
        r[j].nombre != x.nombre,
{
    lema_lugar(r, x);
    let p = lugar_de(r, x);
    lema_menor_asimetrico(x.nombre, x.nombre);
    if j > p {
        assert(!menor_lex(r[j].nombre, r[p].nombre));
        lema_menor_total(r[p].nombre, r[j].nombre);
        if menor_lex(r[p].nombre, r[j].nombre) {
            lema_menor_transitivo(x.nombre, r[p].nombre, r[j].nombre);
        }
    }
}

/// Sorting is stable: the filters of each name come out in the order they
/// came in.
pub proof fn ley_filtros_estables(s: Seq<FiltroVista>, n: Seq<char>)
    ensures
        ordenar_filtros(s).filter(con_nombre(n)) == s.filter(con_nombre(n)),
    decreases s.len(),
{
    broadcast use vstd::seq::Seq::filter_distributes_over_add, vstd::seq::Seq::lemma_filter_push;

    if s.len() > 0 {
        let s0 = s.drop_last();
        let x = s.last();
        let r = ordenar_filtros(s0);
        ley_filtros_estables(s0, n);
        ley_filtros_ordenados(s0);
        lema_lugar(r, x);
        let p = lugar_de(r, x);
        let a = r.take(p);
        let b = r.skip(p);
        assert(r =~= a + b);
        assert(r.insert(p, x) =~= a + seq![x] + b);
        assert(s =~= s0.push(x));
        let pr = con_nombre(n);
        if x.nombre == n {
            assert forall|j: int| 0 <= j < b.len() implies !pr(b[j]) by {
                lema_despues_del_lugar(r, x, j + p);
                assert(b[j] == r[j + p]);
            }
            b.lemma_all_neg_filter_empty(pr);
            assert(b.filter(pr) =~= Seq::<FiltroVista>::empty());
            assert(seq![x].filter(pr) =~= seq![x]) by {
                Seq::<FiltroVista>::empty().lemma_filter_push(x, pr);
                assert(Seq::<FiltroVista>::empty().push(x) =~= seq![x]);
                assert(Seq::<FiltroVista>::empty().filter(pr) =~= Seq::<FiltroVista>::empty());
            }
            assert((a + seq![x] + b).filter(pr) =~= a.filter(pr) + seq![x]);
            assert(r.filter(pr) =~= a.filter(pr));
            assert(s.filter(pr) == s0.filter(pr).push(x));
        } else {
            assert(seq![x].filter(pr) =~= Seq::<FiltroVista>::empty()) by {
                Seq::<FiltroVista>::empty().lemma_filter_push(x, pr);
                assert(Seq::<FiltroVista>::empty().push(x) =~= seq![x]);
                assert(Seq::<FiltroVista>::empty().filter(pr) =~= Seq::<FiltroVista>::empty());
            }
            assert((a + seq![x] + b).filter(pr) =~= a.filter(pr) + b.filter(pr));
            assert(s.filter(pr) == s0.filter(pr));
        }
    }
}

fn textos_exec(v: &Vec<ValorColumna>) -> (r: Vec<String>)
    ensures
        vista_textos(r@) == textos_de_valores(v@),
{
    let mut r: Vec<String> = Vec::new();
    let mut i: usize = 0;
    assert(vista_textos(r@) =~= textos_de_valores(v@.take(0)));
    while i < v.len()
        invariant
            i <= v.len(),
            vista_textos(r@) == textos_de_valores(v@.take(i as int)),
        decreases v.len() - i,
    {
        assert(v@.take(i + 1).drop_last() =~= v@.take(i as int));
        assert(v@.take(i + 1).last() == v@[i as int]);
        let c = texto_valor(&v[i]);
        let ghost antes = r@;
        r.push(c);
        assert(vista_textos(r@) =~= vista_textos(antes).push(texto_de_valor(v@[i as int])));
        i = i + 1;
    }
    assert(v@.take(v.len() as int) =~= v@);
    r
}

fn copiar_texto_opcional(o: &Option<String>) -> (r: Option<String>)
    ensures
        r == *o,
{
    match o {
        Some(t) => Some(t.clone()),
        None => None,
    }
}

fn copiar_real_opcional(o: &Option<Real>) -> (r: Option<Real>)
    ensures
        r == *o,
{
    match o {
        Some(x) => Some(x.clone()),
        None => None,
    }
}

fn filtro_de_exec(c: &ColumnaInfo) -> (r: Option<FiltroInfo>)
    ensures
        match r {
            Some(f) => filtro_de(*c) == Some(f@),
            None => filtro_de(*c) is None,
        },
{
    proof {
        lema_tipos_distintos();
    }
    let es_cat = c.tipo == String::from_str("categorical");
    let es_fk = c.tipo == String::from_str("categorical_fk");
    let es_fecha = c.tipo == String::from_str("date");
    let es_num = c.tipo == String::from_str("numeric");
    let es_texto = c.tipo == String::from_str("text_search");
    if !(es_cat || es_fk || es_fecha || es_num || es_texto) {
        return None;
    }
    let valores = if es_cat || es_fk {
        match &c.valores {
            Some(v) => Some(textos_exec(v)),
            None => None,
        }
    } else {
        None
    };
    let f = FiltroInfo {
        nombre: c.nombre.clone(),
        tipo: c.tipo.clone(),
        valores,
        min: if es_num { copiar_real_opcional(&c.min) } else { None },
        max: if es_num { copiar_real_opcional(&c.max) } else { None },
        fecha_min: if es_fecha { copiar_texto_opcional(&c.fecha_min) } else { None },
        fecha_max: if es_fecha { copiar_texto_opcional(&c.fecha_max) } else { None },
        col_original: if es_fk { copiar_texto_opcional(&c.col_original) } else { None },
        tabla_catalogo: if es_fk { copiar_texto_opcional(&c.tabla_catalogo) } else { None },
        col_nombre_catalogo: if es_fk { copiar_texto_opcional(&c.col_nombre_catalogo) } else { None },
    };
    Some(f)
}

fn lugar_exec(s: &Vec<FiltroInfo>, f: &FiltroInfo) -> (r: usize)
    ensures
        r == lugar_de(vistas_filtros(s@), f@),
{
    let ghost vs = vistas_filtros(s@);
    let mut i: usize = 0;
    assert(vs.skip(0) =~= vs);
    while i < s.len()
        invariant
            i <= s.len(),
            vs == vistas_filtros(s@),
            lugar_de(vs, f@) == i + lugar_de(vs.skip(i as int), f@),
        decreases s.len() - i,
    {
        assert(vs.skip(i as int)[0] == s@[i as int]@);
        if menor_lex_exec(f.nombre.as_str(), s[i].nombre.as_str()) {
            return i;
        }
        assert(vs.skip(i as int).drop_first() =~= vs.skip(i + 1));
        i = i + 1;
    }
    i
}

/// The filters that the sidebar offers, one for each column of a known kind,
/// sorted by column name (a stable sort: columns of equal name keep their
/// order).
pub fn extraer_filtros_info(meta: &SchemaMetadata) -> (r: Vec<FiltroInfo>)
    ensures
        vistas_filtros(r@) == ordenar_filtros(filtros_de(meta.columnas@)),
{
    let cols = &meta.columnas;
    let mut r: Vec<FiltroInfo> = Vec::new();
    let mut i: usize = 0;
    assert(vistas_filtros(r@) =~= ordenar_filtros(filtros_de(cols@.take(0))));
    while i < cols.len()
        invariant
            i <= cols.len(),
            cols == meta.columnas,
            vistas_filtros(r@) == ordenar_filtros(filtros_de(cols@.take(i as int))),
        decreases cols.len() - i,
    {
        let ghost previos = cols@.take(i as int);
        assert(cols@.take(i + 1).drop_last() =~= previos);
        assert(cols@.take(i + 1).last() == cols@[i as int]);
        match filtro_de_exec(&cols[i]) {
            Some(f) => {
                let ghost fs = filtros_de(previos);
                assert(fs.push(f@).drop_last() =~= fs);
                let p = lugar_exec(&r, &f);
                proof {
                    lema_lugar(vistas_filtros(r@), f@);
                }
                let ghost antes = r@;
                r.insert(p, f);
                assert(vistas_filtros(r@) =~= vistas_filtros(antes).insert(p as int, f@));
            },
            None => {},
        }
        i = i + 1;
    }
    assert(cols@.take(cols.len() as int) =~= cols@);
    r
}

} // verus!
