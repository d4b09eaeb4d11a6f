//! What the database holds: its tables and views, their columns, their
//! foreign keys and primary keys.

use vstd::prelude::*;
use crate::db::constants::vistas;
use crate::db::sqlite::{
    como_bool, como_i32, como_texto, como_texto_opcional, consultar, consultar_fila, ErrorBd,
    ParamSql, ValorSql, como_entero, spec_como_entero, vistas_params, Filas, ParamVista, primera_de,
};
use crate::db::types::{vista_opcional, ColumnaRaw, FkInfo};
use crate::db::utils::{clean_identifier, safe_ident, spec_clean_identifier, spec_safe_ident};
use crate::texto::{chars_de, contiene, contiene_exec, mayusculas, mayusculas_de, minusculas, minusculas_de};

verus! {

/// The text in cell `col` of a row, if that cell holds text.
pub open spec fn texto_en(f: Vec<ValorSql>, col: int) -> Option<Seq<char>> {
    if 0 <= col < f.len() {
        match f[col] {
            ValorSql::Texto(s) => Some(s@),
            _ => None,
        }
    } else {
        None
    }
}

/// The texts of cell `col`, in row order, of the rows where it holds text.
pub open spec fn spec_textos_columna(filas: Seq<Vec<ValorSql>>, col: int) -> Seq<Seq<char>>
    decreases filas.len(),
{
    if filas.len() == 0 {
        Seq::empty()
    } else {
        let previos = spec_textos_columna(filas.drop_last(), col);
        match texto_en(filas.last(), col) {
            Some(s) => previos.push(s),
            None => previos,
        }
    }
}

/// The texts of cell `col` of the rows where that cell holds text: what
/// `query_map(|row| row.get::<_, String>(col))` keeps after dropping the rows
/// that fail.
pub fn textos_de_columna(filas: &Vec<Vec<ValorSql>>, col: usize) -> (r: Vec<String>)
    ensures
        vistas(r@) == spec_textos_columna(filas@, col as int),
{
    let mut r: Vec<String> = Vec::new();
    let mut i: usize = 0;
    while i < filas.len()
        invariant
            i <= filas.len(),
            vistas(r@) == spec_textos_columna(filas@.subrange(0, i as int), col as int),
        decreases filas.len() - i,
    {
        assert(filas@.subrange(0, i + 1).drop_last() =~= filas@.subrange(0, i as int));
        if col < filas[i].len() {
            match como_texto(&filas[i][col]) {
                Ok(s) => {
                    r.push(s);
                    assert(vistas(r@) =~= spec_textos_columna(
                        filas@.subrange(0, i + 1),
                        col as int,
                    ));
                },
                Err(_) => {},
            }
        }
        i = i + 1;
    }
    assert(filas@.subrange(0, filas.len() as int) =~= filas@);
    r
}

/// The names of the tables, in name order.
pub fn listar_tablas(conn: &rusqlite::Connection) -> (r: Result<Vec<String>, ErrorBd>)
    ensures
        nombres_respondidos(SQL_TABLAS@, r),
{
    listar_nombres(conn, SQL_TABLAS)
}

/// The names of the views, in name order.
pub fn listar_vistas(conn: &rusqlite::Connection) -> (r: Result<Vec<String>, ErrorBd>)
    ensures
        nombres_respondidos(SQL_VISTAS@, r),
{
    listar_nombres(conn, SQL_VISTAS)
}

/// The statement listing the tables by name.
pub const SQL_TABLAS: &'static str = "SELECT name FROM sqlite_master WHERE type='table' ORDER BY name";

/// The statement listing the views by name.
pub const SQL_VISTAS: &'static str = "SELECT name FROM sqlite_master WHERE type='view' ORDER BY name";

/// `r` is the list of names (the texts of cell 0) that the query `sql`
/// answered, or the error it answered with.
pub open spec fn nombres_respondidos(sql: Seq<char>, r: Result<Vec<String>, ErrorBd>) -> bool {
    exists|f: Filas|
        #[trigger] f.consulta() == (sql, Seq::<ParamVista>::empty()) && match r {
            Err(e) => e is Sqlite && !f.ejecutada() && f.error() == Some(e),
            Ok(v) => f.ejecutada() && vistas(v@) == spec_textos_columna(f.filas(), 0),
        }
}

fn listar_nombres(conn: &rusqlite::Connection, sql: &str) -> (r: Result<Vec<String>, ErrorBd>)
    ensures
        nombres_respondidos(sql@, r),
{
    let sin_valores: Vec<ParamSql> = Vec::new();
    assert(vistas_params(sin_valores@) =~= Seq::<ParamVista>::empty());
    let f = match consultar(conn, sql, sin_valores.as_slice()) {
        Ok(f) => f,
        Err(e) => return Err(e),
    };
    let v = textos_de_columna(f.lista(), 0);
    assert(f.consulta() == (sql@, Seq::<ParamVista>::empty()));
    assert(vistas(v@) == spec_textos_columna(f.filas(), 0));
    Ok(v)
}

/// Some keyword occurs in the lower-cased name.
pub open spec fn nombre_con_palabra(nombre: Seq<char>, palabras: Seq<Seq<char>>) -> bool {
    exists|k: int| 0 <= k < palabras.len() && contiene(minusculas_de(nombre), #[trigger] palabras[k])
}

/// The index of the first name that holds one of the keywords.
pub open spec fn primera_con_palabra(nombres: Seq<Seq<char>>, palabras: Seq<Seq<char>>) -> Option<int>
    decreases nombres.len(),
{
    if nombres.len() == 0 {
        None
    } else if nombre_con_palabra(nombres[0], palabras) {
        Some(0)
    } else {
        match primera_con_palabra(nombres.drop_first(), palabras) {
            Some(i) => Some(i + 1),
            None => None,
        }
    }
}

/// The main view: the first (in the given order) whose lower-cased name holds
/// one of the keywords, else the first view, else none.
pub open spec fn spec_elegir_vista(vs: Seq<Seq<char>>, palabras: Seq<Seq<char>>) -> Option<Seq<char>> {
    match primera_con_palabra(vs, palabras) {
        Some(i) => Some(vs[i]),
        None => if vs.len() > 0 {
            Some(vs[0])
        } else {
            None
        },
    }
}

/// Whether the lower-cased name holds one of the keywords.
pub fn tiene_palabra(nombre: &str, palabras: &Vec<String>) -> (r: bool)
    ensures
        r == nombre_con_palabra(nombre@, vistas(palabras@)),
{
    let n = chars_de(minusculas(nombre).as_str());
    let mut k: usize = 0;
    while k < palabras.len()
        invariant
            k <= palabras.len(),
            n@ == minusculas_de(nombre@),
            forall|j: int| 0 <= j < k ==> !contiene(n@, #[trigger] vistas(palabras@)[j]),
        decreases palabras.len() - k,
    {
        if contiene_exec(&n, &chars_de(palabras[k].as_str())) {
            assert(contiene(minusculas_de(nombre@), vistas(palabras@)[k as int]));
            return true;
        }
        k = k + 1;
    }
    false
}

proof fn lema_primera_con_palabra(nombres: Seq<Seq<char>>, palabras: Seq<Seq<char>>, i: int)
    requires
        0 <= i <= nombres.len(),
        forall|j: int| 0 <= j < i ==> !nombre_con_palabra(#[trigger] nombres[j], palabras),
    ensures
        i < nombres.len() && nombre_con_palabra(nombres[i], palabras) ==> primera_con_palabra(
            nombres,
            palabras,
        ) == Some(i),
        i == nombres.len() ==> primera_con_palabra(nombres, palabras) is None,
    decreases i,
{
    if i > 0 {
        assert(!nombre_con_palabra(nombres[0], palabras));
        lema_primera_con_palabra(nombres.drop_first(), palabras, i - 1);
    }
}

/// The main view among `vistas_bd`: the first whose lower-cased name holds
/// one of the keywords, else the first one.
pub fn elegir_vista_principal(vistas_bd: &Vec<String>, palabras: &Vec<String>) -> (r: Option<String>)
    ensures
        match r {
            Some(v) => spec_elegir_vista(vistas(vistas_bd@), vistas(palabras@)) == Some(v@),
            None => spec_elegir_vista(vistas(vistas_bd@), vistas(palabras@)) is None,
        },
{
    let ghost vs = vistas(vistas_bd@);
    let mut i: usize = 0;
    while i < vistas_bd.len()
        invariant
            i <= vistas_bd.len(),
            vs == vistas(vistas_bd@),
            forall|j: int| 0 <= j < i ==> !nombre_con_palabra(#[trigger] vs[j], vistas(palabras@)),
        decreases vistas_bd.len() - i,
    {
        if tiene_palabra(vistas_bd[i].as_str(), palabras) {
            proof {
                lema_primera_con_palabra(vs, vistas(palabras@), i as int);
            }
            return Some(vistas_bd[i].clone());
        }
        i = i + 1;
    }
    proof {
        lema_primera_con_palabra(vs, vistas(palabras@), i as int);
    }
    if vistas_bd.len() > 0 {
        Some(vistas_bd[0].clone())
    } else {
        None
    }
}

/// `r` is the main view (see `spec_elegir_vista`) among the views that the
/// listing of views answered, or the error it answered with.
pub open spec fn vista_respondida(palabras: Seq<Seq<char>>, r: Result<Option<String>, ErrorBd>) -> bool {
    exists|f: Filas|
        #[trigger] f.consulta() == (SQL_VISTAS@, Seq::<ParamVista>::empty()) && match r {
            Err(e) => e is Sqlite && !f.ejecutada() && f.error() == Some(e),
            Ok(o) => f.ejecutada() && vista_opcional(o) == spec_elegir_vista(
                spec_textos_columna(f.filas(), 0),
                palabras,
            ),
        }
}

/// The main view of the database: the first view (by name) whose lower-cased
/// name holds one of the keywords, else the first view, else none.
pub fn encontrar_vista_principal(conn: &rusqlite::Connection, view_keywords: &Vec<String>) -> (r:
    Result<Option<String>, ErrorBd>)
    ensures
        vista_respondida(vistas(view_keywords@), r),
{
    let a = listar_vistas(conn);
    let vs = match a {
        Ok(v) => v,
        Err(e) => return Err(e),
    };
    let o = elegir_vista_principal(&vs, view_keywords);
    assert(vista_opcional(o) == spec_elegir_vista(vistas(vs@), vistas(view_keywords@)));
    Ok(o)
}

// ── main table ─────────────────────────────────────────────────────────────

/// The score of a table with `ncols` columns and `filas` rows: its number of
/// columns, plus one when it has more than ten rows.
pub open spec fn puntaje_tabla(ncols: int, filas: int) -> int {
    ncols + if filas > 10 {
        1int
    } else {
        0int
    }
}

/// The score of a measured table, if it can be the main one (three columns
/// or more).
pub open spec fn puntaje_candidata(m: Option<(usize, i64)>) -> Option<int> {
    match m {
        Some((c, f)) => if c >= 3 {
            Some(puntaje_tabla(c as int, f as int))
        } else {
            None
        },
        None => None,
    }
}

/// The index of the first of the best scores among the first `n`.
pub open spec fn mejor_hasta(ps: Seq<Option<int>>, n: int) -> Option<int>
    decreases n,
{
    if n <= 0 {
        None
    } else {
        let previo = mejor_hasta(ps, n - 1);
        match ps[n - 1] {
            Some(x) => match previo {
                Some(j) => if x > ps[j].unwrap() {
                    Some(n - 1)
                } else {
                    previo
                },
                None => Some(n - 1),
            },
            None => previo,
        }
    }
}

/// The scores of the measured tables.
pub open spec fn puntajes(ms: Seq<Option<(usize, i64)>>) -> Seq<Option<int>> {
    ms.map_values(|m: Option<(usize, i64)>| puntaje_candidata(m))
}

proof fn lema_mejor_hasta(ps: Seq<Option<int>>, n: int)
    requires
        0 <= n <= ps.len(),
    ensures
        mejor_hasta(ps, n) matches Some(j) ==> 0 <= j < n && ps[j] is Some,
        mejor_hasta(ps, n) is None ==> forall|k: int| 0 <= k < n ==> ps[k] is None,
        mejor_hasta(ps, n) matches Some(j) ==> forall|k: int|
            0 <= k < n && ps[k] is Some ==> ps[k].unwrap() <= ps[j].unwrap(),
        mejor_hasta(ps, n) matches Some(j) ==> forall|k: int|
            0 <= k < j && ps[k] is Some ==> ps[k].unwrap() < ps[j].unwrap(),
    decreases n,
{
    if n > 0 {
        lema_mejor_hasta(ps, n - 1);
    }
}

/// The first of the tables with the highest score wins: every other
/// candidate scores no more, and those before it score less.
pub proof fn ley_tabla_principal_es_la_mejor(ms: Seq<Option<(usize, i64)>>)
    ensures
        mejor_hasta(puntajes(ms), ms.len() as int) matches Some(j) ==> {
            &&& 0 <= j < ms.len()
            &&& puntaje_candidata(ms[j]) is Some
            &&& forall|k: int|
                0 <= k < ms.len() && (#[trigger] puntaje_candidata(ms[k])) is Some
                    ==> puntaje_candidata(ms[k]).unwrap() <= puntaje_candidata(ms[j]).unwrap()
            &&& forall|k: int|
                0 <= k < j && (#[trigger] puntaje_candidata(ms[k])) is Some
                    ==> puntaje_candidata(ms[k]).unwrap() < puntaje_candidata(ms[j]).unwrap()
        },
        mejor_hasta(puntajes(ms), ms.len() as int) is None ==> forall|k: int|
            0 <= k < ms.len() ==> (#[trigger] puntaje_candidata(ms[k])) is None,
{
    let ps = puntajes(ms);
    lema_mejor_hasta(ps, ms.len() as int);
    assert forall|k: int| 0 <= k < ms.len() implies ps[k] == puntaje_candidata(ms[k]) by {}
    match mejor_hasta(ps, ms.len() as int) {
        Some(j) => {
            assert(ps[j] == puntaje_candidata(ms[j]));
            assert forall|k: int|
                0 <= k < ms.len() && (#[trigger] puntaje_candidata(ms[k])) is Some implies
                puntaje_candidata(ms[k]).unwrap() <= puntaje_candidata(ms[j]).unwrap() by {
                assert(ps[k] == puntaje_candidata(ms[k]));
            }
            assert forall|k: int|
                0 <= k < j && (#[trigger] puntaje_candidata(ms[k])) is Some implies
                puntaje_candidata(ms[k]).unwrap() < puntaje_candidata(ms[j]).unwrap() by {
                assert(ps[k] == puntaje_candidata(ms[k]));
            }
        },
        None => {
            assert forall|k: int| 0 <= k < ms.len() implies (#[trigger] puntaje_candidata(
                ms[k],
            )) is None by {
                assert(ps[k] == puntaje_candidata(ms[k]));
            }
        },
    }
}

/// The main table among measured tables (`None` for a table that could not
/// be measured): the first of those with three columns or more whose score
/// is highest.
pub fn elegir_tabla_principal(tablas: &Vec<String>, medidas: &Vec<Option<(usize, i64)>>) -> (r:
    Option<String>)
    requires
        tablas.len() == medidas.len(),
    ensures
        match mejor_hasta(puntajes(medidas@), medidas.len() as int) {
            Some(j) => r matches Some(t) && t@ == tablas@[j]@,
            None => r is None,
        },
{
    let ghost ps = puntajes(medidas@);
    let mut mejor: Option<(usize, i128)> = None;
    let mut i: usize = 0;
    while i < medidas.len()
        invariant
            i <= medidas.len(),
            tablas.len() == medidas.len(),
            ps == puntajes(medidas@),
            match mejor_hasta(ps, i as int) {
                Some(j) => mejor matches Some((k, p)) && k == j && p == ps[j].unwrap(),
                None => mejor is None,
            },
        decreases medidas.len() - i,
    {
        proof {
            lema_mejor_hasta(ps, i as int);
        }
        match medidas[i] {
            Some((c, f)) => {
                if c >= 3 {
                    let p: i128 = c as i128 + if f > 10 {
                        1i128
                    } else {
                        0i128
                    };
                    let mejora = match mejor {
                        Some((_, pm)) => p > pm,
                        None => true,
                    };
                    if mejora {
                        mejor = Some((i, p));
                    }
                }
            },
            None => {},
        }
        i = i + 1;
    }
    proof {
        lema_mejor_hasta(ps, medidas.len() as int);
    }
    match mejor {
        Some((k, _)) => Some(tablas[k].clone()),
        None => None,
    }
}


/// The statement listing the columns of a table.
pub open spec fn sql_table_info(tabla: Seq<char>) -> Seq<char> {
    "PRAGMA table_info("@ + spec_safe_ident(tabla) + ")"@
}

/// The statement listing the foreign keys of a table.
pub open spec fn sql_foreign_key_list(tabla: Seq<char>) -> Seq<char> {
    "PRAGMA foreign_key_list("@ + spec_safe_ident(tabla) + ")"@
}

/// The statement counting the rows of a table.
pub open spec fn sql_contar(tabla: Seq<char>) -> Seq<char> {
    "SELECT COUNT(*) FROM "@ + spec_safe_ident(tabla)
}

pub fn texto_table_info(tabla: &str) -> (r: String)
    ensures
        r@ == sql_table_info(tabla@),
{
    let mut r = String::from_str("PRAGMA table_info(");
    r.append(safe_ident(tabla).as_str());
    r.append(")");
    r
}

pub fn texto_foreign_key_list(tabla: &str) -> (r: String)
    ensures
        r@ == sql_foreign_key_list(tabla@),
{
    let mut r = String::from_str("PRAGMA foreign_key_list(");
    r.append(safe_ident(tabla).as_str());
    r.append(")");
    r
}

pub fn texto_contar(tabla: &str) -> (r: String)
    ensures
        r@ == sql_contar(tabla@),
{
    let mut r = String::from_str("SELECT COUNT(*) FROM ");
    r.append(safe_ident(tabla).as_str());
    r
}

/// The count that the first row of a count answers, if it reads as an
/// integer.
pub open spec fn conteo_leido(a: Result<Vec<ValorSql>, ErrorBd>) -> Option<i64> {
    match a {
        Ok(fila) => if fila.len() > 0 {
            spec_como_entero(fila[0])
        } else {
            None
        },
        Err(_) => None,
    }
}

/// The number of rows of a table, when the count can be read.
fn contar_filas(conn: &rusqlite::Connection, tabla: &str) -> (r: Option<i64>)
    ensures
        exists|f: Filas|
            #[trigger] f.consulta() == (sql_contar(tabla@), Seq::<ParamVista>::empty()) && r == conteo_leido(
                primera_de(f),
            ),
{
    let sin_valores: Vec<ParamSql> = Vec::new();
    assert(vistas_params(sin_valores@) =~= Seq::<ParamVista>::empty());
    let a = consultar_fila(conn, texto_contar(tabla).as_str(), sin_valores.as_slice());
    let r = match &a {
        Ok(fila) => if fila.len() > 0 {
            match como_entero(&fila[0]) {
                Ok(n) => Some(n),
                Err(_) => None,
            }
        } else {
            None
        },
        Err(_) => None,
    };
    assert(r == conteo_leido(a));
    r
}

/// The number of column names that the column list of a table answered, or
/// none when it could not be run.
pub open spec fn columnas_contadas(f: Filas) -> Option<usize> {
    if f.ejecutada() {
        Some(spec_textos_columna(f.filas(), 1).len() as usize)
    } else {
        None
    }
}

/// The number of column names that `PRAGMA table_info` lists for a table,
/// when it can be read.
fn contar_columnas(conn: &rusqlite::Connection, tabla: &str) -> (r: Option<usize>)
    ensures
        exists|f: Filas|
            #[trigger] f.consulta() == (sql_table_info(tabla@), Seq::<ParamVista>::empty()) && r
                == columnas_contadas(f),
{
    let sin_valores: Vec<ParamSql> = Vec::new();
    assert(vistas_params(sin_valores@) =~= Seq::<ParamVista>::empty());
    match consultar(conn, texto_table_info(tabla).as_str(), sin_valores.as_slice()) {
        Ok(f) => {
            let v = textos_de_columna(f.lista(), 1);
            assert(vistas(v@).len() == v@.len());
            assert(Some(v.len()) == columnas_contadas(f));
            Some(v.len())
        },
        Err(_) => None,
    }
}

/// `m` is what the queries measuring table `t` answered: none for a name
/// that is not plain or a column list that could not be run; the number of
/// columns (and no rows) for fewer than three; else the number of columns
/// and the row count, if the count reads as an integer.
pub open spec fn medida_respondida(t: Seq<char>, m: Option<(usize, i64)>) -> bool {
    if !spec_clean_identifier(t) {
        m is None
    } else {
        exists|fc: Filas|
            #[trigger] fc.consulta() == (sql_table_info(t), Seq::<ParamVista>::empty()) && match columnas_contadas(fc) {
                None => m is None,
                Some(c) => if c < 3 {
                    m == Some((c, 0i64))
                } else {
                    exists|fr: Filas|
                        #[trigger] fr.consulta() == (sql_contar(t), Seq::<ParamVista>::empty()) && m == match conteo_leido(
                            primera_de(fr),
                        ) {
                            Some(n) => Some((c, n)),
                            None => None,
                        }
                },
            }
    }
}

/// `r` is the main table (see `elegir_tabla_principal`) among `tablas`, as
/// measured by what their queries answered.
pub open spec fn tabla_respondida(tablas: Seq<String>, r: Option<String>) -> bool {
    exists|ms: Seq<Option<(usize, i64)>>|
        #![trigger puntajes(ms)]
        ms.len() == tablas.len() && (forall|k: int| 0 <= k < ms.len() ==> medida_respondida(tablas[k]@, #[trigger] ms[k]))
            && match mejor_hasta(puntajes(ms), ms.len() as int) {
            Some(j) => r matches Some(t) && t@ == tablas[j]@,
            None => r is None,
        }
}

/// The main table: among the tables with plain names whose columns and rows
/// can be counted, the first of those with three columns or more that have
/// the most columns (one more for more than ten rows).
pub fn encontrar_tabla_principal(conn: &rusqlite::Connection, tablas: &Vec<String>) -> (r: Option<
    String,
>)
    ensures
        tabla_respondida(tablas@, r),
        r matches Some(t) ==> exists|j: int|
            0 <= j < tablas.len() && t@ == (#[trigger] tablas@[j])@ && spec_clean_identifier(t@),
{
    let mut medidas: Vec<Option<(usize, i64)>> = Vec::new();
    let mut i: usize = 0;
    while i < tablas.len()
        invariant
            i <= tablas.len(),
            medidas.len() == i,
            forall|k: int| 0 <= k < i ==> medida_respondida(tablas@[k]@, #[trigger] medidas@[k]),
            forall|k: int| 0 <= k < i && (#[trigger] medidas@[k]) is Some ==> spec_clean_identifier(
                tablas@[k]@,
            ),
        decreases tablas.len() - i,
    {
        let t = tablas[i].as_str();
        let mut medida: Option<(usize, i64)> = None;
        if clean_identifier(t) {
            let cc = contar_columnas(conn, t);
            match cc {
                Some(c) => if c < 3 {
                    medida = Some((c, 0));
                } else {
                    let cf = contar_filas(conn, t);
                    match cf {
                        Some(f) => {
                            medida = Some((c, f));
                        },
                        None => {},
                    }
                    let ghost fr = choose|fr: Filas|
                        #[trigger] fr.consulta() == (sql_contar(t@), Seq::<ParamVista>::empty()) && cf == conteo_leido(
                            primera_de(fr),
                        );
                    assert(fr.consulta() == (sql_contar(t@), Seq::<ParamVista>::empty()));
                },
                None => {},
            }
            let ghost fc = choose|fc: Filas|
                #[trigger] fc.consulta() == (sql_table_info(t@), Seq::<ParamVista>::empty()) && cc == columnas_contadas(fc);
            assert(fc.consulta() == (sql_table_info(t@), Seq::<ParamVista>::empty()));
            assert(medida_respondida(t@, medida));
        }
        let ghost m0 = medidas@;
        medidas.push(medida);
        assert(medidas@[i as int] == medida);
        assert forall|k: int| 0 <= k < i + 1 implies medida_respondida(tablas@[k]@, #[trigger] medidas@[k]) by {
            if k < i {
                assert(medidas@[k] == m0[k]);
            }
        }
        i = i + 1;
    }
    let r = elegir_tabla_principal(tablas, &medidas);
    proof {
        ley_tabla_principal_es_la_mejor(medidas@);
        assert(medidas@.len() == tablas@.len());
    }
    r
}

// ── rows of the schema pragmas ─────────────────────────────────────────────

/// A row of `PRAGMA table_info` that reads as a column: integer id within
/// `i32`, text name, text or NULL type, integer not-null flag, text or NULL
/// default, integer key flag.
pub open spec fn fila_de_columna(f: Vec<ValorSql>) -> bool {
    &&& f.len() > 5
    &&& f[0] matches ValorSql::Entero(id) && i32::MIN <= id <= i32::MAX
    &&& f[1] is Texto
    &&& (f[2] is Texto || f[2] is Nulo)
    &&& f[3] is Entero
    &&& (f[4] is Texto || f[4] is Nulo)
    &&& f[5] is Entero
}

/// `c` is the column that the row describes, its declared type upper-cased
/// (an absent type as an empty one).
pub open spec fn columna_de_fila(f: Vec<ValorSql>, c: ColumnaRaw) -> bool {
    &&& c._cid == f[0]->Entero_0
    &&& c.name@ == f[1]->Texto_0@
    &&& c.col_type@ == mayusculas_de(
        match f[2] {
            ValorSql::Texto(s) => s@,
            _ => Seq::empty(),
        },
    )
    &&& c._notnull == (f[3]->Entero_0 != 0)
    &&& (match f[4] {
        ValorSql::Texto(s) => c._dflt_value matches Some(d) && d@ == s@,
        _ => c._dflt_value is None,
    })
    &&& c.pk == (f[5]->Entero_0 != 0)
}

/// The indices of the rows that read as columns, in order.
pub open spec fn indices_columnas(filas: Seq<Vec<ValorSql>>) -> Seq<int>
    decreases filas.len(),
{
    if filas.len() == 0 {
        Seq::empty()
    } else {
        let previos = indices_columnas(filas.drop_last());
        if fila_de_columna(filas.last()) {
            previos.push(filas.len() - 1)
        } else {
            previos
        }
    }
}

proof fn lema_indices_columnas_paso(filas: Seq<Vec<ValorSql>>, i: int)
    requires
        0 <= i < filas.len(),
    ensures
        indices_columnas(filas.subrange(0, i + 1)) == (if fila_de_columna(filas[i]) {
            indices_columnas(filas.subrange(0, i)).push(i)
        } else {
            indices_columnas(filas.subrange(0, i))
        }),
{
    assert(filas.subrange(0, i + 1).drop_last() =~= filas.subrange(0, i));
    assert(filas.subrange(0, i + 1).last() == filas[i]);
}

/// The column that a row of `PRAGMA table_info` describes, if it reads as one.
pub fn columna_raw_de_fila(f: &Vec<ValorSql>) -> (r: Option<ColumnaRaw>)
    ensures
        r is Some <==> fila_de_columna(*f),
        r matches Some(c) ==> columna_de_fila(*f, c),
{
    if f.len() <= 5 {
        return None;
    }
    let cid = match como_i32(&f[0]) {
        Ok(x) => x,
        Err(_) => return None,
    };
    let name = match como_texto(&f[1]) {
        Ok(x) => x,
        Err(_) => return None,
    };
    let tipo = match como_texto_opcional(&f[2]) {
        Ok(x) => x,
        Err(_) => return None,
    };
    let notnull = match como_bool(&f[3]) {
        Ok(x) => x,
        Err(_) => return None,
    };
    let dflt = match como_texto_opcional(&f[4]) {
        Ok(x) => x,
        Err(_) => return None,
    };
    let pk = match como_bool(&f[5]) {
        Ok(x) => x,
        Err(_) => return None,
    };
    let base = match tipo {
        Some(t) => t,
        None => String::new(),
    };
    let col_type = mayusculas(base.as_str());
    Some(ColumnaRaw { _cid: cid, name, col_type, _notnull: notnull, _dflt_value: dflt, pk })
}

/// The columns that the rows of `PRAGMA table_info` describe, skipping the
/// rows that do not read as a column.
pub fn columnas_de_filas(filas: &Vec<Vec<ValorSql>>) -> (r: Vec<ColumnaRaw>)
    ensures
        r.len() == indices_columnas(filas@).len(),
        forall|k: int|
            #![trigger r@[k]]
            #![trigger indices_columnas(filas@)[k]]
            0 <= k < r.len() ==> 0 <= indices_columnas(filas@)[k] && indices_columnas(filas@)[k] < filas.len()
                && columna_de_fila(filas@[indices_columnas(filas@)[k]], r@[k]),
{
    let mut r: Vec<ColumnaRaw> = Vec::new();
    let mut i: usize = 0;
    let ghost mut ind: Seq<int> = Seq::empty();
    while i < filas.len()
        invariant
            i <= filas.len(),
            ind == indices_columnas(filas@.subrange(0, i as int)),
            r.len() == ind.len(),
            forall|k: int| #![trigger r@[k]] #![trigger ind[k]] 0 <= k < r.len() ==> 0 <= ind[k] && ind[k] < i && columna_de_fila(filas@[ind[k]], r@[k]),
        decreases filas.len() - i,
    {
        proof {
            lema_indices_columnas_paso(filas@, i as int);
        }
        match columna_raw_de_fila(&filas[i]) {
            Some(c) => {
                let ghost r0 = r@;
                let ghost ind0 = ind;
                r.push(c);
                proof {
                    ind = ind.push(i as int);
                    assert forall|k: int| #![trigger r@[k]] #![trigger ind[k]] 0 <= k < r.len() implies 0 <= ind[k] && ind[k] <= i
                        && columna_de_fila(filas@[ind[k]], r@[k]) by {
                        if k < r0.len() {
                            assert(r@[k] == r0[k]);
                            assert(ind[k] == ind0[k]);
                        }
                    }
                }
            },
            None => {},
        }
        i = i + 1;
    }
    assert(filas@.subrange(0, filas.len() as int) =~= filas@);
    r
}

/// `r` is what the column list of `tabla` answered: the columns that its
/// rows describe, or the error it answered with.
pub open spec fn columnas_respondidas_de(tabla: Seq<char>, r: Result<Vec<ColumnaRaw>, ErrorBd>) -> bool {
    exists|f: Filas|
        #[trigger] f.consulta() == (sql_table_info(tabla), Seq::<ParamVista>::empty()) && match r {
            Err(e) => e is Sqlite && !f.ejecutada() && f.error() == Some(e),
            Ok(v) => f.ejecutada() && columnas_leidas(f.filas(), v@),
        }
}

/// The columns of a table, as `PRAGMA table_info` lists them (the rows that
/// do not read as a column are skipped).
pub fn obtener_columnas(conn: &rusqlite::Connection, tabla: &str) -> (r: Result<
    Vec<ColumnaRaw>,
    ErrorBd,
>)
    ensures
        columnas_respondidas_de(tabla@, r),
{
    let sin_valores: Vec<ParamSql> = Vec::new();
    assert(vistas_params(sin_valores@) =~= Seq::<ParamVista>::empty());
    let f = match consultar(conn, texto_table_info(tabla).as_str(), sin_valores.as_slice()) {
        Ok(f) => f,
        Err(e) => return Err(e),
    };
    let v = columnas_de_filas(f.lista());
    assert(f.consulta() == (sql_table_info(tabla@), Seq::<ParamVista>::empty()));
    assert(columnas_leidas(f.filas(), v@));
    Ok(v)
}

/// The names of columns, in order.
pub open spec fn nombres_columnas(raw: Seq<ColumnaRaw>) -> Seq<Seq<char>> {
    Seq::new(raw.len(), |i: int| raw[i].name@)
}

/// `v` holds, in order, the columns that the rows `f` that read as columns
/// describe.
pub open spec fn columnas_leidas(f: Seq<Vec<ValorSql>>, v: Seq<ColumnaRaw>) -> bool {
    &&& v.len() == indices_columnas(f).len()
    &&& forall|k: int|
        #![trigger v[k]]
        0 <= k < v.len() ==> 0 <= indices_columnas(f)[k] < f.len() && columna_de_fila(
            f[indices_columnas(f)[k]],
            v[k],
        )
}

/// A row of `PRAGMA foreign_key_list` that reads as a key: text target
/// table, text source column, text target column.
pub open spec fn fila_de_fk(f: Vec<ValorSql>) -> bool {
    f.len() > 4 && f[2] is Texto && f[3] is Texto && f[4] is Texto
}

/// The foreign key that a row describes for table `t`: keyed by
/// `t.source_column`, pointing at the target table and column.
pub open spec fn fk_de_fila(t: Seq<char>, f: Vec<ValorSql>, k: (String, FkInfo)) -> bool {
    &&& k.0@ == t + "."@ + f[3]->Texto_0@
    &&& k.1.tabla@ == f[2]->Texto_0@
    &&& k.1.columna@ == f[4]->Texto_0@
}

/// The foreign key that a row of `PRAGMA foreign_key_list` describes for
/// table `t`, if the row reads as one.
pub fn fk_de_fila_exec(t: &str, f: &Vec<ValorSql>) -> (r: Option<(String, FkInfo)>)
    ensures
        r is Some <==> fila_de_fk(*f),
        r matches Some(k) ==> fk_de_fila(t@, *f, k),
{
    if f.len() <= 4 {
        return None;
    }
    match (como_texto(&f[2]), como_texto(&f[3]), como_texto(&f[4])) {
        (Ok(tabla), Ok(desde), Ok(columna)) => {
            let mut clave = String::from_str(t);
            clave.append(".");
            clave.append(desde.as_str());
            Some((clave, FkInfo { tabla, columna }))
        },
        _ => None,
    }
}

/// A foreign key as plain values: its key `table.source_column`, its target
/// table and its target column.
pub open spec fn vista_fk(k: (String, FkInfo)) -> (Seq<char>, Seq<char>, Seq<char>) {
    (k.0@, k.1.tabla@, k.1.columna@)
}

/// Foreign keys as plain values.
pub open spec fn vistas_fk(v: Seq<(String, FkInfo)>) -> Seq<(Seq<char>, Seq<char>, Seq<char>)> {
    Seq::new(v.len(), |i: int| vista_fk(v[i]))
}

/// The foreign keys of table `t` that the rows of its `PRAGMA
/// foreign_key_list` describe, in order (rows that do not read as a key are
/// skipped).
pub open spec fn fks_de_filas(t: Seq<char>, filas: Seq<Vec<ValorSql>>) -> Seq<(Seq<char>, Seq<char>, Seq<char>)>
    decreases filas.len(),
{
    if filas.len() == 0 {
        Seq::empty()
    } else {
        let previas = fks_de_filas(t, filas.drop_last());
        let f = filas.last();
        if fila_de_fk(f) {
            previas.push((t + "."@ + f[3]->Texto_0@, f[2]->Texto_0@, f[4]->Texto_0@))
        } else {
            previas
        }
    }
}

/// The foreign keys of the first `n` tables, table by table: for each table
/// with a plain name, those that its answer `rs[i]` lists.
pub open spec fn fks_de_tablas(tablas: Seq<String>, rs: Seq<Filas>, n: int) -> Seq<(Seq<char>, Seq<char>, Seq<char>)>
    decreases n,
{
    if n <= 0 {
        Seq::empty()
    } else {
        fks_de_tablas(tablas, rs, n - 1) + if spec_clean_identifier(tablas[n - 1]@) {
            fks_de_filas(tablas[n - 1]@, rs[n - 1].filas())
        } else {
            Seq::empty()
        }
    }
}

/// `rs[i]`, for each table `i` with a plain name among the first `n`, is
/// the answer that listing its foreign keys gave, and it could be run.
pub open spec fn fks_consultadas(tablas: Seq<String>, rs: Seq<Filas>, n: int) -> bool {
    &&& rs.len() == tablas.len()
    &&& forall|i: int|
        0 <= i < n && spec_clean_identifier(tablas[i]@) ==> (#[trigger] rs[i]).consulta() == (
            sql_foreign_key_list(tablas[i]@),
            Seq::<ParamVista>::empty(),
        ) && rs[i].ejecutada()
}

proof fn lema_fks_de_tablas_prefijo(tablas: Seq<String>, rs1: Seq<Filas>, rs2: Seq<Filas>, n: int)
    requires
        forall|k: int| 0 <= k < n ==> rs1[k] == rs2[k],
    ensures
        fks_de_tablas(tablas, rs1, n) == fks_de_tablas(tablas, rs2, n),
    decreases n,
{
    if n > 0 {
        lema_fks_de_tablas_prefijo(tablas, rs1, rs2, n - 1);
    }
}

/// `r` is what listing the foreign keys of the tables answered: the keys of
/// every table with a plain name, table by table, or the error that the
/// listing of one of them answered with.
pub open spec fn fks_respondidas(tablas: Seq<String>, r: Result<Vec<(String, FkInfo)>, ErrorBd>) -> bool {
    match r {
        Ok(v) => exists|rs: Seq<Filas>|
            #[trigger] fks_consultadas(tablas, rs, tablas.len() as int) && vistas_fk(v@) == fks_de_tablas(
                tablas,
                rs,
                tablas.len() as int,
            ),
        Err(e) => e is Sqlite && exists|i: int, f: Filas|
            0 <= i < tablas.len() && spec_clean_identifier(tablas[i]@) && #[trigger] f.consulta() == (
                sql_foreign_key_list(#[trigger] tablas[i]@),
                Seq::<ParamVista>::empty(),
            ) && !f.ejecutada() && f.error() == Some(e),
    }
}

/// The foreign keys of the tables with plain names, keyed
/// `table.source_column` (a row that does not read as a key is left out).
/// `Err` when a table's keys cannot be listed.
pub fn analizar_foreign_keys(conn: &rusqlite::Connection, tablas: &Vec<String>) -> (r: Result<
    Vec<(String, FkInfo)>,
    ErrorBd,
>)
    ensures
        fks_respondidas(tablas@, r),
        (forall|j: int| 0 <= j < tablas.len() ==> !spec_clean_identifier((#[trigger] tablas@[j])@))
            ==> (r matches Ok(v) && v.len() == 0),
{
    let mut result: Vec<(String, FkInfo)> = Vec::new();
    let ghost mut rs: Seq<Filas> = Seq::new(tablas.len() as nat, |i: int| vstd::pervasive::arbitrary());
    let mut i: usize = 0;
    while i < tablas.len()
        invariant
            i <= tablas.len(),
            fks_consultadas(tablas@, rs, i as int),
            vistas_fk(result@) == fks_de_tablas(tablas@, rs, i as int),
            (forall|j: int| 0 <= j < tablas.len() ==> !spec_clean_identifier((#[trigger] tablas@[j])@))
                ==> result.len() == 0,
        decreases tablas.len() - i,
    {
        let t = tablas[i].as_str();
        let ghost antes = vistas_fk(result@);
        let ghost rs0 = rs;
        if clean_identifier(t) {
            let sin_valores: Vec<ParamSql> = Vec::new();
            assert(vistas_params(sin_valores@) =~= Seq::<ParamVista>::empty());
            let f = match consultar(conn, texto_foreign_key_list(t).as_str(), sin_valores.as_slice()) {
                Ok(f) => f,
                Err(e) => {
                    assert(tablas@[i as int]@ == t@);
                    return Err(e);
                },
            };
            let filas = f.lista();
            let mut j: usize = 0;
            while j < filas.len()
                invariant
                    j <= filas.len(),
                    filas@ == f.filas(),
                    t@ == tablas@[i as int]@,
                    vistas_fk(result@) == antes + fks_de_filas(t@, filas@.take(j as int)),
                    (forall|j: int| 0 <= j < tablas.len() ==> !spec_clean_identifier((#[trigger] tablas@[j])@))
                        ==> result.len() == 0,
                    spec_clean_identifier(t@),
                    i < tablas.len(),
                decreases filas.len() - j,
            {
                assert(filas@.take(j + 1).drop_last() =~= filas@.take(j as int));
                let ghost r0 = result@;
                match fk_de_fila_exec(t, &filas[j]) {
                    Some(k) => {
                        result.push(k);
                        assert(vistas_fk(result@) =~= vistas_fk(r0).push(vista_fk(k)));
                    },
                    None => {},
                }
                j = j + 1;
            }
            assert(filas@.take(filas.len() as int) =~= filas@);
            proof {
                rs = rs.update(i as int, f);
            }
        }
        proof {
            lema_fks_de_tablas_prefijo(tablas@, rs0, rs, i as int);
            assert(vistas_fk(result@) =~= fks_de_tablas(tablas@, rs, i + 1));
        }
        i = i + 1;
    }
    Ok(result)
}

/// The primary-key column among the rows of `PRAGMA table_info` that read as
/// (text name, integer key flag): the first flagged one, else `rowid`.
pub open spec fn spec_pk_de_filas(filas: Seq<Vec<ValorSql>>) -> Seq<char>
    decreases filas.len(),
{
    if filas.len() == 0 {
        "rowid"@
    } else {
        let f = filas[0];
        if f.len() > 5 && f[1] is Texto && f[5] is Entero && f[5]->Entero_0 != 0 {
            f[1]->Texto_0@
        } else {
            spec_pk_de_filas(filas.drop_first())
        }
    }
}

pub fn pk_de_filas(filas: &Vec<Vec<ValorSql>>) -> (r: String)
    ensures
        r@ == spec_pk_de_filas(filas@),
{
    let mut i: usize = 0;
    assert(filas@.skip(0) =~= filas@);
    while i < filas.len()
        invariant
            i <= filas.len(),
            spec_pk_de_filas(filas@.skip(i as int)) == spec_pk_de_filas(filas@),
        decreases filas.len() - i,
    {
        assert(filas@.skip(i as int).drop_first() =~= filas@.skip(i + 1));
        let f = &filas[i];
        if f.len() > 5 {
            match (como_texto(&f[1]), como_bool(&f[5])) {
                (Ok(nombre), Ok(true)) => {
                    return nombre;
                },
                _ => {},
            }
        }
        i = i + 1;
    }
    assert(filas@.skip(i as int) =~= Seq::<Vec<ValorSql>>::empty());
    String::from_str("rowid")
}

/// `r` is what the column list of `tabla` answered as its primary key (see
/// `spec_pk_de_filas`), or the error it answered with.
pub open spec fn pk_respondida(tabla: Seq<char>, r: Result<String, ErrorBd>) -> bool {
    exists|f: Filas|
        #[trigger] f.consulta() == (sql_table_info(tabla), Seq::<ParamVista>::empty()) && match r {
            Err(e) => e is Sqlite && !f.ejecutada() && f.error() == Some(e),
            Ok(c) => f.ejecutada() && c@ == spec_pk_de_filas(f.filas()),
        }
}

/// The primary-key column of a table: the first column flagged as key,
/// else `rowid`. `Err` when the columns cannot be listed.
pub fn detectar_pk_columna(conn: &rusqlite::Connection, tabla: &str) -> (r: Result<String, ErrorBd>)
    ensures
        pk_respondida(tabla@, r),
{
    let sin_valores: Vec<ParamSql> = Vec::new();
    assert(vistas_params(sin_valores@) =~= Seq::<ParamVista>::empty());
    let f = match consultar(conn, texto_table_info(tabla).as_str(), sin_valores.as_slice()) {
        Ok(f) => f,
        Err(e) => return Err(e),
    };
    let c = pk_de_filas(f.lista());
    assert(f.consulta() == (sql_table_info(tabla@), Seq::<ParamVista>::empty()));
    Ok(c)
}

/// `pk` is the primary-key column that the column list of `tabla` answered
/// (see `spec_pk_de_filas`).
pub open spec fn pk_leida(tabla: Seq<char>, pk: Seq<char>) -> bool {
    exists|f: Filas|
        #[trigger] f.consulta() == (sql_table_info(tabla), Seq::<ParamVista>::empty()) && f.ejecutada() && pk
            == spec_pk_de_filas(f.filas())
}

/// The primary-key column that the column list of `tabla` answers, or
/// `fallback` when it could not be run.
pub open spec fn pk_o_respaldo(f: Filas, fallback: Seq<char>) -> Seq<char> {
    if f.ejecutada() {
        spec_pk_de_filas(f.filas())
    } else {
        fallback
    }
}

/// The primary-key column of a table, or `fallback` when it cannot be found.
pub fn obtener_pk_con_fallback(conn: &rusqlite::Connection, tabla: &str, fallback: &str) -> (r:
    String)
    ensures
        exists|f: Filas|
            #[trigger] f.consulta() == (sql_table_info(tabla@), Seq::<ParamVista>::empty()) && r@
                == pk_o_respaldo(f, fallback@),
{
    let a = detectar_pk_columna(conn, tabla);
    let ghost f = choose|f: Filas|
        #[trigger] f.consulta() == (sql_table_info(tabla@), Seq::<ParamVista>::empty()) && match a {
            Err(e) => e is Sqlite && !f.ejecutada() && f.error() == Some(e),
            Ok(c) => f.ejecutada() && c@ == spec_pk_de_filas(f.filas()),
        };
    let r = match a {
        Ok(c) => c,
        Err(_) => String::from_str(fallback),
    };
    assert(r@ == pk_o_respaldo(f, fallback@));
    r
}

} // verus!
