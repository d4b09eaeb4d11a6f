//! Exploring a database: the main view or table, how each of its columns
//! can be filtered and which columns depend on others; and whether a table
//! is better read joined with its catalogues.

use vstd::prelude::*;
use crate::db::analysis::{
    analizar_columna, detectar_columna_nombre, detectar_dependencias, forma_de_info, dependencias_respondidas,
    columna_respondida, info_de_columna, nombre_respondido, spec_columna_nombre,
};
use crate::db::constants::{self, AnalyseConfig};
use crate::db::schema::{
    analizar_foreign_keys, detectar_pk_columna, encontrar_tabla_principal,
    columnas_respondidas_de, encontrar_vista_principal, listar_tablas, obtener_columnas,
    pk_leida, spec_elegir_vista, sql_table_info, nombres_respondidos, vista_respondida, tabla_respondida, fks_respondidas, SQL_TABLAS,
};
use crate::db::sqlite::{ErrorBd, Filas, ParamVista, ValorSql};
use crate::db::constants::vistas;
use crate::db::schema::spec_textos_columna;
use crate::db::types::{
    vista_opcional, ColumnaInfo, ColumnaRaw, DependenciaInfo, FKOptimizada, FkInfo, ModoOptimizacion, SchemaMetadata,
};
use crate::db::utils::{spec_clean_identifier, spec_strip_prefix, strip_fk_prefix};
use crate::texto::{
    chars_de, contiene, contiene_exec, empieza_con, empieza_con_exec, minusculas, minusculas_de,
    texto_de,
};

verus! {

/// How many columns get a catalogue or categorical filter.
pub open spec fn cuenta_categoricas(cols: Seq<ColumnaInfo>) -> nat
    decreases cols.len(),
{
    if cols.len() == 0 {
        0
    } else {
        cuenta_categoricas(cols.drop_last()) + (if cols.last().tipo@ == "categorical"@
            || cols.last().tipo@ == "categorical_fk"@ {
            1nat
        } else {
            0nat
        })
    }
}

fn contar_categoricas(cols: &Vec<ColumnaInfo>) -> (r: usize)
    ensures
        r == cuenta_categoricas(cols@),
{
    let mut n: usize = 0;
    let mut i: usize = 0;
    while i < cols.len()
        invariant
            i <= cols.len(),
            n == cuenta_categoricas(cols@.take(i as int)),
            n <= i,
        decreases cols.len() - i,
    {
        assert(cols@.take(i + 1).drop_last() =~= cols@.take(i as int));
        if cols[i].tipo == String::from_str("categorical") || cols[i].tipo == String::from_str(
            "categorical_fk",
        ) {
            n = n + 1;
        }
        i = i + 1;
    }
    assert(cols@.take(cols.len() as int) =~= cols@);
    n
}

/// The filter of a non-key column of `tabla`, as `analizar_columna` decides
/// it with the foreign keys `fks`.
pub open spec fn columna_de_vista(
    tabla: Seq<char>,
    ac: AnalyseConfig,
    fks: Seq<(String, FkInfo)>,
    info: ColumnaInfo,
) -> bool {
    exists|c: ColumnaRaw| !c.pk && #[trigger] info_de_columna(tabla, c, fks, ac, info)
}

/// Every filter is that of a non-key column of `tabla`, all decided with the
/// same foreign keys.
pub open spec fn columnas_de_vista(tabla: Seq<char>, ac: AnalyseConfig, cols: Seq<ColumnaInfo>) -> bool {
    exists|fks: Seq<(String, FkInfo)>| #[trigger] todas_de_vista(tabla, ac, fks, cols)
}

/// Every filter is that of a non-key column of `tabla` under the foreign
/// keys `fks`.
pub open spec fn todas_de_vista(
    tabla: Seq<char>,
    ac: AnalyseConfig,
    fks: Seq<(String, FkInfo)>,
    cols: Seq<ColumnaInfo>,
) -> bool {
    forall|k: int| 0 <= k < cols.len() ==> #[trigger] columna_de_vista(tabla, ac, fks, cols[k])
}

/// `cols` are, in order, the filters of some of the non-key columns `raw`
/// of `tabla`, each from a different column, as `analizar_columna` decides
/// them with the foreign keys `fks`: filter `k` is that of column `idx[k]`.
pub open spec fn columnas_en_orden(
    tabla: Seq<char>,
    ac: AnalyseConfig,
    fks: Seq<(String, FkInfo)>,
    raw: Seq<ColumnaRaw>,
    cols: Seq<ColumnaInfo>,
    idx: Seq<int>,
) -> bool {
    &&& idx.len() == cols.len()
    &&& forall|k: int|
        0 <= k < idx.len() ==> 0 <= #[trigger] idx[k] < raw.len() && !raw[idx[k]].pk
            && info_de_columna(tabla, raw[idx[k]], fks, ac, cols[k])
    &&& forall|k: int, l: int| 0 <= k < l < idx.len() ==> #[trigger] idx[k] < #[trigger] idx[l]
}

/// The filters that were found, in order.
pub open spec fn filtros_hallados(infos: Seq<Option<ColumnaInfo>>) -> Seq<ColumnaInfo>
    decreases infos.len(),
{
    if infos.len() == 0 {
        Seq::empty()
    } else {
        let r = filtros_hallados(infos.drop_last());
        match infos.last() {
            Some(c) => r.push(c),
            None => r,
        }
    }
}

/// `infos[k]` is what the queries of column `raw[k]` of `tabla` answered
/// (see `columna_respondida`), none for a key column.
pub open spec fn columnas_respondidas(
    tabla: Seq<char>,
    ac: AnalyseConfig,
    fks: Seq<(String, FkInfo)>,
    raw: Seq<ColumnaRaw>,
    infos: Seq<Option<ColumnaInfo>>,
) -> bool {
    &&& infos.len() == raw.len()
    &&& forall|k: int|
        0 <= k < raw.len() ==> if (#[trigger] raw[k]).pk {
            infos[k] is None
        } else {
            columna_respondida(tabla, raw[k], fks, ac, Ok(infos[k]))
        }
}

/// The view explored: the main view found, else the main table found, else
/// none (the empty name).
pub open spec fn vista_o_tabla(v: Option<String>, t: Option<String>) -> Seq<char> {
    match v {
        Some(x) => x@,
        None => match t {
            Some(y) => y@,
            None => Seq::empty(),
        },
    }
}

/// The view explored, as `vista_o_tabla` says.
pub fn vista_elegida(v: &Option<String>, t: &Option<String>) -> (r: String)
    ensures
        r@ == vista_o_tabla(*v, *t),
{
    match v {
        Some(x) => x.clone(),
        None => match t {
            Some(y) => y.clone(),
            None => String::new(),
        },
    }
}

/// What the exploration of a database finds:
/// - `tablas`: the tables, by name;
/// - `vista_principal`: the main view (by its keywords), else the main
///   table, else nothing; with nothing, no columns and no dependencies;
/// - `columnas`: the filter of each non-key column of the main view that
///   gets one, in the order in which `PRAGMA table_info` lists the columns
///   (see `analizar_columna`);
/// - `dependencias`: among the categorical columns, when at least two
///   columns get a categorical or catalogue filter (see
///   `detectar_dependencias`).
/// `Err` when a query that the exploration needs fails.
#[verifier::spinoff_prover]
pub fn explorar(conn: &rusqlite::Connection, ac: &AnalyseConfig) -> (r: Result<
    SchemaMetadata,
    ErrorBd,
>)
    ensures
        r matches Ok(m) ==> {
            &&& nombres_respondidos(SQL_TABLAS@, Ok::<Vec<String>, ErrorBd>(m.tablas))
            &&& exists|vo: Option<String>, to: Option<String>|
                #[trigger] vista_o_tabla(vo, to) == m.vista_principal@ && vista_respondida(
                    vistas(ac.view_keywords@),
                    Ok::<Option<String>, ErrorBd>(vo),
                ) && (vo is Some ==> to is None) && (vo is None ==> tabla_respondida(m.tablas@, to))
            &&& m.vista_principal@.len() == 0 ==> m.columnas.len() == 0 && m.dependencias.len() == 0
            &&& m.vista_principal@.len() > 0 ==> exists|
                raw: Vec<ColumnaRaw>,
                fks: Vec<(String, FkInfo)>,
                infos: Seq<Option<ColumnaInfo>>,
                idx: Seq<int>,
            |
                #![trigger columnas_respondidas(m.vista_principal@, *ac, fks@, raw@, infos), columnas_en_orden(m.vista_principal@, *ac, fks@, raw@, m.columnas@, idx)]
                columnas_respondidas(m.vista_principal@, *ac, fks@, raw@, infos)
                    && columnas_respondidas_de(m.vista_principal@, Ok::<Vec<ColumnaRaw>, ErrorBd>(raw))
                    && fks_respondidas(m.tablas@, Ok::<Vec<(String, FkInfo)>, ErrorBd>(fks))
                    && m.columnas@ == filtros_hallados(infos)
                    && columnas_en_orden(m.vista_principal@, *ac, fks@, raw@, m.columnas@, idx)
                    && (cuenta_categoricas(m.columnas@) >= 2 ==> dependencias_respondidas(
                    m.columnas@,
                    fks@,
                    Ok::<Vec<DependenciaInfo>, ErrorBd>(m.dependencias),
                ))
            &&& columnas_de_vista(m.vista_principal@, *ac, m.columnas@)
            &&& forall|k: int| 0 <= k < m.columnas.len() ==> forma_de_info(#[trigger] m.columnas@[k])
            &&& cuenta_categoricas(m.columnas@) < 2 ==> m.dependencias.len() == 0
            &&& forall|k: int|
                0 <= k < m.dependencias.len() ==> {
                    &&& (#[trigger] m.dependencias@[k]).mapeo.len() > 0
                    &&& exists|i: int|
                        0 <= i < m.columnas.len() && m.columnas@[i].tipo@ == "categorical"@
                            && m.columnas@[i].nombre@ == m.dependencias@[k].columna_padre@
                    &&& exists|i: int|
                        0 <= i < m.columnas.len() && m.columnas@[i].tipo@ == "categorical"@
                            && m.columnas@[i].nombre@ == m.dependencias@[k].columna_dependiente@
                }
        },
{
    let tablas = match listar_tablas(conn) {
        Ok(t) => t,
        Err(e) => return Err(e),
    };
    let vo = match encontrar_vista_principal(conn, &ac.view_keywords) {
        Ok(v) => v,
        Err(e) => return Err(e),
    };
    let to = match vo {
        Some(_) => None,
        None => encontrar_tabla_principal(conn, &tablas),
    };
    let vista = vista_elegida(&vo, &to);
    assert(vista_o_tabla(vo, to) == vista@);
    if vista.unicode_len() == 0 {
        assert(todas_de_vista(Seq::empty(), *ac, Seq::empty(), Seq::<ColumnaInfo>::empty()));
        return Ok(
            SchemaMetadata {
                vista_principal: String::new(),
                tablas,
                columnas: Vec::new(),
                dependencias: Vec::new(),
            },
        );
    }
    let columnas_raw = match obtener_columnas(conn, vista.as_str()) {
        Ok(c) => c,
        Err(e) => return Err(e),
    };
    let fk_pairs = match analizar_foreign_keys(conn, &tablas) {
        Ok(f) => f,
        Err(e) => return Err(e),
    };
    let mut columnas: Vec<ColumnaInfo> = Vec::new();
    let ghost mut idx: Seq<int> = Seq::empty();
    let ghost mut infos: Seq<Option<ColumnaInfo>> = Seq::empty();
    let mut i: usize = 0;
    while i < columnas_raw.len()
        invariant
            i <= columnas_raw.len(),
            infos.len() == i,
            columnas@ == filtros_hallados(infos),
            forall|k: int|
                0 <= k < i ==> if (#[trigger] columnas_raw@[k]).pk {
                    infos[k] is None
                } else {
                    columna_respondida(vista@, columnas_raw@[k], fk_pairs@, *ac, Ok(infos[k]))
                },
            columnas_en_orden(vista@, *ac, fk_pairs@, columnas_raw@, columnas@, idx),
            forall|k: int| 0 <= k < idx.len() ==> #[trigger] idx[k] < i,
            forall|k: int| 0 <= k < columnas.len() ==> forma_de_info(#[trigger] columnas@[k]),
            forall|k: int|
                0 <= k < columnas.len() ==> #[trigger] columna_de_vista(
                    vista@,
                    *ac,
                    fk_pairs@,
                    columnas@[k],
                ),
        decreases columnas_raw.len() - i,
    {
        let col = &columnas_raw[i];
        let ghost infos0 = infos;
        let ghost mut hallado: Option<ColumnaInfo> = None;
        if !col.pk {
            let ra = analizar_columna(conn, vista.as_str(), col, &fk_pairs, ac);
            let oa = match ra {
                Ok(o) => o,
                Err(e) => return Err(e),
            };
            proof {
                hallado = oa;
            }
            match oa {
                Some(info) => {
                    assert(columna_de_vista(vista@, *ac, fk_pairs@, info));
                    let ghost antes = columnas@;
                    let ghost idx0 = idx;
                    columnas.push(info);
                    proof {
                        idx = idx.push(i as int);
                        assert forall|k: int| 0 <= k < idx.len() implies 0 <= #[trigger] idx[k] < columnas_raw@.len()
                            && !columnas_raw@[idx[k]].pk && info_de_columna(
                            vista@,
                            columnas_raw@[idx[k]],
                            fk_pairs@,
                            *ac,
                            columnas@[k],
                        ) by {
                            if k < idx0.len() {
                                assert(columnas@[k] == antes[k]);
                                assert(idx[k] == idx0[k]);
                            }
                        }
                        assert forall|k: int, l: int| 0 <= k < l < idx.len() implies #[trigger] idx[k] < #[trigger] idx[l] by {
                            if l < idx0.len() {
                                assert(idx[k] == idx0[k] && idx[l] == idx0[l]);
                            } else {
                                assert(idx[k] == idx0[k]);
                            }
                        }
                    }
                },
                None => {},
            }
        }
        proof {
            infos = infos.push(hallado);
            assert(infos.drop_last() =~= infos0);
            assert forall|k: int|
                0 <= k < i + 1 implies if (#[trigger] columnas_raw@[k]).pk {
                    infos[k] is None
                } else {
                    columna_respondida(vista@, columnas_raw@[k], fk_pairs@, *ac, Ok(infos[k]))
                } by {
                if k < i {
                    assert(infos[k] == infos0[k]);
                }
            }
        }
        i = i + 1;
    }
    assert(columnas_respondidas(vista@, *ac, fk_pairs@, columnas_raw@, infos));
    assert(todas_de_vista(vista@, *ac, fk_pairs@, columnas@));
    let dependencias = if contar_categoricas(&columnas) >= 2 {
        match detectar_dependencias(conn, &columnas, &fk_pairs) {
            Ok(d) => d,
            Err(e) => return Err(e),
        }
    } else {
        Vec::new()
    };
    let m = SchemaMetadata { vista_principal: vista, tablas, columnas, dependencias };
    assert(forall|k: int| 0 <= k < m.columnas.len() ==> forma_de_info(#[trigger] m.columnas@[k]));
    assert(cuenta_categoricas(m.columnas@) < 2 ==> m.dependencias.len() == 0);
    assert(columnas_respondidas(m.vista_principal@, *ac, fk_pairs@, columnas_raw@, infos) && m.columnas@
        == filtros_hallados(infos));
    assert(vista_o_tabla(vo, to) == m.vista_principal@);
    assert(columnas_en_orden(m.vista_principal@, *ac, fk_pairs@, columnas_raw@, m.columnas@, idx));
    Ok(m)
}

// ── reading a table joined with its catalogues ─────────────────────────────

/// A name that is read as it is: empty, containing (in lower case) one of
/// the view keywords, or (in lower case) a catalogue's name.
pub open spec fn lectura_directa(vista: Seq<char>, ac: AnalyseConfig) -> bool {
    let vl = minusculas_de(vista);
    ||| vista.len() == 0
    ||| exists|i: int| 0 <= i < ac.view_keywords.len() && contiene(vl, #[trigger] ac.view_keywords@[i]@)
    ||| empieza_con(vl, ac.catalog_prefix@)
}

/// What follows the last `.` of a text, or the whole text without one.
pub open spec fn spec_ultimo_segmento(s: Seq<char>) -> Seq<char>
    decreases s.len(),
{
    if s.len() == 0 {
        s
    } else if s.last() == '.' {
        Seq::empty()
    } else {
        spec_ultimo_segmento(s.drop_last()).push(s.last())
    }
}

pub fn ultimo_segmento(s: &str) -> (r: String)
    ensures
        r@ == spec_ultimo_segmento(s@),
{
    let cs = chars_de(s);
    let mut inicio: usize = 0;
    let mut i: usize = 0;
    while i < cs.len()
        invariant
            cs@ == s@,
            inicio <= i <= cs.len(),
            cs@.subrange(inicio as int, i as int) == spec_ultimo_segmento(s@.take(i as int)),
        decreases cs.len() - i,
    {
        assert(s@.take(i + 1).drop_last() =~= s@.take(i as int));
        if cs[i] == '.' {
            inicio = i + 1;
            assert(cs@.subrange(inicio as int, i + 1) =~= Seq::<char>::empty());
        } else {
            assert(cs@.subrange(inicio as int, i + 1) =~= cs@.subrange(inicio as int, i as int).push(
                cs@[i as int],
            ));
        }
        i = i + 1;
    }
    assert(s@.take(cs.len() as int) =~= s@);
    let mut seg: Vec<char> = Vec::new();
    let mut j: usize = inicio;
    while j < cs.len()
        invariant
            inicio <= j <= cs.len(),
            seg@ == cs@.subrange(inicio as int, j as int),
        decreases cs.len() - j,
    {
        seg.push(cs[j]);
        assert(seg@ =~= cs@.subrange(inicio as int, j + 1));
        j = j + 1;
    }
    texto_de(seg)
}

/// A foreign key of table `tb` to a catalogue: its key starts with `tb.`
/// and its target table, in lower case, with the catalogue prefix.
pub open spec fn fk_de_catalogo(par: (String, FkInfo), tb: Seq<char>, prefijo: Seq<char>) -> bool {
    empieza_con(par.0@, tb + "."@) && empieza_con(minusculas_de(par.1.tabla@), prefijo)
}

/// The positions of those foreign keys, in order.
pub open spec fn indices_catalogo(pares: Seq<(String, FkInfo)>, tb: Seq<char>, prefijo: Seq<char>) -> Seq<int>
    decreases pares.len(),
{
    if pares.len() == 0 {
        Seq::empty()
    } else {
        let r = indices_catalogo(pares.drop_last(), tb, prefijo);
        if fk_de_catalogo(pares.last(), tb, prefijo) {
            r.push(pares.len() - 1)
        } else {
            r
        }
    }
}

/// The positions of the foreign keys of table `tb` to catalogues.
pub fn fks_de_catalogo(fk_pairs: &Vec<(String, FkInfo)>, tb: &str, prefijo: &str) -> (r: Vec<usize>)
    ensures
        r@.len() == indices_catalogo(fk_pairs@, tb@, prefijo@).len(),
        forall|k: int|
            0 <= k < r.len() ==> (#[trigger] r@[k]) as int == indices_catalogo(
                fk_pairs@,
                tb@,
                prefijo@,
            )[k] && r@[k] < fk_pairs.len(),
{
    let mut pre = String::from_str(tb);
    pre.append(".");
    let vpre = chars_de(pre.as_str());
    let vprefijo = chars_de(prefijo);
    let mut r: Vec<usize> = Vec::new();
    let mut i: usize = 0;
    while i < fk_pairs.len()
        invariant
            i <= fk_pairs.len(),
            vpre@ == tb@ + "."@,
            vprefijo@ == prefijo@,
            r@.len() == indices_catalogo(fk_pairs@.take(i as int), tb@, prefijo@).len(),
            forall|k: int|
                0 <= k < r.len() ==> (#[trigger] r@[k]) as int == indices_catalogo(
                    fk_pairs@.take(i as int),
                    tb@,
                    prefijo@,
                )[k] && r@[k] < i,
        decreases fk_pairs.len() - i,
    {
        assert(fk_pairs@.take(i + 1).drop_last() =~= fk_pairs@.take(i as int));
        assert(fk_pairs@.take(i + 1).last() == fk_pairs@[i as int]);
        let clave = chars_de(fk_pairs[i].0.as_str());
        let destino = chars_de(minusculas(fk_pairs[i].1.tabla.as_str()).as_str());
        if empieza_con_exec(&clave, &vpre) && empieza_con_exec(&destino, &vprefijo) {
            r.push(i);
        }
        i = i + 1;
    }
    assert(fk_pairs@.take(fk_pairs.len() as int) =~= fk_pairs@);
    r
}

fn lectura_directa_exec(vista: &str, ac: &AnalyseConfig) -> (r: bool)
    ensures
        r == lectura_directa(vista@, *ac),
{
    let vl = chars_de(minusculas(vista).as_str());
    if vista.unicode_len() == 0 {
        return true;
    }
    let mut i: usize = 0;
    while i < ac.view_keywords.len()
        invariant
            i <= ac.view_keywords.len(),
            vl@ == minusculas_de(vista@),
            forall|j: int|
                0 <= j < i ==> !contiene(vl@, #[trigger] ac.view_keywords@[j]@),
        decreases ac.view_keywords.len() - i,
    {
        let kw = chars_de(ac.view_keywords[i].as_str());
        if contiene_exec(&vl, &kw) {
            return true;
        }
        i = i + 1;
    }
    let p = chars_de(ac.catalog_prefix.as_str());
    empieza_con_exec(&vl, &p)
}

/// A catalogue join of base table `tb`: its key column is what follows the
/// last `.` of a key of `tb`, its catalogue (in lower case) has the catalogue
/// prefix, it is shown under the key column's name without the key prefix,
/// and it is joined on the catalogue's primary key (or `rowid`).
pub open spec fn fk_optimizada_de(tb: Seq<char>, ac: AnalyseConfig, fk: FKOptimizada) -> bool {
    &&& exists|clave: Seq<char>|
        empieza_con(clave, tb + "."@) && fk.col_id@ == #[trigger] spec_ultimo_segmento(clave)
    &&& empieza_con(minusculas_de(fk.tabla_catalogo@), ac.catalog_prefix@)
    &&& fk.nombre_display@ == spec_strip_prefix(fk.col_id@, ac.fk_id_prefix@)
    &&& pk_leida(fk.tabla_catalogo@, fk.pk_col@)
    &&& nombre_leido(fk.tabla_catalogo@, ac, fk.col_nombre@)
}

/// `cn` is the naming column that the column list of catalogue `tabla`
/// answered (see `spec_columna_nombre`).
pub open spec fn nombre_leido(tabla: Seq<char>, ac: AnalyseConfig, cn: Seq<char>) -> bool {
    exists|f: Filas|
        #[trigger] f.consulta() == (sql_table_info(tabla), Seq::<ParamVista>::empty()) && f.ejecutada()
            && spec_columna_nombre(spec_textos_columna(f.filas(), 1), ac) == Some(cn)
}

/// `m` is how the dashboard reads a table with base table `tb` whose schema
/// lists the foreign keys `pares`: joined when at least
/// `MIN_FK_COUNT_FOR_OPTIMIZATION` of them are keys of `tb` to catalogues,
/// with at most one join for each of them; else as it is.
pub open spec fn patron_leido(tb: Seq<char>, pares: Seq<(String, FkInfo)>, ac: AnalyseConfig, m: ModoOptimizacion) -> bool {
    let n = indices_catalogo(pares, tb, ac.catalog_prefix@).len();
    &&& (m is VistaConFKs <==> n >= constants::MIN_FK_COUNT_FOR_OPTIMIZATION)
    &&& m matches ModoOptimizacion::VistaConFKs { tabla_base, fks } ==> {
        &&& tabla_base@ == tb
        &&& fks.len() <= n
        &&& forall|k: int| 0 <= k < fks.len() ==> #[trigger] join_de_catalogo(pares, tb, ac.catalog_prefix@, fks@[k], n as int)
    }
}

/// `fk` joins the catalogue of one of the first `n` foreign keys of `tb` to
/// catalogues among `pares`.
pub open spec fn join_de_catalogo(
    pares: Seq<(String, FkInfo)>,
    tb: Seq<char>,
    prefijo: Seq<char>,
    fk: FKOptimizada,
    n: int,
) -> bool {
    exists|i: int|
        0 <= i < n && fk.tabla_catalogo@ == pares[#[trigger] indices_catalogo(pares, tb, prefijo)[i]].1.tabla@
}

/// The base table: the main table found, else the view itself.
pub open spec fn tabla_o_vista(tp: Option<String>, vista: Seq<char>) -> Seq<char> {
    match tp {
        Some(t) => t@,
        None => vista,
    }
}

/// `r` is how the dashboard reads `vista` (see `detectar_patron_optimizable`)
/// as the queries that decide it answered: as it is when `lectura_directa`
/// holds; otherwise the pattern that the foreign keys listed for the tables
/// listed give, with the main table found (else `vista`) as base table.
pub open spec fn patron_respondido(vista: Seq<char>, ac: AnalyseConfig, r: Result<ModoOptimizacion, ErrorBd>) -> bool {
    &&& lectura_directa(vista, ac) ==> (r matches Ok(ModoOptimizacion::Universal))
    &&& r is Err ==> !lectura_directa(vista, ac)
    &&& !lectura_directa(vista, ac) ==> (r matches Ok(m) ==> exists|
        tablas: Vec<String>,
        tp: Option<String>,
        pares: Vec<(String, FkInfo)>,
    |
        #![trigger patron_leido(tabla_o_vista(tp, vista), pares@, ac, m), tabla_respondida(tablas@, tp)]
        patron_leido(tabla_o_vista(tp, vista), pares@, ac, m) && nombres_respondidos(
            SQL_TABLAS@,
            Ok::<Vec<String>, ErrorBd>(tablas),
        ) && tabla_respondida(tablas@, tp) && fks_respondidas(
            tablas@,
            Ok::<Vec<(String, FkInfo)>, ErrorBd>(pares),
        ))
    &&& (r matches Ok(ModoOptimizacion::VistaConFKs { tabla_base, fks }) ==> {
        &&& !lectura_directa(vista, ac)
        &&& tabla_base@ == vista || spec_clean_identifier(tabla_base@)
        &&& forall|k: int| 0 <= k < fks.len() ==> fk_optimizada_de(tabla_base@, ac, #[trigger] fks@[k])
    })
}

/// How the dashboard reads `vista`:
/// - as it is (`Universal`) when `lectura_directa` holds of it;
/// - otherwise the base table is the main table (else `vista`); with fewer
///   than three foreign keys of it to catalogues, as it is;
/// - otherwise the base table joined with each such catalogue that has a
///   naming column, shown under the key column's name without the key
///   prefix.
/// `Err` when a query that the decision needs fails.
pub fn detectar_patron_optimizable(
    conn: &rusqlite::Connection,
    vista: &str,
    ac: &AnalyseConfig,
) -> (r: Result<ModoOptimizacion, ErrorBd>)
    ensures
        patron_respondido(vista@, *ac, r),
{
    if lectura_directa_exec(vista, ac) {
        return Ok(ModoOptimizacion::Universal);
    }
    let tablas = match listar_tablas(conn) {
        Ok(t) => t,
        Err(e) => return Err(e),
    };
    let tp = encontrar_tabla_principal(conn, &tablas);
    let ghost gtp = tp;
    let tabla_base = match tp {
        Some(t) => t,
        None => String::from_str(vista),
    };
    assert(tabla_base@ == tabla_o_vista(gtp, vista@));
    let fk_pairs = match analizar_foreign_keys(conn, &tablas) {
        Ok(f) => f,
        Err(e) => return Err(e),
    };
    let cat_fks = fks_de_catalogo(&fk_pairs, tabla_base.as_str(), ac.catalog_prefix.as_str());
    if cat_fks.len() < constants::MIN_FK_COUNT_FOR_OPTIMIZATION {
        assert(patron_leido(tabla_base@, fk_pairs@, *ac, ModoOptimizacion::Universal));
        assert(patron_leido(tabla_o_vista(gtp, vista@), fk_pairs@, *ac, ModoOptimizacion::Universal)
            && nombres_respondidos(SQL_TABLAS@, Ok::<Vec<String>, ErrorBd>(tablas))
            && tabla_respondida(tablas@, gtp) && fks_respondidas(tablas@, Ok::<Vec<(String, FkInfo)>, ErrorBd>(fk_pairs)));
        return Ok(ModoOptimizacion::Universal);
    }
    let mut fks: Vec<FKOptimizada> = Vec::new();
    let mut i: usize = 0;
    while i < cat_fks.len()
        invariant
            i <= cat_fks.len(),
            !lectura_directa(vista@, *ac),
            cat_fks@.len() == indices_catalogo(fk_pairs@, tabla_base@, ac.catalog_prefix@).len(),
            forall|k: int|
                0 <= k < cat_fks.len() ==> (#[trigger] cat_fks@[k]) as int == indices_catalogo(
                    fk_pairs@,
                    tabla_base@,
                    ac.catalog_prefix@,
                )[k] && cat_fks@[k] < fk_pairs.len(),
            forall|k: int| 0 <= k < fks.len() ==> fk_optimizada_de(tabla_base@, *ac, #[trigger] fks@[k]),
            tabla_base@ == vista@ || spec_clean_identifier(tabla_base@),
            fks.len() <= i,
            cat_fks.len() >= constants::MIN_FK_COUNT_FOR_OPTIMIZATION,
            forall|k: int|
                0 <= k < fks.len() ==> #[trigger] join_de_catalogo(fk_pairs@, tabla_base@, ac.catalog_prefix@, fks@[k], i as int),
        decreases cat_fks.len() - i,
    {
        let j = cat_fks[i];
        proof {
            lema_indices_catalogo(fk_pairs@, tabla_base@, ac.catalog_prefix@, i as int);
        }
        let (clave, fk_info) = (&fk_pairs[j].0, &fk_pairs[j].1);
        let col_id = ultimo_segmento(clave.as_str());
        let an = detectar_columna_nombre(conn, fk_info.tabla.as_str(), ac);
        let ghost gn = an;
        let nombre = match an {
            Ok(o) => o,
            Err(e) => return Err(e),
        };
        match nombre {
            Some(col_nombre) => {
                proof {
                    let f = choose|f: Filas|
                        #[trigger] f.consulta() == (sql_table_info(fk_info.tabla@), Seq::<ParamVista>::empty()) && (gn matches Ok(o)
                            && vista_opcional(o) == spec_columna_nombre(spec_textos_columna(f.filas(), 1), *ac));
                    assert(spec_columna_nombre(spec_textos_columna(f.filas(), 1), *ac) == Some(col_nombre@));
                    assert(nombre_leido(fk_info.tabla@, *ac, col_nombre@));
                }
                let nombre_display = strip_fk_prefix(col_id.as_str(), ac.fk_id_prefix.as_str());
                let pk_col = match detectar_pk_columna(conn, fk_info.tabla.as_str()) {
                    Ok(c) => c,
                    Err(e) => return Err(e),
                };
                let ghost antes = fks@;
                let nueva = FKOptimizada {
                    col_id,
                    tabla_catalogo: fk_info.tabla.clone(),
                    col_nombre,
                    nombre_display,
                    pk_col,
                };
                assert(nueva.tabla_catalogo@ == fk_pairs@[indices_catalogo(fk_pairs@, tabla_base@, ac.catalog_prefix@)[i as int]].1.tabla@);
                fks.push(nueva);
                proof {
                    assert forall|k: int| 0 <= k < fks.len() implies #[trigger] join_de_catalogo(
                        fk_pairs@,
                        tabla_base@,
                        ac.catalog_prefix@,
                        fks@[k],
                        i + 1,
                    ) by {
                        if k < antes.len() {
                            assert(fks@[k] == antes[k]);
                            assert(join_de_catalogo(fk_pairs@, tabla_base@, ac.catalog_prefix@, antes[k], i as int));
                            let x = choose|x: int|
                                0 <= x < i && antes[k].tabla_catalogo@ == fk_pairs@[#[trigger] indices_catalogo(
                                    fk_pairs@,
                                    tabla_base@,
                                    ac.catalog_prefix@,
                                )[x]].1.tabla@;
                            assert(0 <= x < i + 1);
                        } else {
                            assert(fks@[k] == nueva);
                            assert(0 <= i < i + 1);
                        }
                    }
                    assert forall|k: int| 0 <= k < fks.len() implies fk_optimizada_de(tabla_base@, *ac, #[trigger] fks@[k]) by {
                        if k < antes.len() {
                            assert(fks@[k] == antes[k]);
                        }
                    }
                }
            },
            None => {
                proof {
                    assert forall|k: int| 0 <= k < fks.len() implies #[trigger] join_de_catalogo(
                        fk_pairs@,
                        tabla_base@,
                        ac.catalog_prefix@,
                        fks@[k],
                        i + 1,
                    ) by {
                        assert(join_de_catalogo(fk_pairs@, tabla_base@, ac.catalog_prefix@, fks@[k], i as int));
                        let x = choose|x: int|
                            0 <= x < i && fks@[k].tabla_catalogo@ == fk_pairs@[#[trigger] indices_catalogo(
                                fk_pairs@,
                                tabla_base@,
                                ac.catalog_prefix@,
                            )[x]].1.tabla@;
                        assert(0 <= x < i + 1);
                    }
                }
            },
        }
        i = i + 1;
    }
    let ghost tb = tabla_base@;
    assert(i == cat_fks.len());
    let m = ModoOptimizacion::VistaConFKs { tabla_base, fks };
    assert(patron_leido(tb, fk_pairs@, *ac, m));
    assert(patron_leido(tabla_o_vista(gtp, vista@), fk_pairs@, *ac, m)
        && nombres_respondidos(SQL_TABLAS@, Ok::<Vec<String>, ErrorBd>(tablas))
        && tabla_respondida(tablas@, gtp) && fks_respondidas(tablas@, Ok::<Vec<(String, FkInfo)>, ErrorBd>(fk_pairs)));
    Ok(m)
}

/// Every position that `indices_catalogo` lists holds such a foreign key.
proof fn lema_indices_catalogo(pares: Seq<(String, FkInfo)>, tb: Seq<char>, prefijo: Seq<char>, k: int)
    requires
        0 <= k < indices_catalogo(pares, tb, prefijo).len(),
    ensures
        0 <= indices_catalogo(pares, tb, prefijo)[k] < pares.len(),
        fk_de_catalogo(pares[indices_catalogo(pares, tb, prefijo)[k]], tb, prefijo),
    decreases pares.len(),
{
    let r = indices_catalogo(pares.drop_last(), tb, prefijo);
    if k < r.len() {
        lema_indices_catalogo(pares.drop_last(), tb, prefijo, k);
    }
}

} // verus!
