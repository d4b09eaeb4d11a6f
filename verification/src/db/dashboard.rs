//! The filtered dashboard: the `WHERE` clause that the filters make, the
//! queries for the counts, the groups and the page of the table, and how
//! their rows become a [`DashboardData`].

use vstd::prelude::*;
use crate::db::constants;
use crate::db::schema::{
    columnas_respondidas_de, nombres_columnas, obtener_columnas, obtener_pk_con_fallback, pk_o_respaldo,
    spec_pk_de_filas, sql_table_info,
};
use crate::db::sqlite::{
    consultar, consultar_fila, fila_respondida, primera_de, texto_celda, Filas, texto_de_celda, ErrorBd, ParamSql, ParamVista, Real, ValorSql, vistas_params,
};
use crate::db::types::{ColumnaRaw, DashboardData, FKOptimizada, FiltroValor, ModoOptimizacion};
use crate::db::utils::{
    clean_identifier, lema_safe_ident_sin_caracter, safe_ident, spec_clean_identifier, spec_safe_ident,
};
use crate::texto::{decimal, mayusculas, mayusculas_de, texto_decimal, unir, unir_textos, vista_textos};

verus! {

// ── the WHERE clause ───────────────────────────────────────────────────────

/// The qualifier of the table's columns: `tb.` when the base table is
/// joined with its catalogues, nothing otherwise.
pub open spec fn spec_col_prefix(modo: Option<&ModoOptimizacion>) -> Seq<char> {
    match modo {
        Some(m) => if m is VistaConFKs {
            "tb."@
        } else {
            ""@
        },
        None => ""@,
    }
}

pub fn col_prefix(modo: Option<&ModoOptimizacion>) -> (r: &'static str)
    ensures
        r@ == spec_col_prefix(modo),
{
    match modo {
        Some(m) => if m.es_universal() {
            ""
        } else {
            "tb."
        },
        None => "",
    }
}

/// A selection filters: it is not empty and not the "all" choice.
pub open spec fn seleccion_activa(s: Seq<char>) -> bool {
    s.len() > 0 && s != constants::FILTRO_TODOS@
}

/// The conditions, each with the value of its `?`, that one filter of column
/// `nombre` adds; `p` qualifies columns, `pk` is the key column of the
/// catalogue of a catalogue filter.
pub open spec fn clausulas_filtro(
    p: Seq<char>,
    nombre: Seq<char>,
    f: FiltroValor,
    pk: Seq<char>,
) -> Seq<(Seq<char>, ParamVista)> {
    let sc = p + spec_safe_ident(nombre);
    match f {
        FiltroValor::Categorical { selected } => clausulas_categoricas(sc, selected@),
        FiltroValor::CategoricalFK { selected, col_original, tabla_catalogo, col_nombre } =>
            clausulas_catalogo(p, col_original@, tabla_catalogo@, col_nombre@, selected@, pk),
        FiltroValor::Date { desde, hasta } => clausulas_fecha(sc, desde@, hasta@),
        FiltroValor::Numeric { min, max, .. } => clausulas_rango(sc, min, max),
        FiltroValor::TextSearch { query } => clausulas_busqueda(sc, query@),
    }
}

/// A choice: the column equals the chosen value.
pub open spec fn clausulas_categoricas(sc: Seq<char>, selected: Seq<char>) -> Seq<
    (Seq<char>, ParamVista),
> {
    if seleccion_activa(selected) {
        seq![(sc + " = ?"@, ParamVista::Texto(selected))]
    } else {
        Seq::empty()
    }
}

/// A catalogue choice: the key column equals the key of the catalogue row
/// whose naming column is the chosen name.
pub open spec fn clausulas_catalogo(
    p: Seq<char>,
    col_original: Seq<char>,
    tabla_catalogo: Seq<char>,
    col_nombre: Seq<char>,
    selected: Seq<char>,
    pk: Seq<char>,
) -> Seq<(Seq<char>, ParamVista)> {
    if seleccion_activa(selected) {
        seq![
            (p + spec_safe_ident(col_original) + " = (SELECT "@ + pk + " FROM "@ + spec_safe_ident(
                tabla_catalogo,
            ) + " WHERE "@ + spec_safe_ident(col_nombre) + " = ?)"@, ParamVista::Texto(selected)),
        ]
    } else {
        Seq::empty()
    }
}

/// A date range: from `desde` and up to `hasta`, each when given.
pub open spec fn clausulas_fecha(sc: Seq<char>, desde: Seq<char>, hasta: Seq<char>) -> Seq<
    (Seq<char>, ParamVista),
> {
    (if desde.len() > 0 {
        seq![(sc + " >= ?"@, ParamVista::Texto(desde))]
    } else {
        Seq::empty()
    }) + (if hasta.len() > 0 {
        seq![(sc + " <= ?"@, ParamVista::Texto(hasta))]
    } else {
        Seq::empty()
    })
}

/// A numeric range: from `min` up to `max`.
pub open spec fn clausulas_rango(sc: Seq<char>, min: Real, max: Real) -> Seq<(Seq<char>, ParamVista)> {
    seq![(sc + " >= ?"@, ParamVista::Real(min)), (sc + " <= ?"@, ParamVista::Real(max))]
}

/// A search: the column, as text, contains the query.
pub open spec fn clausulas_busqueda(sc: Seq<char>, query: Seq<char>) -> Seq<(Seq<char>, ParamVista)> {
    if query.len() > 0 {
        seq![("CAST("@ + sc + " AS TEXT) LIKE ?"@, ParamVista::Texto("%"@ + query + "%"@))]
    } else {
        Seq::empty()
    }
}

/// The key column that `pks` gives for catalogue `tabla`: that of its first
/// entry, or `rowid`.
pub open spec fn pk_para(pks: Seq<(Seq<char>, Seq<char>)>, tabla: Seq<char>) -> Seq<char>
    decreases pks.len(),
{
    if pks.len() == 0 {
        constants::DEFAULT_PK_FALLBACK@
    } else if pks[0].0 == tabla {
        pks[0].1
    } else {
        pk_para(pks.drop_first(), tabla)
    }
}

/// The key column a filter's conditions use (only catalogue filters use one).
pub open spec fn pk_de_filtro(pks: Seq<(Seq<char>, Seq<char>)>, f: FiltroValor) -> Seq<char> {
    match f {
        FiltroValor::CategoricalFK { tabla_catalogo, .. } => pk_para(pks, tabla_catalogo@),
        _ => Seq::empty(),
    }
}

/// The conditions of all the filters, in the filters' order.
pub open spec fn clausulas(
    p: Seq<char>,
    filtros: Seq<(String, FiltroValor)>,
    pks: Seq<(Seq<char>, Seq<char>)>,
) -> Seq<(Seq<char>, ParamVista)>
    decreases filtros.len(),
{
    if filtros.len() == 0 {
        Seq::empty()
    } else {
        let (n, f) = filtros.last();
        clausulas(p, filtros.drop_last(), pks) + clausulas_filtro(p, n@, f, pk_de_filtro(pks, f))
    }
}

/// A date filter adds to the conditions of the filters before it exactly
/// its given bounds, each on its own: `column >= ?` bound to `desde` when
/// `desde` is given, then `column <= ?` bound to `hasta` when `hasta` is
/// given, whatever the other bound is.
pub proof fn ley_filtro_fecha(
    p: Seq<char>,
    filtros: Seq<(String, FiltroValor)>,
    pks: Seq<(Seq<char>, Seq<char>)>,
    nombre: String,
    desde: String,
    hasta: String,
)
    ensures
        ({
            let sc = p + spec_safe_ident(nombre@);
            let cs = clausulas(p, filtros.push((nombre, FiltroValor::Date { desde, hasta })), pks);
            let antes = clausulas(p, filtros, pks);
            &&& desde@.len() > 0 && hasta@.len() > 0 ==> cs == antes.push((sc + " >= ?"@, ParamVista::Texto(desde@))).push(
                (sc + " <= ?"@, ParamVista::Texto(hasta@)),
            )
            &&& desde@.len() > 0 && hasta@.len() == 0 ==> cs == antes.push((sc + " >= ?"@, ParamVista::Texto(desde@)))
            &&& desde@.len() == 0 && hasta@.len() > 0 ==> cs == antes.push((sc + " <= ?"@, ParamVista::Texto(hasta@)))
            &&& desde@.len() == 0 && hasta@.len() == 0 ==> cs == antes
        }),
{
    let f = filtros.push((nombre, FiltroValor::Date { desde, hasta }));
    assert(f.drop_last() =~= filtros);
    let sc = p + spec_safe_ident(nombre@);
    let antes = clausulas(p, filtros, pks);
    let lo = seq![(sc + " >= ?"@, ParamVista::Texto(desde@))];
    let hi = seq![(sc + " <= ?"@, ParamVista::Texto(hasta@))];
    let e = Seq::<(Seq<char>, ParamVista)>::empty();
    assert(antes + (lo + hi) =~= antes.push(lo[0]).push(hi[0]));
    assert(antes + (lo + e) =~= antes.push(lo[0]));
    assert(antes + (e + hi) =~= antes.push(hi[0]));
    assert(antes + (e + e) =~= antes);
}

/// The conditions' texts.
pub open spec fn textos_de(cs: Seq<(Seq<char>, ParamVista)>) -> Seq<Seq<char>> {
    Seq::new(cs.len(), |i: int| cs[i].0)
}

/// The conditions' values.
pub open spec fn valores_de(cs: Seq<(Seq<char>, ParamVista)>) -> Seq<ParamVista> {
    Seq::new(cs.len(), |i: int| cs[i].1)
}

/// `WHERE` and the conditions joined by `AND`, or nothing without conditions.
pub open spec fn spec_where(cs: Seq<(Seq<char>, ParamVista)>) -> Seq<char> {
    if cs.len() == 0 {
        Seq::empty()
    } else {
        "WHERE "@ + unir(textos_de(cs), " AND "@)
    }
}

fn agregar(
    textos: &mut Vec<String>,
    params: &mut Vec<ParamSql>,
    t: String,
    v: ParamSql,
    Ghost(antes): Ghost<Seq<(Seq<char>, ParamVista)>>,
)
    requires
        vista_textos(old(textos)@) == textos_de(antes),
        vistas_params(old(params)@) == valores_de(antes),
    ensures
        vista_textos(final(textos)@) == textos_de(antes.push((t@, v@))),
        vistas_params(final(params)@) == valores_de(antes.push((t@, v@))),
{
    let ghost tv = t@;
    let ghost vv = v@;
    assert(vista_textos(old(textos)@).len() == old(textos)@.len());
    assert(textos_de(antes).len() == antes.len());
    assert(vistas_params(old(params)@).len() == old(params)@.len());
    assert(valores_de(antes).len() == antes.len());
    textos.push(t);
    params.push(v);
    assert forall|k: int| 0 <= k < antes.len() implies old(textos)@[k]@ == antes[k].0 by {
        assert(vista_textos(old(textos)@)[k] == textos_de(antes)[k]);
    }
    assert forall|k: int| 0 <= k < antes.len() implies old(params)@[k]@ == antes[k].1 by {
        assert(vistas_params(old(params)@).len() == antes.len());
        assert(vistas_params(old(params)@)[k] == old(params)@[k]@);
        assert(vistas_params(old(params)@)[k] == valores_de(antes)[k]);
    }
    assert(vista_textos(textos@) =~= textos_de(antes.push((tv, vv))));
    assert(vistas_params(params@) =~= valores_de(antes.push((tv, vv))));
}

fn texto_tras(p: &str, a: &str, b: &str) -> (r: String)
    ensures
        r@ == p@ + a@ + b@,
{
    let mut r = String::from_str(p);
    r.append(a);
    r.append(b);
    r
}

fn texto_dos(p: &str, a: &str) -> (r: String)
    ensures
        r@ == p@ + a@,
{
    let mut r = String::from_str(p);
    r.append(a);
    r
}

/// The key column that `pks` gives for catalogue `tabla`.
fn pk_para_exec(pks: &Vec<(String, String)>, tabla: &String) -> (r: String)
    ensures
        r@ == pk_para(vistas_pks(pks@), tabla@),
{
    let mut i: usize = 0;
    let ghost vs = vistas_pks(pks@);
    assert(vs.skip(0) =~= vs);
    while i < pks.len()
        invariant
            i <= pks.len(),
            vs == vistas_pks(pks@),
            pk_para(vs, tabla@) == pk_para(vs.skip(i as int), tabla@),
        decreases pks.len() - i,
    {
        assert(vs.skip(i as int)[0] == (pks@[i as int].0@, pks@[i as int].1@));
        if pks[i].0 == *tabla {
            return pks[i].1.clone();
        }
        assert(vs.skip(i as int).drop_first() =~= vs.skip(i + 1));
        i = i + 1;
    }
    String::from_str(constants::DEFAULT_PK_FALLBACK)
}

/// Pairs of texts by their characters.
pub open spec fn vistas_pks(pks: Seq<(String, String)>) -> Seq<(Seq<char>, Seq<char>)> {
    Seq::new(pks.len(), |i: int| (pks[i].0@, pks[i].1@))
}

fn add_categorical_filter(
    sc: &str,
    selected: &String,
    clauses: &mut Vec<String>,
    params: &mut Vec<ParamSql>,
    Ghost(antes): Ghost<Seq<(Seq<char>, ParamVista)>>,
)
    requires
        vista_textos(old(clauses)@) == textos_de(antes),
        vistas_params(old(params)@) == valores_de(antes),
    ensures
        vista_textos(final(clauses)@) == textos_de(antes + clausulas_categoricas(sc@, selected@)),
        vistas_params(final(params)@) == valores_de(antes + clausulas_categoricas(sc@, selected@)),
{
    if selected.unicode_len() > 0 && !(*selected == String::from_str(constants::FILTRO_TODOS)) {
        agregar(clauses, params, texto_dos(sc, " = ?"), ParamSql::Texto(selected.clone()), Ghost(antes));
        assert(antes + clausulas_categoricas(sc@, selected@) =~= antes.push(
            (sc@ + " = ?"@, ParamVista::Texto(selected@)),
        ));
    } else {
        assert(antes + clausulas_categoricas(sc@, selected@) =~= antes);
    }
}

fn add_categorical_fk_filter(
    p: &str,
    col_original: &String,
    tabla_catalogo: &String,
    col_nombre: &String,
    selected: &String,
    pks: &Vec<(String, String)>,
    clauses: &mut Vec<String>,
    params: &mut Vec<ParamSql>,
    Ghost(antes): Ghost<Seq<(Seq<char>, ParamVista)>>,
)
    requires
        vista_textos(old(clauses)@) == textos_de(antes),
        vistas_params(old(params)@) == valores_de(antes),
    ensures
        vista_textos(final(clauses)@) == textos_de(
            antes + clausulas_catalogo(
                p@,
                col_original@,
                tabla_catalogo@,
                col_nombre@,
                selected@,
                pk_para(vistas_pks(pks@), tabla_catalogo@),
            ),
        ),
        vistas_params(final(params)@) == valores_de(
            antes + clausulas_catalogo(
                p@,
                col_original@,
                tabla_catalogo@,
                col_nombre@,
                selected@,
                pk_para(vistas_pks(pks@), tabla_catalogo@),
            ),
        ),
{
    let ghost nuevas = clausulas_catalogo(
        p@,
        col_original@,
        tabla_catalogo@,
        col_nombre@,
        selected@,
        pk_para(vistas_pks(pks@), tabla_catalogo@),
    );
    if selected.unicode_len() > 0 && !(*selected == String::from_str(constants::FILTRO_TODOS)) {
        let pk = pk_para_exec(pks, tabla_catalogo);
        let mut t = texto_tras(p, safe_ident(col_original.as_str()).as_str(), " = (SELECT ");
        t.append(pk.as_str());
        t.append(" FROM ");
        t.append(safe_ident(tabla_catalogo.as_str()).as_str());
        t.append(" WHERE ");
        t.append(safe_ident(col_nombre.as_str()).as_str());
        t.append(" = ?)");
        let ghost tv = t@;
        agregar(clauses, params, t, ParamSql::Texto(selected.clone()), Ghost(antes));
        assert(antes + nuevas =~= antes.push((tv, ParamVista::Texto(selected@))));
    } else {
        assert(antes + nuevas =~= antes);
    }
}

fn add_date_filter(
    sc: &str,
    desde: &String,
    hasta: &String,
    clauses: &mut Vec<String>,
    params: &mut Vec<ParamSql>,
    Ghost(antes): Ghost<Seq<(Seq<char>, ParamVista)>>,
)
    requires
        vista_textos(old(clauses)@) == textos_de(antes),
        vistas_params(old(params)@) == valores_de(antes),
    ensures
        vista_textos(final(clauses)@) == textos_de(antes + clausulas_fecha(sc@, desde@, hasta@)),
        vistas_params(final(params)@) == valores_de(antes + clausulas_fecha(sc@, desde@, hasta@)),
{
    let ghost mut medio = antes;
    if desde.unicode_len() > 0 {
        agregar(clauses, params, texto_dos(sc, " >= ?"), ParamSql::Texto(desde.clone()), Ghost(antes));
        proof {
            medio = antes.push((sc@ + " >= ?"@, ParamVista::Texto(desde@)));
        }
    }
    if hasta.unicode_len() > 0 {
        agregar(clauses, params, texto_dos(sc, " <= ?"), ParamSql::Texto(hasta.clone()), Ghost(medio));
        proof {
            medio = medio.push((sc@ + " <= ?"@, ParamVista::Texto(hasta@)));
        }
    }
    assert(antes + clausulas_fecha(sc@, desde@, hasta@) =~= medio);
}

fn add_numeric_filter(
    sc: &str,
    min: &Real,
    max: &Real,
    clauses: &mut Vec<String>,
    params: &mut Vec<ParamSql>,
    Ghost(antes): Ghost<Seq<(Seq<char>, ParamVista)>>,
)
    requires
        vista_textos(old(clauses)@) == textos_de(antes),
        vistas_params(old(params)@) == valores_de(antes),
    ensures
        vista_textos(final(clauses)@) == textos_de(antes + clausulas_rango(sc@, *min, *max)),
        vistas_params(final(params)@) == valores_de(antes + clausulas_rango(sc@, *min, *max)),
{
    agregar(clauses, params, texto_dos(sc, " >= ?"), ParamSql::Real(min.clone()), Ghost(antes));
    let ghost medio = antes.push((sc@ + " >= ?"@, ParamVista::Real(*min)));
    agregar(clauses, params, texto_dos(sc, " <= ?"), ParamSql::Real(max.clone()), Ghost(medio));
    assert(antes + clausulas_rango(sc@, *min, *max) =~= medio.push((sc@ + " <= ?"@, ParamVista::Real(*max))));
}

fn add_text_search_filter(
    sc: &str,
    query: &String,
    clauses: &mut Vec<String>,
    params: &mut Vec<ParamSql>,
    Ghost(antes): Ghost<Seq<(Seq<char>, ParamVista)>>,
)
    requires
        vista_textos(old(clauses)@) == textos_de(antes),
        vistas_params(old(params)@) == valores_de(antes),
    ensures
        vista_textos(final(clauses)@) == textos_de(antes + clausulas_busqueda(sc@, query@)),
        vistas_params(final(params)@) == valores_de(antes + clausulas_busqueda(sc@, query@)),
{
    if query.unicode_len() > 0 {
        let t = texto_tras("CAST(", sc, " AS TEXT) LIKE ?");
        let v = texto_tras("%", query.as_str(), "%");
        let ghost (tv, vv) = (t@, v@);
        agregar(clauses, params, t, ParamSql::Texto(v), Ghost(antes));
        assert(antes + clausulas_busqueda(sc@, query@) =~= antes.push((tv, ParamVista::Texto(vv))));
    } else {
        assert(antes + clausulas_busqueda(sc@, query@) =~= antes);
    }
}

/// The conditions and values that the filters make, given the key column of
/// each catalogue in `pks`: one condition per active choice, two for a range
/// of numbers, in the filters' order; the text is `WHERE` and the conditions
/// joined by `AND`, or empty when there is none.
pub fn construir_where_con(
    filtros: &Vec<(String, FiltroValor)>,
    p: &str,
    pks: &Vec<(String, String)>,
) -> (r: (String, Vec<ParamSql>))
    ensures
        r.0@ == spec_where(clausulas(p@, filtros@, vistas_pks(pks@))),
        vistas_params(r.1@) == valores_de(clausulas(p@, filtros@, vistas_pks(pks@))),
{
    let ghost vpks = vistas_pks(pks@);
    let mut textos: Vec<String> = Vec::new();
    let mut params: Vec<ParamSql> = Vec::new();
    let mut i: usize = 0;
    assert(vista_textos(textos@) =~= textos_de(clausulas(p@, filtros@.take(0), vpks)));
    assert(vistas_params(params@) =~= valores_de(clausulas(p@, filtros@.take(0), vpks)));
    while i < filtros.len()
        invariant
            i <= filtros.len(),
            vpks == vistas_pks(pks@),
            vista_textos(textos@) == textos_de(clausulas(p@, filtros@.take(i as int), vpks)),
            vistas_params(params@) == valores_de(clausulas(p@, filtros@.take(i as int), vpks)),
        decreases filtros.len() - i,
    {
        let ghost antes = clausulas(p@, filtros@.take(i as int), vpks);
        assert(filtros@.take(i + 1).drop_last() =~= filtros@.take(i as int));
        assert(filtros@.take(i + 1).last() == filtros@[i as int]);
        let ghost f = filtros@[i as int].1;
        assert(clausulas(p@, filtros@.take(i + 1), vpks) == antes + clausulas_filtro(
            p@,
            filtros@[i as int].0@,
            f,
            pk_de_filtro(vpks, f),
        ));
        let sc = texto_dos(p, safe_ident(filtros[i].0.as_str()).as_str());
        match &filtros[i].1 {
            FiltroValor::Categorical { selected } => {
                add_categorical_filter(sc.as_str(), selected, &mut textos, &mut params, Ghost(antes));
            },
            FiltroValor::CategoricalFK { selected, col_original, tabla_catalogo, col_nombre } => {
                add_categorical_fk_filter(
                    p,
                    col_original,
                    tabla_catalogo,
                    col_nombre,
                    selected,
                    pks,
                    &mut textos,
                    &mut params,
                    Ghost(antes),
                );
            },
            FiltroValor::Date { desde, hasta } => {
                add_date_filter(sc.as_str(), desde, hasta, &mut textos, &mut params, Ghost(antes));
            },
            FiltroValor::Numeric { min, max, .. } => {
                add_numeric_filter(sc.as_str(), min, max, &mut textos, &mut params, Ghost(antes));
            },
            FiltroValor::TextSearch { query } => {
                add_text_search_filter(sc.as_str(), query, &mut textos, &mut params, Ghost(antes));
            },
        }
        i = i + 1;
    }
    assert(filtros@.take(filtros.len() as int) =~= filtros@);
    if textos.len() == 0 {
        (String::new(), params)
    } else {
        let w = texto_dos("WHERE ", unir_textos(&textos, " AND ").as_str());
        (w, params)
    }
}


/// The key column of each catalogue: with a connection, what the column
/// list of the catalogue answered as its primary key (`rowid` when it could
/// not be run); without one, `rowid`.
pub open spec fn pks_admisibles(pks: Seq<(Seq<char>, Seq<char>)>, con_conexion: bool) -> bool {
    forall|k: int|
        0 <= k < pks.len() ==> if con_conexion {
            exists|f: Filas|
                #[trigger] f.consulta() == (sql_table_info((#[trigger] pks[k]).0), Seq::<ParamVista>::empty())
                    && pks[k].1 == pk_o_respaldo(f, constants::DEFAULT_PK_FALLBACK@)
        } else {
            pks[k].1 == constants::DEFAULT_PK_FALLBACK@
        }
}

/// The catalogues of a list of key columns, in order.
pub open spec fn catalogos_de(pks: Seq<(Seq<char>, Seq<char>)>) -> Seq<Seq<char>> {
    Seq::new(pks.len(), |i: int| pks[i].0)
}

/// The catalogues that the active catalogue filters name, each once, in the
/// order of their first filter.
pub open spec fn catalogos_a_resolver(filtros: Seq<(String, FiltroValor)>) -> Seq<Seq<char>>
    decreases filtros.len(),
{
    if filtros.len() == 0 {
        Seq::empty()
    } else {
        let r = catalogos_a_resolver(filtros.drop_last());
        match filtros.last().1 {
            FiltroValor::CategoricalFK { selected, tabla_catalogo, .. } => if seleccion_activa(
                selected@,
            ) && !r.contains(tabla_catalogo@) {
                r.push(tabla_catalogo@)
            } else {
                r
            },
            _ => r,
        }
    }
}

/// Each catalogue is looked up once: the catalogues to resolve are all
/// different.
pub proof fn ley_catalogos_sin_repetir(filtros: Seq<(String, FiltroValor)>)
    ensures
        forall|i: int, j: int|
            0 <= i < j < catalogos_a_resolver(filtros).len() ==> #[trigger] catalogos_a_resolver(filtros)[i]
                != #[trigger] catalogos_a_resolver(filtros)[j],
    decreases filtros.len(),
{
    if filtros.len() > 0 {
        let r = catalogos_a_resolver(filtros.drop_last());
        ley_catalogos_sin_repetir(filtros.drop_last());
        let c = catalogos_a_resolver(filtros);
        assert forall|i: int, j: int| 0 <= i < j < c.len() implies #[trigger] c[i] != #[trigger] c[j] by {
            if j < r.len() {
                assert(c[i] == r[i] && c[j] == r[j]);
            } else {
                assert(c[i] == r[i]);
                assert(r.contains(r[i]));
            }
        }
    }
}

fn ya_resuelto(pks: &Vec<(String, String)>, t: &String) -> (r: bool)
    ensures
        r == catalogos_de(vistas_pks(pks@)).contains(t@),
{
    let mut i: usize = 0;
    while i < pks.len()
        invariant
            i <= pks.len(),
            forall|k: int| 0 <= k < i ==> (#[trigger] pks@[k]).0@ != t@,
        decreases pks.len() - i,
    {
        if pks[i].0 == *t {
            assert(catalogos_de(vistas_pks(pks@))[i as int] == t@);
            return true;
        }
        i = i + 1;
    }
    assert forall|k: int| 0 <= k < pks.len() implies catalogos_de(vistas_pks(pks@))[k] != t@ by {
        assert(pks@[k].0@ != t@);
    }
    false
}

/// The key column of each catalogue that an active catalogue filter names,
/// looked up once per catalogue: the table's primary key, or `rowid` when
/// it cannot be found or there is no connection.
fn resolver_pks(filtros: &Vec<(String, FiltroValor)>, conn: Option<&rusqlite::Connection>) -> (r: Vec<
    (String, String),
>)
    ensures
        catalogos_de(vistas_pks(r@)) == catalogos_a_resolver(filtros@),
        pks_admisibles(vistas_pks(r@), conn is Some),
{
    let mut pks: Vec<(String, String)> = Vec::new();
    let mut i: usize = 0;
    while i < filtros.len()
        invariant
            i <= filtros.len(),
            catalogos_de(vistas_pks(pks@)) == catalogos_a_resolver(filtros@.take(i as int)),
            pks_admisibles(vistas_pks(pks@), conn is Some),
        decreases filtros.len() - i,
    {
        assert(filtros@.take(i as int) =~= filtros@.take(i + 1).drop_last());
        let ghost cat_antes = catalogos_de(vistas_pks(pks@));
        match &filtros[i].1 {
            FiltroValor::CategoricalFK { selected, tabla_catalogo, .. } => {
                if selected.unicode_len() > 0 && !(*selected == String::from_str(constants::FILTRO_TODOS))
                    && !ya_resuelto(&pks, tabla_catalogo) {
                    let pk = match conn {
                        Some(c) => obtener_pk_con_fallback(c, tabla_catalogo.as_str(), constants::DEFAULT_PK_FALLBACK),
                        None => String::from_str(constants::DEFAULT_PK_FALLBACK),
                    };
                    let ghost antes = vistas_pks(pks@);
                    pks.push((tabla_catalogo.clone(), pk));
                    assert(vistas_pks(pks@) =~= antes.push((tabla_catalogo@, pks@.last().1@)));
                    assert forall|k: int| 0 <= k < vistas_pks(pks@).len() implies if conn is Some {
                        exists|f: Filas|
                            #[trigger] f.consulta() == (sql_table_info((#[trigger] vistas_pks(pks@)[k]).0), Seq::<ParamVista>::empty())
                                && vistas_pks(pks@)[k].1 == pk_o_respaldo(f, constants::DEFAULT_PK_FALLBACK@)
                    } else {
                        vistas_pks(pks@)[k].1 == constants::DEFAULT_PK_FALLBACK@
                    } by {
                        if k < antes.len() {
                            assert(vistas_pks(pks@)[k] == antes[k]);
                        }
                    }
                    assert(catalogos_de(vistas_pks(pks@)) =~= cat_antes.push(tabla_catalogo@));
                }
            },
            _ => {},
        }
        i = i + 1;
    }
    assert(filtros@.take(filtros.len() as int) =~= filtros@);
    pks
}

/// The `WHERE` clause and its values for the filters, qualified as `modo`
/// asks: what `construir_where_con` makes with the key column of each
/// catalogue looked up through `conn` (or `rowid`).
pub fn construir_where(
    filtros: &Vec<(String, FiltroValor)>,
    modo: Option<&ModoOptimizacion>,
    conn: Option<&rusqlite::Connection>,
) -> (r: (String, Vec<ParamSql>))
    ensures
        exists|pks: Seq<(Seq<char>, Seq<char>)>|
            {
                &&& pks_admisibles(pks, conn is Some)
                &&& r.0@ == spec_where(clausulas(spec_col_prefix(modo), filtros@, pks))
                &&& vistas_params(r.1@) == valores_de(clausulas(spec_col_prefix(modo), filtros@, pks))
            },
{
    let p = col_prefix(modo);
    let pks = resolver_pks(filtros, conn);
    let r = construir_where_con(filtros, p, &pks);
    assert(pks_admisibles(vistas_pks(pks@), conn is Some));
    r
}

/// Two filter values of the same shape: the same kind, active in the same
/// parts, on the same catalogue; they may differ in the values chosen.
pub open spec fn misma_forma(a: FiltroValor, b: FiltroValor) -> bool {
    match (a, b) {
        (FiltroValor::Categorical { selected: x }, FiltroValor::Categorical { selected: y }) =>
            seleccion_activa(x@) == seleccion_activa(y@),
        (
            FiltroValor::CategoricalFK {
                selected: x,
                col_original: o1,
                tabla_catalogo: t1,
                col_nombre: n1,
            },
            FiltroValor::CategoricalFK {
                selected: y,
                col_original: o2,
                tabla_catalogo: t2,
                col_nombre: n2,
            },
        ) => seleccion_activa(x@) == seleccion_activa(y@) && o1@ == o2@ && t1@ == t2@ && n1@ == n2@,
        (FiltroValor::Date { desde: d1, hasta: h1 }, FiltroValor::Date { desde: d2, hasta: h2 }) =>
            (d1@.len() > 0) == (d2@.len() > 0) && (h1@.len() > 0) == (h2@.len() > 0),
        (FiltroValor::Numeric { .. }, FiltroValor::Numeric { .. }) => true,
        (FiltroValor::TextSearch { query: q1 }, FiltroValor::TextSearch { query: q2 }) => (q1@.len()
            > 0) == (q2@.len() > 0),
        _ => false,
    }
}

proof fn lema_textos_concat(a: Seq<(Seq<char>, ParamVista)>, b: Seq<(Seq<char>, ParamVista)>)
    ensures
        textos_de(a + b) == textos_de(a) + textos_de(b),
{
    assert(textos_de(a + b) =~= textos_de(a) + textos_de(b));
}

/// The text of the `WHERE` clause depends on the filters' columns and
/// shapes only: the values chosen, typed or ranged go into the parameters
/// and never into the SQL text.
pub proof fn ley_valores_solo_como_parametros(
    p: Seq<char>,
    f1: Seq<(String, FiltroValor)>,
    f2: Seq<(String, FiltroValor)>,
    pks: Seq<(Seq<char>, Seq<char>)>,
)
    requires
        f1.len() == f2.len(),
        forall|k: int|
            0 <= k < f1.len() ==> (#[trigger] f1[k]).0@ == f2[k].0@ && misma_forma(f1[k].1, f2[k].1),
    ensures
        spec_where(clausulas(p, f1, pks)) == spec_where(clausulas(p, f2, pks)),
        valores_de(clausulas(p, f1, pks)).len() == valores_de(clausulas(p, f2, pks)).len(),
{
    lema_textos_iguales(p, f1, f2, pks);
    let c1 = clausulas(p, f1, pks);
    let c2 = clausulas(p, f2, pks);
    assert(c1.len() == textos_de(c1).len());
    assert(c2.len() == textos_de(c2).len());
}

proof fn lema_textos_iguales(
    p: Seq<char>,
    f1: Seq<(String, FiltroValor)>,
    f2: Seq<(String, FiltroValor)>,
    pks: Seq<(Seq<char>, Seq<char>)>,
)
    requires
        f1.len() == f2.len(),
        forall|k: int|
            0 <= k < f1.len() ==> (#[trigger] f1[k]).0@ == f2[k].0@ && misma_forma(f1[k].1, f2[k].1),
    ensures
        textos_de(clausulas(p, f1, pks)) == textos_de(clausulas(p, f2, pks)),
    decreases f1.len(),
{
    if f1.len() > 0 {
        let (a1, b1) = (f1.drop_last(), f2.drop_last());
        assert forall|k: int| 0 <= k < a1.len() implies (#[trigger] a1[k]).0@ == b1[k].0@ && misma_forma(
            a1[k].1,
            b1[k].1,
        ) by {
            assert(a1[k] == f1[k] && b1[k] == f2[k]);
        }
        lema_textos_iguales(p, a1, b1, pks);
        let (n1, v1) = f1.last();
        let (n2, v2) = f2.last();
        assert(f1[f1.len() - 1] == f1.last());
        let x1 = clausulas_filtro(p, n1@, v1, pk_de_filtro(pks, v1));
        let x2 = clausulas_filtro(p, n2@, v2, pk_de_filtro(pks, v2));
        assert(textos_de(x1) =~= textos_de(x2));
        lema_textos_concat(clausulas(p, a1, pks), x1);
        lema_textos_concat(clausulas(p, b1, pks), x2);
    }
}

// ── the queries ────────────────────────────────────────────────────────────

/// The alias under which a catalogue is joined.
pub open spec fn alias_de(fk: FKOptimizada) -> Seq<char> {
    constants::FK_ALIAS_PREFIX@ + fk.col_id@
}

/// The join of one catalogue to the base table `tb`.
pub open spec fn union_de(fk: FKOptimizada) -> Seq<char> {
    let a = spec_safe_ident(alias_de(fk));
    "LEFT JOIN "@ + spec_safe_ident(fk.tabla_catalogo@) + " AS "@ + a + " ON tb."@
        + spec_safe_ident(fk.col_id@) + " = "@ + a + "."@ + spec_safe_ident(fk.pk_col@)
}

pub open spec fn uniones(fks: Seq<FKOptimizada>) -> Seq<Seq<char>> {
    Seq::new(fks.len(), |i: int| union_de(fks[i]))
}

/// The `FROM` clause: the view itself, or the base table as `tb` with its
/// catalogues joined.
pub open spec fn spec_from(vista: Seq<char>, modo: Option<&ModoOptimizacion>) -> Seq<char> {
    match modo {
        Some(ModoOptimizacion::VistaConFKs { tabla_base, fks }) => {
            let tb = spec_safe_ident(tabla_base@);
            if fks.len() == 0 {
                "FROM "@ + tb + " AS tb"@
            } else {
                "FROM "@ + tb + " AS tb "@ + unir(uniones(fks@), " "@)
            }
        },
        _ => "FROM "@ + spec_safe_ident(vista),
    }
}

fn union_exec(fk: &FKOptimizada) -> (r: String)
    ensures
        r@ == union_de(*fk),
{
    let mut alias = String::from_str(constants::FK_ALIAS_PREFIX);
    alias.append(fk.col_id.as_str());
    let a = safe_ident(alias.as_str());
    let mut r = String::from_str("LEFT JOIN ");
    r.append(safe_ident(fk.tabla_catalogo.as_str()).as_str());
    r.append(" AS ");
    r.append(a.as_str());
    r.append(" ON tb.");
    r.append(safe_ident(fk.col_id.as_str()).as_str());
    r.append(" = ");
    r.append(a.as_str());
    r.append(".");
    r.append(safe_ident(fk.pk_col.as_str()).as_str());
    r
}

pub fn from_clause(vista: &str, modo: Option<&ModoOptimizacion>) -> (r: String)
    ensures
        r@ == spec_from(vista@, modo),
{
    match modo {
        Some(ModoOptimizacion::VistaConFKs { tabla_base, fks }) => {
            let mut r = String::from_str("FROM ");
            r.append(safe_ident(tabla_base.as_str()).as_str());
            if fks.len() == 0 {
                r.append(" AS tb");
            } else {
                let mut js: Vec<String> = Vec::new();
                let mut i: usize = 0;
                while i < fks.len()
                    invariant
                        i <= fks.len(),
                        vista_textos(js@) =~= uniones(fks@).take(i as int),
                    decreases fks.len() - i,
                {
                    let ghost antes = js@;
                    js.push(union_exec(&fks[i]));
                    assert(vista_textos(js@) =~= vista_textos(antes).push(union_de(fks@[i as int])));
                    i = i + 1;
                }
                assert(uniones(fks@).take(fks.len() as int) =~= uniones(fks@));
                r.append(" AS tb ");
                r.append(unir_textos(&js, " ").as_str());
            }
            r
        },
        _ => {
            let mut r = String::from_str("FROM ");
            r.append(safe_ident(vista).as_str());
            r
        },
    }
}

/// The first catalogue join shown under the name `c`.
pub open spec fn fk_mostrada(fks: Seq<FKOptimizada>, c: Seq<char>) -> Option<int>
    decreases fks.len(),
{
    if fks.len() == 0 {
        None
    } else if fks[0].nombre_display@ == c {
        Some(0)
    } else {
        match fk_mostrada(fks.drop_first(), c) {
            Some(j) => Some(j + 1),
            None => None,
        }
    }
}

/// How column `c` is selected: a joined catalogue's naming column under the
/// column's name, the base table's column, or the view's column.
pub open spec fn columna_select(modo: Option<&ModoOptimizacion>, c: Seq<char>) -> Seq<char> {
    match modo {
        Some(ModoOptimizacion::VistaConFKs { fks, .. }) => match fk_mostrada(fks@, c) {
            Some(j) => spec_safe_ident(alias_de(fks@[j])) + "."@ + spec_safe_ident(
                fks@[j].col_nombre@,
            ) + " AS \""@ + c + "\""@,
            None => "tb."@ + spec_safe_ident(c),
        },
        _ => spec_col_prefix(modo) + spec_safe_ident(c),
    }
}

pub open spec fn columnas_select(modo: Option<&ModoOptimizacion>, cols: Seq<Seq<char>>) -> Seq<
    Seq<char>,
> {
    Seq::new(cols.len(), |i: int| columna_select(modo, cols[i]))
}

fn fk_mostrada_exec(fks: &Vec<FKOptimizada>, c: &String) -> (r: Option<usize>)
    ensures
        match r {
            Some(j) => j < fks.len() && fk_mostrada(fks@, c@) == Some(j as int),
            None => fk_mostrada(fks@, c@) is None,
        },
{
    let mut i: usize = 0;
    assert(fks@.skip(0) =~= fks@);
    while i < fks.len()
        invariant
            i <= fks.len(),
            match fk_mostrada(fks@.skip(i as int), c@) {
                Some(x) => fk_mostrada(fks@, c@) == Some(x + i),
                None => fk_mostrada(fks@, c@) is None,
            },
        decreases fks.len() - i,
    {
        if fks[i].nombre_display == *c {
            return Some(i);
        }
        assert(fks@.skip(i as int).drop_first() =~= fks@.skip(i + 1));
        i = i + 1;
    }
    None
}

fn columna_select_exec(modo: Option<&ModoOptimizacion>, c: &String) -> (r: String)
    ensures
        r@ == columna_select(modo, c@),
{
    match modo {
        Some(ModoOptimizacion::VistaConFKs { fks, .. }) => match fk_mostrada_exec(fks, c) {
            Some(j) => {
                let fk = &fks[j];
                let mut alias = String::from_str(constants::FK_ALIAS_PREFIX);
                alias.append(fk.col_id.as_str());
                let mut r = safe_ident(alias.as_str());
                r.append(".");
                r.append(safe_ident(fk.col_nombre.as_str()).as_str());
                r.append(" AS \"");
                r.append(c.as_str());
                r.append("\"");
                r
            },
            None => {
                let mut r = String::from_str("tb.");
                r.append(safe_ident(c.as_str()).as_str());
                r
            },
        },
        _ => {
            let mut r = String::from_str(col_prefix(modo));
            r.append(safe_ident(c.as_str()).as_str());
            r
        },
    }
}

/// The select list: each column as `columna_select` selects it, joined by
/// commas.
pub fn select_list(modo: Option<&ModoOptimizacion>, cols: &Vec<String>) -> (r: String)
    ensures
        r@ == unir(columnas_select(modo, vista_textos(cols@)), ", "@),
{
    let mut v: Vec<String> = Vec::new();
    let mut i: usize = 0;
    while i < cols.len()
        invariant
            i <= cols.len(),
            vista_textos(v@) =~= columnas_select(modo, vista_textos(cols@)).take(i as int),
        decreases cols.len() - i,
    {
        let ghost antes = v@;
        v.push(columna_select_exec(modo, &cols[i]));
        assert(vista_textos(v@) =~= vista_textos(antes).push(columna_select(modo, cols@[i as int]@)));
        i = i + 1;
    }
    assert(columnas_select(modo, vista_textos(cols@)).take(cols.len() as int) =~= columnas_select(
        modo,
        vista_textos(cols@),
    ));
    unir_textos(&v, ", ")
}

/// What joins the filters' conditions and one more: `WHERE` alone when there
/// are none, else the clause followed by `AND`.
pub open spec fn condicion_mas(w: Seq<char>) -> Seq<char> {
    if w.len() == 0 {
        "WHERE"@
    } else {
        w + " AND"@
    }
}

fn condicion_mas_exec(w: &str) -> (r: String)
    ensures
        r@ == condicion_mas(w@),
{
    if w.unicode_len() == 0 {
        String::from_str("WHERE")
    } else {
        let mut r = String::from_str(w);
        r.append(" AND");
        r
    }
}

pub open spec fn sql_conteo(from: Seq<char>, w: Seq<char>) -> Seq<char> {
    "SELECT COUNT(*) "@ + from + " "@ + w
}

pub open spec fn sql_total(from: Seq<char>) -> Seq<char> {
    "SELECT COUNT(*) "@ + from
}

pub open spec fn sql_estado(from: Seq<char>, w: Seq<char>, sc: Seq<char>) -> Seq<char> {
    "SELECT COUNT(*) "@ + from + " "@ + condicion_mas(w) + " UPPER(CAST("@ + sc + " AS TEXT)) LIKE ?"@
}

pub open spec fn sql_grupos(from: Seq<char>, w: Seq<char>, sc: Seq<char>) -> Seq<char> {
    "SELECT CAST("@ + sc + " AS TEXT), COUNT(*) "@ + from + " "@ + condicion_mas(w) + " "@ + sc
        + " IS NOT NULL AND CAST("@ + sc + " AS TEXT) != '' GROUP BY CAST("@ + sc
        + " AS TEXT) ORDER BY COUNT(*) DESC LIMIT "@ + decimal(constants::GROUP_BY_LIMIT as nat)
}

/// The positions `1` to `n` of the selected columns, as numerals.
pub open spec fn posiciones(n: nat) -> Seq<Seq<char>> {
    Seq::new(n, |i: int| decimal((i + 1) as nat))
}

/// The order of the page query: by every selected column in turn (none
/// without columns), so that pages follow one fixed order.
pub open spec fn sql_orden(n: nat) -> Seq<char> {
    if n == 0 {
        Seq::empty()
    } else {
        " ORDER BY "@ + unir(posiciones(n), ", "@)
    }
}

pub open spec fn sql_tabla(
    sel: Seq<char>,
    from: Seq<char>,
    w: Seq<char>,
    ncols: nat,
    limit: nat,
    offset: nat,
) -> Seq<char> {
    "SELECT "@ + sel + " "@ + from + " "@ + w + sql_orden(ncols) + " LIMIT "@ + decimal(limit)
        + " OFFSET "@ + decimal(offset)
}

pub fn texto_conteo(from: &str, w: &str) -> (r: String)
    ensures
        r@ == sql_conteo(from@, w@),
{
    let mut r = String::from_str("SELECT COUNT(*) ");
    r.append(from);
    r.append(" ");
    r.append(w);
    r
}

pub fn texto_total(from: &str) -> (r: String)
    ensures
        r@ == sql_total(from@),
{
    let mut r = String::from_str("SELECT COUNT(*) ");
    r.append(from);
    r
}

pub fn texto_estado(from: &str, w: &str, sc: &str) -> (r: String)
    ensures
        r@ == sql_estado(from@, w@, sc@),
{
    let mut r = String::from_str("SELECT COUNT(*) ");
    r.append(from);
    r.append(" ");
    r.append(condicion_mas_exec(w).as_str());
    r.append(" UPPER(CAST(");
    r.append(sc);
    r.append(" AS TEXT)) LIKE ?");
    r
}

pub fn texto_grupos(from: &str, w: &str, sc: &str) -> (r: String)
    ensures
        r@ == sql_grupos(from@, w@, sc@),
{
    let mut r = String::from_str("SELECT CAST(");
    r.append(sc);
    r.append(" AS TEXT), COUNT(*) ");
    r.append(from);
    r.append(" ");
    r.append(condicion_mas_exec(w).as_str());
    r.append(" ");
    r.append(sc);
    r.append(" IS NOT NULL AND CAST(");
    r.append(sc);
    r.append(" AS TEXT) != '' GROUP BY CAST(");
    r.append(sc);
    r.append(" AS TEXT) ORDER BY COUNT(*) DESC LIMIT ");
    r.append(texto_decimal(constants::GROUP_BY_LIMIT).as_str());
    r
}

pub fn texto_orden(n: u64) -> (r: String)
    ensures
        r@ == sql_orden(n as nat),
{
    if n == 0 {
        return String::new();
    }
    let mut v: Vec<String> = Vec::new();
    let mut i: u64 = 0;
    while i < n
        invariant
            i <= n,
            vista_textos(v@) =~= posiciones(i as nat),
        decreases n - i,
    {
        let ghost antes = v@;
        v.push(texto_decimal(i + 1));
        assert(vista_textos(v@) =~= vista_textos(antes).push(decimal((i + 1) as nat)));
        i = i + 1;
    }
    let mut r = String::from_str(" ORDER BY ");
    r.append(unir_textos(&v, ", ").as_str());
    r
}

pub fn texto_tabla(sel: &str, from: &str, w: &str, ncols: u64, limit: u64, offset: u64) -> (r: String)
    ensures
        r@ == sql_tabla(sel@, from@, w@, ncols as nat, limit as nat, offset as nat),
{
    let mut r = String::from_str("SELECT ");
    r.append(sel);
    r.append(" ");
    r.append(from);
    r.append(" ");
    r.append(w);
    r.append(texto_orden(ncols).as_str());
    r.append(" LIMIT ");
    r.append(texto_decimal(limit).as_str());
    r.append(" OFFSET ");
    r.append(texto_decimal(offset).as_str());
    r
}

/// The value bound to the status query's `?`: the pattern in upper case
/// between `%` signs.
pub fn patron_estado(pattern: &str) -> (r: String)
    ensures
        r@ == "%"@ + mayusculas_de(pattern@) + "%"@,
{
    let mut r = String::from_str("%");
    r.append(mayusculas(pattern).as_str());
    r.append("%");
    r
}


// ── from rows to results ───────────────────────────────────────────────────

/// A count read from a query's first row: its first cell, an integer, as
/// `u64`.
pub fn conteo_de_fila(fila: &Vec<ValorSql>) -> (r: Result<u64, ErrorBd>)
    ensures
        r is Ok <==> (fila.len() > 0 && fila@[0] is Entero),
        r matches Ok(n) ==> n == (fila@[0]->Entero_0 as u64),
        r matches Err(e) ==> e is TipoInvalido,
{
    if fila.len() == 0 {
        return Err(ErrorBd::TipoInvalido);
    }
    match &fila[0] {
        ValorSql::Entero(n) => Ok(*n as u64),
        _ => Err(ErrorBd::TipoInvalido),
    }
}

/// A cell as the table shows it: its text, a number as its numeral, or
/// nothing when it holds neither (NULL, a blob) or is missing.
pub open spec fn celda_en(f: Seq<ValorSql>, i: int) -> Seq<char> {
    if 0 <= i < f.len() {
        texto_de_celda(f[i])
    } else {
        Seq::empty()
    }
}

/// The first `n` cells of a row as the table shows them.
pub open spec fn fila_mostrada(f: Seq<ValorSql>, n: nat) -> Seq<Seq<char>> {
    Seq::new(n, |i: int| celda_en(f, i))
}

/// The rows of the page, each as `n` texts.
pub fn filas_de_tabla(filas: &Vec<Vec<ValorSql>>, n: usize) -> (r: Vec<Vec<String>>)
    ensures
        r.len() == filas.len(),
        forall|k: int|
            0 <= k < r.len() ==> vista_textos((#[trigger] r@[k])@) == fila_mostrada(
                filas@[k]@,
                n as nat,
            ) && r@[k].len() == n,
{
    let mut r: Vec<Vec<String>> = Vec::new();
    let mut k: usize = 0;
    while k < filas.len()
        invariant
            k <= filas.len(),
            r.len() == k,
            forall|j: int|
                0 <= j < k ==> vista_textos((#[trigger] r@[j])@) == fila_mostrada(
                    filas@[j]@,
                    n as nat,
                ) && r@[j].len() == n,
        decreases filas.len() - k,
    {
        let f = &filas[k];
        let mut textos: Vec<String> = Vec::new();
        let mut i: usize = 0;
        while i < n
            invariant
                i <= n,
                f == filas@[k as int],
                vista_textos(textos@) =~= fila_mostrada(f@, n as nat).take(i as int),
            decreases n - i,
        {
            let t = if i < f.len() {
                texto_celda(&f[i])
            } else {
                String::new()
            };
            let ghost antes = textos@;
            textos.push(t);
            assert(vista_textos(textos@) =~= vista_textos(antes).push(celda_en(f@, i as int)));
            i = i + 1;
        }
        assert(fila_mostrada(f@, n as nat).take(n as int) =~= fila_mostrada(f@, n as nat));
        assert(textos.len() == vista_textos(textos@).len());
        r.push(textos);
        k = k + 1;
    }
    r
}

/// Where group `k` stands among the groups.
pub open spec fn posicion_grupo(g: Seq<(Seq<char>, u64)>, k: Seq<char>) -> Option<int>
    decreases g.len(),
{
    if g.len() == 0 {
        None
    } else if g[0].0 == k {
        Some(0)
    } else {
        match posicion_grupo(g.drop_first(), k) {
            Some(j) => Some(j + 1),
            None => None,
        }
    }
}

/// Group `k` with size `n`: its size replaced when it is there, else added
/// at the end (what inserting into a map does).
pub open spec fn poner_grupo(g: Seq<(Seq<char>, u64)>, k: Seq<char>, n: u64) -> Seq<(Seq<char>, u64)> {
    match posicion_grupo(g, k) {
        Some(j) => g.update(j, (k, n)),
        None => g.push((k, n)),
    }
}

/// The group that a row of the group query gives: a text and an integer
/// count; rows of another shape give none.
pub open spec fn grupo_de_fila(f: Seq<ValorSql>) -> Option<(Seq<char>, u64)> {
    if f.len() >= 2 && f[0] is Texto && f[1] is Entero {
        Some((f[0]->Texto_0@, f[1]->Entero_0 as u64))
    } else {
        None
    }
}

/// The groups that the rows give, put in order.
pub open spec fn grupos_de(filas: Seq<Vec<ValorSql>>) -> Seq<(Seq<char>, u64)>
    decreases filas.len(),
{
    if filas.len() == 0 {
        Seq::empty()
    } else {
        let g = grupos_de(filas.drop_last());
        match grupo_de_fila(filas.last()@) {
            Some((k, n)) => poner_grupo(g, k, n),
            None => g,
        }
    }
}

pub open spec fn vista_grupos(v: Seq<(String, u64)>) -> Seq<(Seq<char>, u64)> {
    Seq::new(v.len(), |i: int| (v[i].0@, v[i].1))
}

proof fn lema_posicion_grupo(g: Seq<(Seq<char>, u64)>, k: Seq<char>)
    ensures
        match posicion_grupo(g, k) {
            Some(j) => 0 <= j < g.len() && g[j].0 == k && forall|i: int|
                0 <= i < j ==> (#[trigger] g[i]).0 != k,
            None => forall|i: int| 0 <= i < g.len() ==> (#[trigger] g[i]).0 != k,
        },
    decreases g.len(),
{
    if g.len() > 0 && g[0].0 != k {
        lema_posicion_grupo(g.drop_first(), k);
        let t = g.drop_first();
        assert forall|i: int| 1 <= i < g.len() implies (#[trigger] g[i]) == t[i - 1] by {}
    }
}

fn poner_grupo_exec(v: &mut Vec<(String, u64)>, k: String, n: u64)
    ensures
        vista_grupos(final(v)@) == poner_grupo(vista_grupos(old(v)@), k@, n),
{
    let ghost g = vista_grupos(v@);
    proof {
        lema_posicion_grupo(g, k@);
    }
    let mut i: usize = 0;
    while i < v.len()
        invariant
            i <= v.len(),
            g == vista_grupos(v@),
            v@ == old(v)@,
            forall|j: int| 0 <= j < i ==> (#[trigger] g[j]).0 != k@,
        decreases v.len() - i,
    {
        if v[i].0 == k {
            proof {
                lema_posicion_grupo(g, k@);
            }
            assert(g[i as int].0 == k@);
            assert(posicion_grupo(g, k@) == Some(i as int));
            v.set(i, (k, n));
            assert(vista_grupos(v@) =~= g.update(i as int, (k@, n)));
            return;
        }
        i = i + 1;
    }
    proof {
        lema_posicion_grupo(g, k@);
    }
    assert(posicion_grupo(g, k@) is None);
    let ghost kv = k@;
    v.push((k, n));
    assert(vista_grupos(v@) =~= g.push((kv, n)));
}

/// The groups with their sizes that the group query's rows give, each text
/// once: a later row of the same text replaces the size.
pub fn grupos_de_filas(filas: &Vec<Vec<ValorSql>>) -> (r: Vec<(String, u64)>)
    ensures
        vista_grupos(r@) == grupos_de(filas@),
{
    let mut r: Vec<(String, u64)> = Vec::new();
    let mut i: usize = 0;
    assert(vista_grupos(r@) =~= grupos_de(filas@.take(0)));
    while i < filas.len()
        invariant
            i <= filas.len(),
            vista_grupos(r@) == grupos_de(filas@.take(i as int)),
        decreases filas.len() - i,
    {
        assert(filas@.take(i + 1).drop_last() =~= filas@.take(i as int));
        assert(filas@.take(i + 1).last() == filas@[i as int]);
        let f = &filas[i];
        if f.len() >= 2 {
            match (&f[0], &f[1]) {
                (ValorSql::Texto(t), ValorSql::Entero(n)) => {
                    poner_grupo_exec(&mut r, t.clone(), *n as u64);
                },
                _ => {},
            }
        }
        i = i + 1;
    }
    assert(filas@.take(filas.len() as int) =~= filas@);
    r
}

/// Each group text stands once among the groups, as in a map.
pub proof fn ley_grupos_sin_repetir(filas: Seq<Vec<ValorSql>>)
    ensures
        forall|i: int, j: int|
            0 <= i < j < grupos_de(filas).len() ==> (#[trigger] grupos_de(filas)[i]).0
                != (#[trigger] grupos_de(filas)[j]).0,
    decreases filas.len(),
{
    if filas.len() > 0 {
        ley_grupos_sin_repetir(filas.drop_last());
        let g = grupos_de(filas.drop_last());
        match grupo_de_fila(filas.last()@) {
            Some((k, n)) => {
                lema_posicion_grupo(g, k);
                let h = poner_grupo(g, k, n);
                assert forall|i: int, j: int| 0 <= i < j < h.len() implies (#[trigger] h[i]).0
                    != (#[trigger] h[j]).0 by {
                    if j == g.len() {
                        assert(posicion_grupo(g, k) is None);
                        assert(g[i].0 != k);
                    } else {
                        assert(g[i].0 != g[j].0);
                    }
                }
            },
            None => {},
        }
    }
}

// ── the dashboard ──────────────────────────────────────────────────────────

/// Whether a status column is given and is a clean name.
pub open spec fn estado_valido(status_col: Option<&str>) -> bool {
    match status_col {
        Some(c) => spec_clean_identifier(c@),
        None => false,
    }
}

/// A parameter copied.
fn copiar_param(p: &ParamSql) -> (r: ParamSql)
    ensures
        r@ == p@,
{
    match p {
        ParamSql::Texto(t) => ParamSql::Texto(t.clone()),
        ParamSql::Real(x) => ParamSql::Real(x.clone()),
    }
}

/// The filter's parameters followed by `extra`.
fn params_mas(params: &Vec<ParamSql>, extra: ParamSql) -> (r: Vec<ParamSql>)
    ensures
        vistas_params(r@) == vistas_params(params@).push(extra@),
{
    let mut r: Vec<ParamSql> = Vec::new();
    let mut i: usize = 0;
    while i < params.len()
        invariant
            i <= params.len(),
            vistas_params(r@) =~= vistas_params(params@.take(i as int)),
        decreases params.len() - i,
    {
        let ghost antes = r@;
        r.push(copiar_param(&params[i]));
        assert(vistas_params(r@) =~= vistas_params(antes).push(params@[i as int]@));
        assert(params@.take(i + 1) =~= params@.take(i as int).push(params@[i as int]));
        i = i + 1;
    }
    assert(params@.take(params.len() as int) =~= params@);
    let ghost antes = r@;
    r.push(extra);
    assert(vistas_params(r@) =~= vistas_params(antes).push(r@.last()@));
    r
}

/// The status query of a clean status column and the values of its `?`s:
/// the query counts the filtered rows whose status (the column, qualified
/// as `modo` asks), in upper case, is like the pattern; the values are the
/// filter's, then the pattern in upper case between `%` signs, bound as it
/// is. None without a clean status column.
pub fn consulta_estado(
    from: &str,
    w: &str,
    params: &Vec<ParamSql>,
    status_col: Option<&str>,
    pattern: &str,
    modo: Option<&ModoOptimizacion>,
) -> (r: Option<(String, Vec<ParamSql>)>)
    ensures
        r is Some <==> estado_valido(status_col),
        r matches Some((sql, ps)) ==> (status_col matches Some(c) && sql@ == sql_estado(
            from@,
            w@,
            spec_col_prefix(modo) + spec_safe_ident(c@),
        ) && vistas_params(ps@) == vistas_params(params@).push(
            ParamVista::Texto("%"@ + mayusculas_de(pattern@) + "%"@),
        )),
{
    let col = match status_col {
        Some(c) => c,
        None => return None,
    };
    if !clean_identifier(col) {
        return None;
    }
    let mut sc = String::from_str(col_prefix(modo));
    sc.append(safe_ident(col).as_str());
    let sql = texto_estado(from, w, sc.as_str());
    let ps = params_mas(params, ParamSql::Texto(patron_estado(pattern)));
    Some((sql, ps))
}

/// What a count query's first row gives: its first cell, an integer, as
/// `u64`; `TipoInvalido` when it is not one; the query's error when it has
/// no first row.
pub open spec fn conteo_de_respuesta(r: Result<Vec<ValorSql>, ErrorBd>) -> Result<u64, ErrorBd> {
    match r {
        Ok(v) => match conteo_en(v@) {
            Some(n) => Ok(n),
            None => Err(ErrorBd::TipoInvalido),
        },
        Err(e) => Err(e),
    }
}

/// `r` is the count that the query `(sql, ps)` answers: SQLite's error when
/// it cannot be run, else `conteo_de_respuesta` of its first row.
pub open spec fn conteo_respondido(sql: Seq<char>, ps: Seq<ParamVista>, r: Result<u64, ErrorBd>) -> bool {
    ||| (r matches Err(e) && e is Sqlite)
    ||| exists|f: Filas| #[trigger] f.consulta() == (sql, ps) && r == conteo_de_respuesta(primera_de(f))
}

/// Reads the count of a query's first row.
fn contar_respuesta(sql: &str, ps: &[ParamSql], fila: Result<Vec<ValorSql>, ErrorBd>) -> (r: Result<u64, ErrorBd>)
    requires
        fila_respondida(sql@, vistas_params(ps@), fila),
    ensures
        conteo_respondido(sql@, vistas_params(ps@), r),
{
    match fila {
        Ok(v) => {
            let r = conteo_de_fila(&v);
            proof {
                let f = choose|f: Filas| #[trigger] f.consulta() == (sql@, vistas_params(ps@)) && Ok::<Vec<ValorSql>, ErrorBd>(v) == primera_de(f);
                assert(r == conteo_de_respuesta(primera_de(f)));
            }
            r
        },
        Err(e) => {
            proof {
                if !(e is Sqlite) {
                    let f = choose|f: Filas| #[trigger] f.consulta() == (sql@, vistas_params(ps@)) && Err::<Vec<ValorSql>, ErrorBd>(e) == primera_de(f);
                    assert(Err::<u64, ErrorBd>(e) == conteo_de_respuesta(primera_de(f)));
                }
            }
            Err(e)
        },
    }
}

/// The pattern bound to the status query: upper-cased between `%` signs.
pub open spec fn patron_de(pattern: Seq<char>) -> Seq<char> {
    "%"@ + mayusculas_de(pattern) + "%"@
}

/// The number of filtered rows whose status, in upper case, contains
/// `pattern` in upper case: the count that the query of `consulta_estado`
/// gives; 0 without a (clean) status column.
pub fn contar_por_estado(
    conn: &rusqlite::Connection,
    from: &str,
    w: &str,
    params: &Vec<ParamSql>,
    status_col: Option<&str>,
    pattern: &str,
    modo: Option<&ModoOptimizacion>,
) -> (r: Result<u64, ErrorBd>)
    ensures
        !estado_valido(status_col) ==> r == Ok::<u64, ErrorBd>(0),
        estado_valido(status_col) ==> (status_col matches Some(c) && conteo_respondido(
            sql_estado(from@, w@, spec_col_prefix(modo) + spec_safe_ident(c@)),
            vistas_params(params@).push(ParamVista::Texto(patron_de(pattern@))),
            r,
        )),
{
    match consulta_estado(from, w, params, status_col, pattern, modo) {
        None => Ok(0),
        Some((sql, ps)) => {
            let fila = consultar_fila(conn, sql.as_str(), ps.as_slice());
            contar_respuesta(sql.as_str(), ps.as_slice(), fila)
        },
    }
}

/// The rows a page shows: `page_size` of them, at most five hundred.
pub open spec fn limite_pagina(page_size: int) -> int {
    if page_size < constants::TABLE_LIMIT {
        page_size
    } else {
        constants::TABLE_LIMIT as int
    }
}

/// The rows before page `page` (pages count from 1; page 0 is the first).
pub open spec fn desplazamiento(page: int, page_size: int) -> int {
    if page > 0 {
        (page - 1) * page_size
    } else {
        0
    }
}

/// Consecutive pages ask for adjacent windows of the same ordered rows: the
/// page after page `p` starts exactly where page `p`'s window of
/// `limite_pagina` rows ends, so (in the order that the page query's
/// `ORDER BY` fixes) no row is asked for twice and none is skipped.
pub proof fn ley_paginas_contiguas(p: int, s: int)
    requires
        1 <= p,
        1 <= s <= constants::TABLE_LIMIT,
    ensures
        limite_pagina(s) == s,
        desplazamiento(p + 1, s) == desplazamiento(p, s) + limite_pagina(s),
{
    assert(p * s == (p - 1) * s + s) by (nonlinear_arith);
}

/// The page query: the selected columns of the filtered rows in the order
/// of all its columns, `limite_pagina` of them after `desplazamiento`.
pub fn consulta_pagina(
    sel: &str,
    from: &str,
    w: &str,
    ncols: usize,
    page: usize,
    page_size: usize,
) -> (r: String)
    requires
        desplazamiento(page as int, page_size as int) <= usize::MAX,
    ensures
        r@ == sql_tabla(
            sel@,
            from@,
            w@,
            ncols as nat,
            limite_pagina(page_size as int) as nat,
            desplazamiento(page as int, page_size as int) as nat,
        ),
{
    let offset: usize = if page > 0 { (page - 1) * page_size } else { 0 };
    let limit: usize = if page_size < constants::TABLE_LIMIT { page_size } else { constants::TABLE_LIMIT };
    texto_tabla(sel, from, w, ncols as u64, limit as u64, offset as u64)
}

/// A count read from the first cell of a row, when it is an integer.
pub open spec fn conteo_en(f: Seq<ValorSql>) -> Option<u64> {
    if f.len() > 0 && f[0] is Entero {
        Some(f[0]->Entero_0 as u64)
    } else {
        None
    }
}

/// `d` is the dashboard that the rows give: `total_general` from the first
/// row of the filtered count, `total_matching` from that of the count of all
/// rows, the status counts as given, the groups from the group query's rows,
/// each page row as one text per column.
pub open spec fn dashboard_de_filas(
    d: DashboardData,
    fila_general: Seq<ValorSql>,
    fila_total: Seq<ValorSql>,
    pendientes: u64,
    firmados: u64,
    filas_grupos: Seq<Vec<ValorSql>>,
    filas_tabla: Seq<Vec<ValorSql>>,
    page: usize,
    page_size: usize,
    grupo_actual: Seq<char>,
    columnas: Seq<Seq<char>>,
) -> bool {
    &&& conteo_en(fila_general) == Some(d.total_general)
    &&& conteo_en(fila_total) == Some(d.total_matching)
    &&& d.total_pendientes == pendientes && d.total_firmados == firmados
    &&& d.current_page == page && d.page_size == page_size
    &&& vista_grupos(d.por_grupo@) == grupos_de(filas_grupos)
    &&& d.grupo_actual@ == grupo_actual
    &&& vista_textos(d.columnas_tabla@) == columnas
    &&& d.tabla.len() == filas_tabla.len()
    &&& forall|k: int|
        0 <= k < d.tabla.len() ==> vista_textos((#[trigger] d.tabla@[k])@) == fila_mostrada(
            filas_tabla[k]@,
            columnas.len(),
        ) && d.tabla@[k].len() == columnas.len()
}

/// The dashboard from the rows of its queries (see `dashboard_de_filas`).
/// `TipoInvalido` when a count row does not start with an integer.
pub fn armar_dashboard(
    fila_general: &Vec<ValorSql>,
    fila_total: &Vec<ValorSql>,
    pendientes: u64,
    firmados: u64,
    filas_grupos: &Vec<Vec<ValorSql>>,
    filas_tabla: &Vec<Vec<ValorSql>>,
    page: usize,
    page_size: usize,
    grupo_actual: String,
    columnas: Vec<String>,
) -> (r: Result<DashboardData, ErrorBd>)
    ensures
        r is Ok <==> conteo_en(fila_general@) is Some && conteo_en(fila_total@) is Some,
        r matches Ok(d) ==> dashboard_de_filas(
            d,
            fila_general@,
            fila_total@,
            pendientes,
            firmados,
            filas_grupos@,
            filas_tabla@,
            page,
            page_size,
            grupo_actual@,
            vista_textos(columnas@),
        ),
        r matches Err(e) ==> e is TipoInvalido,
{
    let total_general = match conteo_de_fila(fila_general) {
        Ok(n) => n,
        Err(e) => return Err(e),
    };
    let total_matching = match conteo_de_fila(fila_total) {
        Ok(n) => n,
        Err(e) => return Err(e),
    };
    let por_grupo = grupos_de_filas(filas_grupos);
    let tabla = filas_de_tabla(filas_tabla, columnas.len());
    let d = DashboardData {
        total_pendientes: pendientes,
        total_firmados: firmados,
        total_general,
        total_matching,
        current_page: page,
        page_size,
        por_grupo,
        grupo_actual,
        tabla,
        columnas_tabla: columnas,
    };
    assert(vista_textos(d.columnas_tabla@).len() == d.columnas_tabla.len());
    Ok(d)
}

/// Whether a group-by column is given and is a clean name.
pub open spec fn grupo_valido(group_by: Option<&str>) -> bool {
    match group_by {
        Some(g) => spec_clean_identifier(g@),
        None => false,
    }
}

/// The name of the group-by column, or nothing.
pub open spec fn grupo_actual_de(group_by: Option<&str>) -> Seq<char> {
    match group_by {
        Some(g) => g@,
        None => Seq::empty(),
    }
}

/// Whether the dashboard is the empty one.
pub open spec fn es_vacio(d: DashboardData) -> bool {
    &&& d.total_pendientes == 0 && d.total_firmados == 0
    &&& d.total_general == 0 && d.total_matching == 0
    &&& d.current_page == 1 && d.page_size == constants::DEFAULT_PAGE_SIZE
    &&& d.por_grupo.len() == 0 && d.grupo_actual@.len() == 0
    &&& d.tabla.len() == 0 && d.columnas_tabla.len() == 0
}

/// A pattern given, or the default one.
pub open spec fn patron_o(p: Option<&str>, defecto: &str) -> Seq<char> {
    match p {
        Some(x) => x@,
        None => defecto@,
    }
}

/// The count of rows whose status is like `patron`: the answer of the
/// status query over `from` and `w` with values `ps` and the pattern, for a
/// clean status column; 0 without one.
pub open spec fn estado_respondido(
    from: Seq<char>,
    w: Seq<char>,
    ps: Seq<ParamVista>,
    modo: Option<&ModoOptimizacion>,
    status_col: Option<&str>,
    patron: Seq<char>,
    n: u64,
) -> bool {
    match status_col {
        Some(c) => if spec_clean_identifier(c@) {
            conteo_respondido(
                sql_estado(from, w, spec_col_prefix(modo) + spec_safe_ident(c@)),
                ps.push(ParamVista::Texto(patron_de(patron))),
                Ok(n),
            )
        } else {
            n == 0
        },
        None => n == 0,
    }
}

/// The rows of a page, each as one text per column.
pub open spec fn tabla_mostrada(tabla: Seq<Vec<String>>, filas: Seq<Vec<ValorSql>>, n: nat) -> bool {
    &&& tabla.len() == filas.len()
    &&& forall|k: int|
        0 <= k < tabla.len() ==> vista_textos((#[trigger] tabla[k])@) == fila_mostrada(filas[k]@, n)
            && tabla[k].len() == n
}

/// `d` holds what the dashboard's queries answered, with the conditions `cs`
/// of the filters: `total_general` the count of the filtered rows,
/// `total_matching` that of all rows, `total_pendientes` and
/// `total_firmados` the counts of the status queries with the patterns
/// `pp` and `sp`, `por_grupo` the groups of the group query, `tabla` the
/// rows of the page query over the columns `columnas_tabla`.
pub open spec fn respuestas_dashboard(
    d: DashboardData,
    vista: Seq<char>,
    modo: Option<&ModoOptimizacion>,
    cs: Seq<(Seq<char>, ParamVista)>,
    group_by: Option<&str>,
    status_col: Option<&str>,
    pp: Seq<char>,
    sp: Seq<char>,
    page: usize,
    page_size: usize,
) -> bool {
    let w = spec_where(cs);
    let ps = valores_de(cs);
    let from = spec_from(vista, modo);
    let cols = vista_textos(d.columnas_tabla@);
    &&& conteo_respondido(sql_conteo(from, w), ps, Ok(d.total_general))
    &&& conteo_respondido(sql_total(from), Seq::empty(), Ok(d.total_matching))
    &&& estado_respondido(from, w, ps, modo, status_col, pp, d.total_pendientes)
    &&& estado_respondido(from, w, ps, modo, status_col, sp, d.total_firmados)
    &&& match group_by {
        Some(g) => if g@.len() > 0 && spec_clean_identifier(g@) {
            exists|f: Filas|
                #[trigger] f.consulta() == (sql_grupos(
                    from,
                    w,
                    spec_col_prefix(modo) + spec_safe_ident(g@),
                ), ps) && f.ejecutada() && vista_grupos(d.por_grupo@) == grupos_de(f.filas())
        } else {
            d.por_grupo.len() == 0
        },
        None => d.por_grupo.len() == 0,
    }
    &&& exists|f: Filas|
        #[trigger] f.consulta() == (sql_tabla(
            unir(columnas_select(modo, cols), ", "@),
            from,
            w,
            cols.len(),
            limite_pagina(page_size as int) as nat,
            desplazamiento(page as int, page_size as int) as nat,
        ), ps) && f.ejecutada() && tabla_mostrada(d.tabla@, f.filas(), cols.len())
}

proof fn lema_conteo_leido(sql: Seq<char>, ps: Seq<ParamVista>, fila: Vec<ValorSql>, n: u64)
    requires
        fila_respondida(sql, ps, Ok(fila)),
        conteo_en(fila@) == Some(n),
    ensures
        conteo_respondido(sql, ps, Ok(n)),
{
    let f = choose|f: Filas| #[trigger] f.consulta() == (sql, ps) && Ok::<Vec<ValorSql>, ErrorBd>(fila) == primera_de(f);
    assert(Ok::<u64, ErrorBd>(n) == conteo_de_respuesta(primera_de(f)));
}

/// The dashboard of `vista` under `filtros`:
/// - an empty or unclean view name gives the empty dashboard;
/// - `total_general` counts the filtered rows and `total_matching` all rows,
///   read from `from_clause`;
/// - `total_pendientes` and `total_firmados` count the filtered rows whose
///   status contains the pending and signed patterns (`PEND` and `FIRM` by
///   default), 0 without a clean status column;
/// - `por_grupo` holds the fifty largest groups of a clean group-by column
///   among the filtered rows with a non-empty value (see
///   `grupos_de_filas`), each text once, none without one;
/// - `tabla` holds page `page` of `page_size` filtered rows (at most five
///   hundred), in the order of all their columns, each as one text per
///   column of `columnas_tabla` (see `filas_de_tabla`).
/// The queries are those of `texto_conteo`, `texto_total`,
/// `consulta_estado`, `texto_grupos` and `consulta_pagina`; the dashboard is
/// what `armar_dashboard` makes of their rows. `Err` when a query fails.
pub fn dashboard(
    conn: &rusqlite::Connection,
    filtros: &Vec<(String, FiltroValor)>,
    vista: &str,
    group_by: Option<&str>,
    page: usize,
    page_size: usize,
    status_col: Option<&str>,
    modo: Option<&ModoOptimizacion>,
    pending_pattern: Option<&str>,
    signed_pattern: Option<&str>,
) -> (r: Result<DashboardData, ErrorBd>)
    requires
        (if page > 0 { page - 1 } else { 0int }) * page_size <= usize::MAX,
    ensures
        !(vista@.len() > 0 && spec_clean_identifier(vista@)) ==> (r matches Ok(d) && es_vacio(d)),
        r matches Err(e) ==> vista@.len() > 0 && spec_clean_identifier(vista@) && (e is Sqlite
            || e is SinFilas || e is TipoInvalido),
        vista@.len() > 0 && spec_clean_identifier(vista@) ==> (r matches Ok(d) ==> {
            &&& exists|raw: Vec<ColumnaRaw>|
                #[trigger] columnas_respondidas_de(vista@, Ok::<Vec<ColumnaRaw>, ErrorBd>(raw))
                    && vista_textos(d.columnas_tabla@) == nombres_columnas(raw@)
            &&& d.current_page == page
            &&& d.page_size == page_size
            &&& d.grupo_actual@ == grupo_actual_de(group_by)
            &&& !grupo_valido(group_by) ==> d.por_grupo.len() == 0
            &&& !estado_valido(status_col) ==> d.total_pendientes == 0 && d.total_firmados == 0
            &&& forall|k: int| 0 <= k < d.tabla.len() ==> (#[trigger] d.tabla@[k]).len()
                == d.columnas_tabla.len()
            &&& forall|i: int, j: int|
                0 <= i < j < d.por_grupo.len() ==> (#[trigger] d.por_grupo@[i]).0@
                    != (#[trigger] d.por_grupo@[j]).0@
            &&& exists|pks: Seq<(Seq<char>, Seq<char>)>|
                pks_admisibles(pks, true) && #[trigger] respuestas_dashboard(
                    d,
                    vista@,
                    modo,
                    clausulas(spec_col_prefix(modo), filtros@, pks),
                    group_by,
                    status_col,
                    patron_o(pending_pattern, constants::DEFAULT_PENDING_PATTERN),
                    patron_o(signed_pattern, constants::DEFAULT_SIGNED_PATTERN),
                    page,
                    page_size,
                )
        }),
{
    if vista.unicode_len() == 0 || !clean_identifier(vista) {
        return Ok(DashboardData::default());
    }
    let cols = match obtener_columnas(conn, vista) {
        Ok(c) => c,
        Err(e) => return Err(e),
    };
    let mut col_names: Vec<String> = Vec::new();
    let mut i: usize = 0;
    while i < cols.len()
        invariant
            i <= cols.len(),
            col_names.len() == i,
            forall|k: int| 0 <= k < i ==> (#[trigger] col_names@[k])@ == cols@[k].name@,
        decreases cols.len() - i,
    {
        col_names.push(cols[i].name.clone());
        i = i + 1;
    }
    assert(vista_textos(col_names@) =~= nombres_columnas(cols@));
    let ghost gcols = cols;
    let (where_sql, params) = construir_where(filtros, modo, Some(conn));
    let from = from_clause(vista, modo);

    let sql_conteo_t = texto_conteo(from.as_str(), where_sql.as_str());
    let fila_general = match consultar_fila(conn, sql_conteo_t.as_str(), params.as_slice()) {
        Ok(f) => f,
        Err(e) => return Err(e),
    };
    let sql_total_t = texto_total(from.as_str());
    let sin_valores: Vec<ParamSql> = Vec::new();
    let fila_total = match consultar_fila(conn, sql_total_t.as_str(), sin_valores.as_slice()) {
        Ok(f) => f,
        Err(e) => return Err(e),
    };
    let ghost texto_conteo_v = sql_conteo_t@;
    let ghost texto_total_v = sql_total_t@;
    assert(vistas_params(sin_valores@) =~= Seq::<ParamVista>::empty());

    let pending_pat = match pending_pattern {
        Some(p) => p,
        None => constants::DEFAULT_PENDING_PATTERN,
    };
    let signed_pat = match signed_pattern {
        Some(p) => p,
        None => constants::DEFAULT_SIGNED_PATTERN,
    };
    let pendientes = contar_por_estado(conn, from.as_str(), where_sql.as_str(), &params, status_col, pending_pat, modo)?;
    let firmados = contar_por_estado(conn, from.as_str(), where_sql.as_str(), &params, status_col, signed_pat, modo)?;

    let grupo_actual = match group_by {
        Some(g) => String::from_str(g),
        None => String::new(),
    };
    let filas_grupos: Filas = if grupo_actual.unicode_len() > 0 && clean_identifier(grupo_actual.as_str()) {
        let mut sc = String::from_str(col_prefix(modo));
        sc.append(safe_ident(grupo_actual.as_str()).as_str());
        let sql = texto_grupos(from.as_str(), where_sql.as_str(), sc.as_str());
        match consultar(conn, sql.as_str(), params.as_slice()) {
            Ok(f) => f,
            Err(e) => return Err(e),
        }
    } else {
        Filas::nuevas(Vec::new(), None)
    };
    let ghost g_grupos = filas_grupos;
    let filas_grupos = filas_grupos.en_lista();
    assert(!grupo_valido(group_by) ==> filas_grupos@.len() == 0);
    proof {
        ley_grupos_sin_repetir(filas_grupos@);
    }

    let sel = select_list(modo, &col_names);
    let sql = consulta_pagina(sel.as_str(), from.as_str(), where_sql.as_str(), col_names.len(), page, page_size);
    let filas = match consultar(conn, sql.as_str(), params.as_slice()) {
        Ok(f) => f,
        Err(e) => return Err(e),
    };
    let r = armar_dashboard(
        &fila_general,
        &fila_total,
        pendientes,
        firmados,
        &filas_grupos,
        filas.lista(),
        page,
        page_size,
        grupo_actual,
        col_names,
    );
    match r {
        Ok(d) => {
            proof {
                assert forall|i: int, j: int| 0 <= i < j < d.por_grupo.len() implies (#[trigger] d.por_grupo@[i]).0@
                    != (#[trigger] d.por_grupo@[j]).0@ by {
                    assert(vista_grupos(d.por_grupo@)[i] == grupos_de(filas_grupos@)[i]);
                    assert(vista_grupos(d.por_grupo@)[j] == grupos_de(filas_grupos@)[j]);
                }
                if filas_grupos@.len() == 0 {
                    assert(vista_grupos(d.por_grupo@).len() == 0);
                }
                let pks = choose|pks: Seq<(Seq<char>, Seq<char>)>|
                    {
                        &&& pks_admisibles(pks, true)
                        &&& where_sql@ == spec_where(clausulas(spec_col_prefix(modo), filtros@, pks))
                        &&& vistas_params(params@) == valores_de(clausulas(spec_col_prefix(modo), filtros@, pks))
                    };
                assert(columnas_respondidas_de(vista@, Ok::<Vec<ColumnaRaw>, ErrorBd>(gcols)));
                lema_conteo_leido(texto_conteo_v, vistas_params(params@), fila_general, d.total_general);
                lema_conteo_leido(texto_total_v, Seq::empty(), fila_total, d.total_matching);
                assert(respuestas_dashboard(
                    d,
                    vista@,
                    modo,
                    clausulas(spec_col_prefix(modo), filtros@, pks),
                    group_by,
                    status_col,
                    patron_o(pending_pattern, constants::DEFAULT_PENDING_PATTERN),
                    patron_o(signed_pattern, constants::DEFAULT_SIGNED_PATTERN),
                    page,
                    page_size,
                ));
            }
            Ok(d)
        },
        Err(e) => Err(e),
    }
}

// ── one value for each placeholder ──────────────────────────────────────────

/// The number of `?` in a text.
pub open spec fn interrogaciones(s: Seq<char>) -> nat
    decreases s.len(),
{
    if s.len() == 0 {
        0
    } else {
        interrogaciones(s.drop_last()) + if s.last() == '?' {
            1nat
        } else {
            0nat
        }
    }
}

/// No `?` in a text.
pub open spec fn sin_interrogacion(s: Seq<char>) -> bool {
    forall|i: int| 0 <= i < s.len() ==> s[i] != '?'
}

/// None of the names that a filter puts into the text holds a `?`.
pub open spec fn nombres_sin_interrogacion(f: (String, FiltroValor)) -> bool {
    &&& sin_interrogacion(f.0@)
    &&& f.1 matches FiltroValor::CategoricalFK { col_original, tabla_catalogo, col_nombre, .. } ==> {
        &&& sin_interrogacion(col_original@)
        &&& sin_interrogacion(tabla_catalogo@)
        &&& sin_interrogacion(col_nombre@)
    }
}

proof fn lema_interrogaciones_suma(a: Seq<char>, b: Seq<char>)
    ensures
        interrogaciones(a + b) == interrogaciones(a) + interrogaciones(b),
    decreases b.len(),
{
    if b.len() == 0 {
        assert(a + b =~= a);
    } else {
        lema_interrogaciones_suma(a, b.drop_last());
        assert((a + b).drop_last() =~= a + b.drop_last());
    }
}

proof fn lema_sin_interrogacion(s: Seq<char>)
    requires
        sin_interrogacion(s),
    ensures
        interrogaciones(s) == 0,
    decreases s.len(),
{
    if s.len() > 0 {
        lema_sin_interrogacion(s.drop_last());
    }
}

/// A text whose only `?` stands at `k`.
proof fn lema_una_interrogacion(s: Seq<char>, k: int)
    requires
        0 <= k < s.len(),
        s[k] == '?',
        forall|i: int| 0 <= i < s.len() && i != k ==> s[i] != '?',
    ensures
        interrogaciones(s) == 1,
{
    let a = s.take(k);
    let b = s.skip(k + 1);
    assert(s =~= a + seq!['?'] + b);
    assert forall|i: int| 0 <= i < a.len() implies a[i] != '?' by {
        assert(a[i] == s[i]);
    }
    lema_sin_interrogacion(a);
    assert forall|i: int| 0 <= i < b.len() implies b[i] != '?' by {
        assert(b[i] == s[k + 1 + i]);
    }
    lema_sin_interrogacion(b);
    lema_interrogaciones_suma(a + seq!['?'], b);
    lema_interrogaciones_suma(a, seq!['?']);
    let q = seq!['?'];
    assert(q.drop_last() =~= Seq::<char>::empty());
    assert(interrogaciones(q.drop_last()) == 0);
    assert(q.last() == '?');
    assert(interrogaciones(q) == 1);
}

proof fn lema_nombre_sin_interrogacion(p: Seq<char>, n: Seq<char>)
    requires
        sin_interrogacion(p),
        sin_interrogacion(n),
    ensures
        interrogaciones(p + spec_safe_ident(n)) == 0,
{
    lema_safe_ident_sin_caracter(n, '?');
    lema_sin_interrogacion(p);
    lema_sin_interrogacion(spec_safe_ident(n));
    lema_interrogaciones_suma(p, spec_safe_ident(n));
}

/// `a + b` has as many `?` as `a` and `b` together, with `b` holding none.
proof fn lema_mas_sin(a: Seq<char>, b: Seq<char>)
    requires
        sin_interrogacion(b),
    ensures
        interrogaciones(a + b) == interrogaciones(a),
{
    lema_sin_interrogacion(b);
    lema_interrogaciones_suma(a, b);
}

/// The text of a comparison of `sc` (no `?` in it) with one `?`: the
/// literal `op` ends in its only `?` at `k`.
proof fn lema_comparacion(sc: Seq<char>, op: Seq<char>, k: int)
    requires
        interrogaciones(sc) == 0,
        0 <= k < op.len(),
        op[k] == '?',
        forall|i: int| 0 <= i < op.len() && i != k ==> op[i] != '?',
    ensures
        interrogaciones(sc + op) == 1,
{
    lema_una_interrogacion(op, k);
    lema_interrogaciones_suma(sc, op);
}

/// Each condition that one filter adds has exactly one `?`.
proof fn lema_clausulas_filtro(p: Seq<char>, n: Seq<char>, f: FiltroValor, pk: Seq<char>)
    requires
        sin_interrogacion(p),
        sin_interrogacion(n),
        sin_interrogacion(pk),
        f matches FiltroValor::CategoricalFK { col_original, tabla_catalogo, col_nombre, .. } ==> {
            &&& sin_interrogacion(col_original@)
            &&& sin_interrogacion(tabla_catalogo@)
            &&& sin_interrogacion(col_nombre@)
        },
    ensures
        forall|k: int|
            0 <= k < clausulas_filtro(p, n, f, pk).len() ==> interrogaciones(
                (#[trigger] clausulas_filtro(p, n, f, pk)[k]).0,
            ) == 1,
{
    let sc = p + spec_safe_ident(n);
    lema_nombre_sin_interrogacion(p, n);
    reveal_strlit(" = ?");
    reveal_strlit(" >= ?");
    reveal_strlit(" <= ?");
    reveal_strlit("CAST(");
    reveal_strlit(" AS TEXT) LIKE ?");
    reveal_strlit(" = (SELECT ");
    reveal_strlit(" FROM ");
    reveal_strlit(" WHERE ");
    reveal_strlit(" = ?)");
    match f {
        FiltroValor::Categorical { selected } => {
            lema_comparacion(sc, " = ?"@, 3);
        },
        FiltroValor::CategoricalFK { selected, col_original, tabla_catalogo, col_nombre } => {
            let a = p + spec_safe_ident(col_original@);
            lema_nombre_sin_interrogacion(p, col_original@);
            lema_mas_sin(a, " = (SELECT "@);
            let b = a + " = (SELECT "@;
            lema_mas_sin(b, pk);
            let c = b + pk;
            lema_mas_sin(c, " FROM "@);
            let d = c + " FROM "@;
            lema_safe_ident_sin_caracter(tabla_catalogo@, '?');
            lema_mas_sin(d, spec_safe_ident(tabla_catalogo@));
            let e = d + spec_safe_ident(tabla_catalogo@);
            lema_mas_sin(e, " WHERE "@);
            let g = e + " WHERE "@;
            lema_safe_ident_sin_caracter(col_nombre@, '?');
            lema_mas_sin(g, spec_safe_ident(col_nombre@));
            let h = g + spec_safe_ident(col_nombre@);
            lema_comparacion(h, " = ?)"@, 3);
        },
        FiltroValor::Date { desde, hasta } => {
            lema_comparacion(sc, " >= ?"@, 4);
            lema_comparacion(sc, " <= ?"@, 4);
        },
        FiltroValor::Numeric { min, max, .. } => {
            lema_comparacion(sc, " >= ?"@, 4);
            lema_comparacion(sc, " <= ?"@, 4);
        },
        FiltroValor::TextSearch { query } => {
            lema_sin_interrogacion("CAST("@);
            lema_interrogaciones_suma("CAST("@, sc);
            lema_comparacion("CAST("@ + sc, " AS TEXT) LIKE ?"@, 15);
        },
    }
}

/// Each condition of all the filters has exactly one `?`.
proof fn lema_clausulas(p: Seq<char>, filtros: Seq<(String, FiltroValor)>, pks: Seq<(Seq<char>, Seq<char>)>)
    requires
        sin_interrogacion(p),
        forall|k: int| 0 <= k < filtros.len() ==> nombres_sin_interrogacion(#[trigger] filtros[k]),
        forall|k: int| 0 <= k < pks.len() ==> sin_interrogacion((#[trigger] pks[k]).1),
    ensures
        forall|k: int|
            0 <= k < clausulas(p, filtros, pks).len() ==> interrogaciones(
                (#[trigger] clausulas(p, filtros, pks)[k]).0,
            ) == 1,
    decreases filtros.len(),
{
    if filtros.len() > 0 {
        let ini = filtros.drop_last();
        assert forall|k: int| 0 <= k < ini.len() implies nombres_sin_interrogacion(#[trigger] ini[k]) by {
            assert(ini[k] == filtros[k]);
        }
        lema_clausulas(p, ini, pks);
        let (n, f) = filtros.last();
        assert(nombres_sin_interrogacion(filtros[filtros.len() - 1]));
        lema_pk_sin_interrogacion(pks, f);
        lema_clausulas_filtro(p, n@, f, pk_de_filtro(pks, f));
        let a = clausulas(p, ini, pks);
        let b = clausulas_filtro(p, n@, f, pk_de_filtro(pks, f));
        assert forall|k: int| 0 <= k < (a + b).len() implies interrogaciones((#[trigger] (a + b)[k]).0) == 1 by {
            if k >= a.len() {
                assert((a + b)[k] == b[k - a.len()]);
            }
        }
    }
}

proof fn lema_pk_sin_interrogacion(pks: Seq<(Seq<char>, Seq<char>)>, f: FiltroValor)
    requires
        forall|k: int| 0 <= k < pks.len() ==> sin_interrogacion((#[trigger] pks[k]).1),
    ensures
        sin_interrogacion(pk_de_filtro(pks, f)),
{
    match f {
        FiltroValor::CategoricalFK { tabla_catalogo, .. } => lema_pk_para(pks, tabla_catalogo@),
        _ => {},
    }
}

proof fn lema_pk_para(pks: Seq<(Seq<char>, Seq<char>)>, t: Seq<char>)
    requires
        forall|k: int| 0 <= k < pks.len() ==> sin_interrogacion((#[trigger] pks[k]).1),
    ensures
        sin_interrogacion(pk_para(pks, t)),
    decreases pks.len(),
{
    if pks.len() == 0 {
        reveal_strlit("rowid");
        assert(constants::DEFAULT_PK_FALLBACK@ == "rowid"@);
    } else if pks[0].0 != t {
        let r = pks.drop_first();
        assert forall|k: int| 0 <= k < r.len() implies sin_interrogacion((#[trigger] r[k]).1) by {
            assert(r[k] == pks[k + 1]);
        }
        lema_pk_para(r, t);
    }
}

/// The `?` of texts joined with a separator that holds none: the sum of
/// theirs.
pub open spec fn suma_interrogaciones(ts: Seq<Seq<char>>) -> nat
    decreases ts.len(),
{
    if ts.len() == 0 {
        0
    } else {
        suma_interrogaciones(ts.drop_last()) + interrogaciones(ts.last())
    }
}

proof fn lema_unir(ts: Seq<Seq<char>>, sep: Seq<char>)
    requires
        sin_interrogacion(sep),
    ensures
        interrogaciones(unir(ts, sep)) == suma_interrogaciones(ts),
    decreases ts.len(),
{
    if ts.len() == 1 {
        assert(ts.drop_last() =~= Seq::<Seq<char>>::empty());
        assert(suma_interrogaciones(ts) == suma_interrogaciones(ts.drop_last()) + interrogaciones(ts.last()));
        assert(unir(ts, sep) == ts[0]);
    } else if ts.len() > 1 {
        lema_unir(ts.drop_last(), sep);
        lema_mas_sin(unir(ts.drop_last(), sep), sep);
        lema_interrogaciones_suma(unir(ts.drop_last(), sep) + sep, ts.last());
    }
}

proof fn lema_suma_unos(ts: Seq<Seq<char>>)
    requires
        forall|k: int| 0 <= k < ts.len() ==> interrogaciones(#[trigger] ts[k]) == 1,
    ensures
        suma_interrogaciones(ts) == ts.len(),
    decreases ts.len(),
{
    if ts.len() > 0 {
        let r = ts.drop_last();
        assert forall|k: int| 0 <= k < r.len() implies interrogaciones(#[trigger] r[k]) == 1 by {
            assert(r[k] == ts[k]);
        }
        lema_suma_unos(r);
    }
}

/// Every `?` of the `WHERE` text has its value: when no name and no key
/// column holds a `?`, the text has exactly as many `?` as there are values,
/// one condition (and one `?`) for each.
pub proof fn ley_un_valor_por_interrogacion(
    p: Seq<char>,
    filtros: Seq<(String, FiltroValor)>,
    pks: Seq<(Seq<char>, Seq<char>)>,
)
    requires
        sin_interrogacion(p),
        forall|k: int| 0 <= k < filtros.len() ==> nombres_sin_interrogacion(#[trigger] filtros[k]),
        forall|k: int| 0 <= k < pks.len() ==> sin_interrogacion((#[trigger] pks[k]).1),
    ensures
        interrogaciones(spec_where(clausulas(p, filtros, pks))) == valores_de(
            clausulas(p, filtros, pks),
        ).len(),
        (spec_where(clausulas(p, filtros, pks)).len() == 0) == (valores_de(clausulas(p, filtros, pks)).len() == 0),
        valores_de(clausulas(p, filtros, pks)).len() > 0 ==> spec_where(clausulas(p, filtros, pks)).take(6)
            == "WHERE "@,
{
    reveal_strlit("WHERE ");
    let cs = clausulas(p, filtros, pks);
    lema_clausulas(p, filtros, pks);
    let ts = textos_de(cs);
    assert forall|k: int| 0 <= k < ts.len() implies interrogaciones(#[trigger] ts[k]) == 1 by {
        assert(ts[k] == cs[k].0);
    }
    lema_suma_unos(ts);
    if cs.len() > 0 {
        reveal_strlit(" AND ");
        assert(spec_where(cs).take(6) =~= "WHERE "@);
        lema_unir(ts, " AND "@);
        lema_sin_interrogacion("WHERE "@);
        lema_interrogaciones_suma("WHERE "@, unir(ts, " AND "@));
    }
}

/// The same for the key columns that `construir_where` looks up: when no
/// name holds a `?` and no primary key that a catalogue's column list
/// answers holds one (`rowid` holds none), the `WHERE` text has exactly as
/// many `?` as there are values.
pub proof fn ley_un_valor_por_interrogacion_con_claves(
    p: Seq<char>,
    filtros: Seq<(String, FiltroValor)>,
    pks: Seq<(Seq<char>, Seq<char>)>,
    con_conexion: bool,
)
    requires
        sin_interrogacion(p),
        forall|k: int| 0 <= k < filtros.len() ==> nombres_sin_interrogacion(#[trigger] filtros[k]),
        pks_admisibles(pks, con_conexion),
        forall|k: int, f: Filas|
            0 <= k < pks.len() && #[trigger] f.consulta() == (sql_table_info((#[trigger] pks[k]).0), Seq::<ParamVista>::empty())
                && f.ejecutada() ==> sin_interrogacion(spec_pk_de_filas(f.filas())),
    ensures
        interrogaciones(spec_where(clausulas(p, filtros, pks))) == valores_de(
            clausulas(p, filtros, pks),
        ).len(),
        (spec_where(clausulas(p, filtros, pks)).len() == 0) == (valores_de(clausulas(p, filtros, pks)).len() == 0),
{
    reveal_strlit("rowid");
    assert forall|k: int| 0 <= k < pks.len() implies sin_interrogacion((#[trigger] pks[k]).1) by {
        if con_conexion {
            let f = choose|f: Filas|
                #[trigger] f.consulta() == (sql_table_info(pks[k].0), Seq::<ParamVista>::empty())
                    && pks[k].1 == pk_o_respaldo(f, constants::DEFAULT_PK_FALLBACK@);
            if f.ejecutada() {
                assert(sin_interrogacion(spec_pk_de_filas(f.filas())));
            }
        }
    }
    ley_un_valor_por_interrogacion(p, filtros, pks);
}

} // verus!
