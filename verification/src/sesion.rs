//! The decisions of the dashboard session: the list of tables and views to
//! choose from, what selecting a table sets up, the initial filter values,
//! the order of the chart's groups, paging and the calendar's months.

use vstd::prelude::*;
use crate::db::analysis::{
    analizar_columna, columna_respondida, detectar_columna_estado, eleccion_de_estado,
    extraer_filtros_info, filtros_de, forma_de_info, lema_tipos_distintos, medidas_respondidas,
    ordenar_filtros, vistas_filtros, MedidaEstado,
};
use crate::db::constants::{self, AnalyseConfig};
use crate::db::dashboard::{seleccion_activa, vista_grupos};
use crate::db::explorer::{
    columna_de_vista, columnas_de_vista, detectar_patron_optimizable, filtros_hallados,
    patron_respondido, todas_de_vista,
};
use crate::db::schema::{
    analizar_foreign_keys, columnas_respondidas_de, fks_respondidas, listar_tablas, listar_vistas,
    nombres_respondidos, obtener_columnas, SQL_TABLAS, SQL_VISTAS,
};
use crate::db::sqlite::{ErrorBd, Real};
use crate::db::types::{ColumnaInfo, ColumnaRaw, FiltroInfo, FiltroValor, FkInfo, ModoOptimizacion, SchemaMetadata};
use crate::db::utils::{display_name, spec_clean_identifier, spec_display_name};
use crate::orden::{lema_menor_total, lema_menor_transitivo, menor_lex, menor_lex_exec};
use crate::texto::{parse_usize, spec_parse_usize, unir, unir_textos, vista_textos};

verus! {

/// What the dashboard is being exported as.
pub enum ExportFormat {
    Pdf,
    Pptx,
}

/// What the charts draw: the groups with their sizes.
pub struct ChartsData<'a> {
    pub por_grupo: &'a Vec<(String, u64)>,
}

// ── tables and views ───────────────────────────────────────────────────────

/// Each text comes strictly before the next: sorted, none twice.
pub open spec fn estrictamente_ordenados(s: Seq<Seq<char>>) -> bool {
    forall|i: int, j: int| 0 <= i < j < s.len() ==> menor_lex(#[trigger] s[i], #[trigger] s[j])
}

proof fn lema_insertar_en_orden(s: Seq<Seq<char>>, p: int, x: Seq<char>)
    requires
        estrictamente_ordenados(s),
        0 <= p <= s.len(),
        forall|j: int| 0 <= j < p ==> menor_lex(#[trigger] s[j], x),
        p < s.len() ==> menor_lex(x, s[p]),
    ensures
        estrictamente_ordenados(s.insert(p, x)),
{
    let t = s.insert(p, x);
    assert forall|i: int, j: int| 0 <= i < j < t.len() implies menor_lex(#[trigger] t[i], #[trigger] t[j]) by {
        if j < p {
            assert(t[i] == s[i] && t[j] == s[j]);
        } else if j == p {
            assert(t[i] == s[i] && t[j] == x);
        } else if i < p {
            assert(t[i] == s[i] && t[j] == s[j - 1]);
        } else if i == p {
            assert(t[i] == x && t[j] == s[j - 1]);
            if j - 1 > p {
                lema_menor_transitivo(x, s[p], s[j - 1]);
            }
        } else {
            assert(t[i] == s[i - 1] && t[j] == s[j - 1]);
        }
    }
}

/// Puts `x` in its place among strictly sorted texts, unless it is there.
fn insertar_en_orden(v: &mut Vec<String>, x: &String)
    requires
        estrictamente_ordenados(vista_textos(old(v)@)),
    ensures
        estrictamente_ordenados(vista_textos(final(v)@)),
        forall|t: Seq<char>|
            vista_textos(final(v)@).contains(t) <==> (vista_textos(old(v)@).contains(t) || t == x@),
{
    let ghost s = vista_textos(v@);
    let mut p: usize = 0;
    while p < v.len() && menor_lex_exec(v[p].as_str(), x.as_str())
        invariant
            p <= v.len(),
            s == vista_textos(v@),
            forall|j: int| 0 <= j < p ==> menor_lex(#[trigger] s[j], x@),
        decreases v.len() - p,
    {
        p = p + 1;
    }
    assert(s == vista_textos(old(v)@));
    if p < v.len() && v[p] == *x {
        assert(s[p as int] == x@);
        assert(forall|t: Seq<char>| #[trigger] s.contains(t) <==> (s.contains(t) || t == x@));
        return;
    }
    if p < v.len() {
        proof {
            lema_menor_total(s[p as int], x@);
        }
    }
    proof {
        lema_insertar_en_orden(s, p as int, x@);
    }
    v.insert(p, x.clone());
    assert(vista_textos(v@) =~= s.insert(p as int, x@));
    assert forall|t: Seq<char>| vista_textos(v@).contains(t) <==> (s.contains(t) || t == x@) by {
        if s.contains(t) {
            let k = choose|k: int| 0 <= k < s.len() && s[k] == t;
            if k < p {
                assert(vista_textos(v@)[k] == t);
            } else {
                assert(vista_textos(v@)[k + 1] == t);
            }
        }
        if t == x@ {
            assert(vista_textos(v@)[p as int] == t);
        }
        if vista_textos(v@).contains(t) {
            let k = choose|k: int| 0 <= k < vista_textos(v@).len() && vista_textos(v@)[k] == t;
            if k < p {
                assert(s[k] == t);
            } else if k > p {
                assert(s[k - 1] == t);
            }
        }
    }
    assert(forall|t: Seq<char>|
        #[trigger] vista_textos(v@).contains(t) <==> (vista_textos(old(v)@).contains(t) || t == x@));
}

/// The texts sorted, each once.
pub fn ordenar_sin_repetir(items: &Vec<String>) -> (r: Vec<String>)
    ensures
        estrictamente_ordenados(vista_textos(r@)),
        forall|t: Seq<char>| vista_textos(r@).contains(t) <==> vista_textos(items@).contains(t),
{
    let mut r: Vec<String> = Vec::new();
    let mut i: usize = 0;
    while i < items.len()
        invariant
            i <= items.len(),
            estrictamente_ordenados(vista_textos(r@)),
            forall|t: Seq<char>|
                vista_textos(r@).contains(t) <==> vista_textos(items@).take(i as int).contains(t),
        decreases items.len() - i,
    {
        let ghost antes = vista_textos(r@);
        insertar_en_orden(&mut r, &items[i]);
        assert(vista_textos(items@).take(i + 1) =~= vista_textos(items@).take(i as int).push(
            items@[i as int]@,
        ));
        assert forall|t: Seq<char>|
            vista_textos(items@).take(i + 1).contains(t) <==> (vista_textos(items@).take(
                i as int,
            ).contains(t) || t == items@[i as int]@) by {
            let a = vista_textos(items@).take(i as int);
            if a.push(items@[i as int]@).contains(t) {
                let k = choose|k: int| 0 <= k < a.len() + 1 && a.push(items@[i as int]@)[k] == t;
                if k < a.len() {
                    assert(a[k] == t);
                }
            }
            if a.contains(t) {
                let k = choose|k: int| 0 <= k < a.len() && a[k] == t;
                assert(a.push(items@[i as int]@)[k] == t);
            }
            if t == items@[i as int]@ {
                assert(a.push(items@[i as int]@)[a.len() as int] == t);
            }
        }
        assert forall|t: Seq<char>|
            vista_textos(r@).contains(t) <==> vista_textos(items@).take(i + 1).contains(t) by {
            assert(antes.contains(t) <==> vista_textos(items@).take(i as int).contains(t));
        }
        i = i + 1;
    }
    assert(vista_textos(items@).take(items.len() as int) =~= vista_textos(items@));
    r
}

/// The names that a listing answered; none when it failed.
pub open spec fn nombres_o_ninguno(a: Result<Vec<String>, ErrorBd>) -> Seq<Seq<char>> {
    match a {
        Ok(v) => vista_textos(v@),
        Err(_) => Seq::empty(),
    }
}

/// The tables and views to choose from, sorted and each once (a listing
/// that fails adds nothing): the names that the listings of tables and of
/// views answered.
pub fn listar_tablas_vistas(conn: &rusqlite::Connection) -> (r: Vec<String>)
    ensures
        estrictamente_ordenados(vista_textos(r@)),
        exists|a: Result<Vec<String>, ErrorBd>, b: Result<Vec<String>, ErrorBd>|
            #![trigger nombres_respondidos(SQL_TABLAS@, a), nombres_respondidos(SQL_VISTAS@, b)]
            nombres_respondidos(SQL_TABLAS@, a) && nombres_respondidos(SQL_VISTAS@, b) && forall|t: Seq<char>|
                #[trigger] vista_textos(r@).contains(t) <==> (nombres_o_ninguno(a).contains(t)
                    || nombres_o_ninguno(b).contains(t)),
{
    let mut items: Vec<String> = Vec::new();
    let a = listar_tablas(conn);
    let ghost ga = a;
    match a {
        Ok(mut t) => items.append(&mut t),
        Err(_) => {},
    }
    assert(vista_textos(items@) =~= nombres_o_ninguno(ga));
    let b = listar_vistas(conn);
    let ghost gb = b;
    let ghost antes = items@;
    match b {
        Ok(mut v) => items.append(&mut v),
        Err(_) => {},
    }
    assert(vista_textos(items@) =~= nombres_o_ninguno(ga) + nombres_o_ninguno(gb));
    let r = ordenar_sin_repetir(&items);
    assert forall|t: Seq<char>| #[trigger] vista_textos(r@).contains(t) <==> (nombres_o_ninguno(ga).contains(t)
        || nombres_o_ninguno(gb).contains(t)) by {
        if vista_textos(items@).contains(t) {
            let k = choose|k: int| 0 <= k < vista_textos(items@).len() && vista_textos(items@)[k] == t;
            if k < nombres_o_ninguno(ga).len() {
                assert(nombres_o_ninguno(ga)[k] == t);
            } else {
                assert(nombres_o_ninguno(gb)[k - nombres_o_ninguno(ga).len()] == t);
            }
        }
        if nombres_o_ninguno(ga).contains(t) {
            let k = choose|k: int| 0 <= k < nombres_o_ninguno(ga).len() && nombres_o_ninguno(ga)[k] == t;
            assert(vista_textos(items@)[k] == t);
        }
        if nombres_o_ninguno(gb).contains(t) {
            let k = choose|k: int| 0 <= k < nombres_o_ninguno(gb).len() && nombres_o_ninguno(gb)[k] == t;
            assert(vista_textos(items@)[k + nombres_o_ninguno(ga).len()] == t);
        }
    }
    r
}


// ── the initial filter values ──────────────────────────────────────────────

/// A filter of one of the five kinds.
pub open spec fn tipo_conocido(t: Seq<char>) -> bool {
    t == "categorical"@ || t == "categorical_fk"@ || t == "date"@ || t == "numeric"@ || t
        == "text_search"@
}

/// An optional text, or nothing.
pub open spec fn o_vacio(o: Option<String>) -> Seq<char> {
    match o {
        Some(s) => s@,
        None => Seq::empty(),
    }
}

/// A bound, or the given default.
pub open spec fn o_real(o: Option<Real>, d: Real) -> Real {
    match o {
        Some(x) => x,
        None => d,
    }
}

/// The value a filter starts with: "all" for a choice (a catalogue choice
/// carries its catalogue), empty dates and search, and the column's range
/// (0 to 1 where unknown) for numbers.
pub open spec fn inicial_de(fi: FiltroInfo, f: FiltroValor) -> bool {
    let t = fi.tipo@;
    if t == "categorical"@ {
        f matches FiltroValor::Categorical { selected } && selected@ == constants::FILTRO_TODOS@
    } else if t == "categorical_fk"@ {
        &&& f matches FiltroValor::CategoricalFK { selected, col_original, tabla_catalogo, col_nombre }
        &&& f->CategoricalFK_selected@ == constants::FILTRO_TODOS@
        &&& f->CategoricalFK_col_original@ == o_vacio(fi.col_original)
        &&& f->CategoricalFK_tabla_catalogo@ == o_vacio(fi.tabla_catalogo)
        &&& f->CategoricalFK_col_nombre@ == o_vacio(fi.col_nombre_catalogo)
    } else if t == "date"@ {
        f matches FiltroValor::Date { desde, hasta } && desde@.len() == 0 && hasta@.len() == 0
    } else if t == "numeric"@ {
        &&& f matches FiltroValor::Numeric { min, max, orig_min, orig_max }
        &&& f->min == o_real(fi.min, Real::Entero(0))
        &&& f->max == o_real(fi.max, Real::Entero(1))
        &&& f->orig_min == o_real(fi.min, Real::Entero(0))
        &&& f->orig_max == o_real(fi.max, Real::Entero(1))
    } else if t == "text_search"@ {
        f matches FiltroValor::TextSearch { query } && query@.len() == 0
    } else {
        false
    }
}

/// Which filter gives each entry: the filters of a known kind in order, a
/// later one of the same name taking the earlier one's entry (as inserting
/// into a map does).
pub open spec fn posiciones_iniciales(fis: Seq<FiltroInfo>) -> Seq<int>
    decreases fis.len(),
{
    if fis.len() == 0 {
        Seq::empty()
    } else {
        let p = posiciones_iniciales(fis.drop_last());
        let j = fis.len() - 1;
        if tipo_conocido(fis[j].tipo@) {
            match posicion_nombre(fis, p, fis[j].nombre@) {
                Some(k) => p.update(k, j),
                None => p.push(j),
            }
        } else {
            p
        }
    }
}

/// The first entry whose filter is named `n`.
pub open spec fn posicion_nombre(fis: Seq<FiltroInfo>, p: Seq<int>, n: Seq<char>) -> Option<int>
    decreases p.len(),
{
    if p.len() == 0 {
        None
    } else if fis[p[0]].nombre@ == n {
        Some(0)
    } else {
        match posicion_nombre(fis, p.drop_first(), n) {
            Some(k) => Some(k + 1),
            None => None,
        }
    }
}

proof fn lema_posiciones(fis: Seq<FiltroInfo>)
    ensures
        forall|k: int|
            0 <= k < posiciones_iniciales(fis).len() ==> 0 <= #[trigger] posiciones_iniciales(
                fis,
            )[k] < fis.len(),
    decreases fis.len(),
{
    if fis.len() > 0 {
        lema_posiciones(fis.drop_last());
        let p = posiciones_iniciales(fis.drop_last());
        let j = fis.len() - 1;
        if tipo_conocido(fis[j].tipo@) {
            match posicion_nombre(fis, p, fis[j].nombre@) {
                Some(k) => {
                    lema_posicion_nombre(fis, p, fis[j].nombre@);
                },
                None => {},
            }
        }
    }
}

proof fn lema_posicion_nombre(fis: Seq<FiltroInfo>, p: Seq<int>, n: Seq<char>)
    ensures
        match posicion_nombre(fis, p, n) {
            Some(k) => 0 <= k < p.len() && fis[p[k]].nombre@ == n && forall|i: int|
                0 <= i < k ==> fis[#[trigger] p[i]].nombre@ != n,
            None => forall|i: int| 0 <= i < p.len() ==> fis[#[trigger] p[i]].nombre@ != n,
        },
    decreases p.len(),
{
    if p.len() > 0 && fis[p[0]].nombre@ != n {
        let q = p.drop_first();
        lema_posicion_nombre(fis, q, n);
        assert forall|i: int| 1 <= i < p.len() implies #[trigger] p[i] == q[i - 1] by {}
    }
}

/// Each name has one entry, as in a map: the filters that give the entries
/// have different names.
pub proof fn ley_filtros_iniciales_sin_repetir(fis: Seq<FiltroInfo>)
    ensures
        forall|i: int, j: int|
            0 <= i < j < posiciones_iniciales(fis).len() ==> fis[#[trigger] posiciones_iniciales(
                fis,
            )[i]].nombre@ != fis[#[trigger] posiciones_iniciales(fis)[j]].nombre@,
    decreases fis.len(),
{
    if fis.len() > 0 {
        let ant = fis.drop_last();
        ley_filtros_iniciales_sin_repetir(ant);
        lema_posiciones(ant);
        let p = posiciones_iniciales(ant);
        let j = fis.len() - 1;
        assert forall|k: int| 0 <= k < p.len() implies #[trigger] fis[p[k]] == ant[p[k]] by {}
        if tipo_conocido(fis[j].tipo@) {
            lema_posicion_nombre(fis, p, fis[j].nombre@);
            let q = posiciones_iniciales(fis);
            assert forall|a: int, b: int| 0 <= a < b < q.len() implies fis[#[trigger] q[a]].nombre@
                != fis[#[trigger] q[b]].nombre@ by {
                match posicion_nombre(fis, p, fis[j].nombre@) {
                    Some(m) => {
                        if a == m {
                            assert(fis[p[b]].nombre@ != fis[p[m]].nombre@);
                        } else if b == m {
                            assert(fis[p[a]].nombre@ != fis[p[m]].nombre@);
                        } else {
                            assert(ant[p[a]].nombre@ != ant[p[b]].nombre@);
                        }
                    },
                    None => {
                        if b == p.len() {
                            assert(fis[p[a]].nombre@ != fis[j].nombre@);
                        } else {
                            assert(ant[p[a]].nombre@ != ant[p[b]].nombre@);
                        }
                    },
                }
            }
        }
    }
}

fn buscar_nombre(r: &Vec<(String, FiltroValor)>, n: &String) -> (res: Option<usize>)
    ensures
        match res {
            Some(k) => k < r.len() && r@[k as int].0@ == n@ && forall|m: int|
                0 <= m < k ==> (#[trigger] r@[m]).0@ != n@,
            None => forall|m: int| 0 <= m < r.len() ==> (#[trigger] r@[m]).0@ != n@,
        },
{
    let mut k: usize = 0;
    while k < r.len()
        invariant
            k <= r.len(),
            forall|m: int| 0 <= m < k ==> (#[trigger] r@[m]).0@ != n@,
        decreases r.len() - k,
    {
        if r[k].0 == *n {
            return Some(k);
        }
        k = k + 1;
    }
    None
}

fn valor_inicial(fi: &FiltroInfo) -> (r: Option<FiltroValor>)
    ensures
        match r {
            Some(f) => tipo_conocido(fi.tipo@) && inicial_de(*fi, f),
            None => !tipo_conocido(fi.tipo@),
        },
{
    proof {
        lema_tipos_distintos();
    }
    let todos = String::from_str(constants::FILTRO_TODOS);
    if fi.tipo == String::from_str("categorical") {
        Some(FiltroValor::Categorical { selected: todos })
    } else if fi.tipo == String::from_str("categorical_fk") {
        let o = |x: &Option<String>| -> (r: String)
            ensures
                r@ == o_vacio(*x),
            {
                match x {
                    Some(s) => s.clone(),
                    None => String::new(),
                }
            };
        Some(
            FiltroValor::CategoricalFK {
                selected: todos,
                col_original: o(&fi.col_original),
                tabla_catalogo: o(&fi.tabla_catalogo),
                col_nombre: o(&fi.col_nombre_catalogo),
            },
        )
    } else if fi.tipo == String::from_str("date") {
        Some(FiltroValor::Date { desde: String::new(), hasta: String::new() })
    } else if fi.tipo == String::from_str("numeric") {
        let lo = match &fi.min {
            Some(x) => x.clone(),
            None => Real::Entero(0),
        };
        let hi = match &fi.max {
            Some(x) => x.clone(),
            None => Real::Entero(1),
        };
        Some(FiltroValor::Numeric { min: lo.clone(), max: hi.clone(), orig_min: lo, orig_max: hi })
    } else if fi.tipo == String::from_str("text_search") {
        Some(FiltroValor::TextSearch { query: String::new() })
    } else {
        None
    }
}

/// The value each filter starts with, keyed by its name: see `inicial_de`
/// and `posiciones_iniciales`.
pub fn filtros_iniciales(fis: &Vec<FiltroInfo>) -> (r: Vec<(String, FiltroValor)>)
    ensures
        r.len() == posiciones_iniciales(fis@).len(),
        forall|k: int|
            0 <= k < r.len() ==> {
                let j = #[trigger] posiciones_iniciales(fis@)[k];
                &&& 0 <= j < fis.len()
                &&& r@[k].0@ == fis@[j].nombre@
                &&& inicial_de(fis@[j], r@[k].1)
            },
{
    let mut r: Vec<(String, FiltroValor)> = Vec::new();
    let mut i: usize = 0;
    while i < fis.len()
        invariant
            i <= fis.len(),
            r.len() == posiciones_iniciales(fis@.take(i as int)).len(),
            forall|k: int|
                0 <= k < r.len() ==> {
                    let j = #[trigger] posiciones_iniciales(fis@.take(i as int))[k];
                    &&& 0 <= j < i
                    &&& r@[k].0@ == fis@[j].nombre@
                    &&& inicial_de(fis@[j], r@[k].1)
                },
        decreases fis.len() - i,
    {
        let ghost f = fis@.take(i + 1);
        let ghost p = posiciones_iniciales(fis@.take(i as int));
        assert(f.drop_last() =~= fis@.take(i as int));
        proof {
            lema_posiciones(fis@.take(i as int));
            lema_posicion_nombre(f, p, fis@[i as int].nombre@);
            assert forall|k: int| 0 <= k < p.len() implies #[trigger] f[p[k]] == fis@[p[k]] by {}
        }
        match valor_inicial(&fis[i]) {
            Some(v) => {
                let nombre = fis[i].nombre.clone();
                proof {
                    assert forall|m: int| 0 <= m < r.len() implies (#[trigger] r@[m]).0@ == fis@[p[m]].nombre@ by {
                        assert(0 <= p[m] < i);
                    }
                }
                match buscar_nombre(&r, &nombre) {
                    Some(k) => {
                        assert forall|m: int| 0 <= m < k implies fis@[#[trigger] p[m]].nombre@ != nombre@ by {
                            assert(r@[m].0@ == fis@[p[m]].nombre@);
                        }
                        assert(r@[k as int].0@ == fis@[p[k as int]].nombre@);
                        assert(posicion_nombre(f, p, nombre@) == Some(k as int));
                        r.set(k, (nombre, v));
                    },
                    None => {
                        assert forall|m: int| 0 <= m < p.len() implies fis@[#[trigger] p[m]].nombre@ != nombre@ by {
                            assert(r@[m].0@ == fis@[p[m]].nombre@);
                        }
                        assert(posicion_nombre(f, p, nombre@) is None);
                        r.push((nombre, v));
                    },
                }
            },
            None => {},
        }
        i = i + 1;
    }
    assert(fis@.take(fis.len() as int) =~= fis@);
    r
}

// ── selecting a table ──────────────────────────────────────────────────────

/// The list that an answer holds; none when it failed.
pub open spec fn lista_o_vacia<T>(a: Result<Vec<T>, ErrorBd>) -> Seq<T> {
    match a {
        Ok(v) => v@,
        Err(_) => Seq::empty(),
    }
}

/// The filter that an answer holds; none when it failed.
pub open spec fn filtro_o_ninguno(a: Result<Option<ColumnaInfo>, ErrorBd>) -> Option<ColumnaInfo> {
    match a {
        Ok(o) => o,
        Err(_) => None,
    }
}

/// `infos[k]` is the filter that the queries of column `raw[k]` of `tabla`
/// answered (see `columna_respondida`), none when they failed or for a key
/// column.
pub open spec fn filtros_respondidos(
    tabla: Seq<char>,
    ac: AnalyseConfig,
    fks: Seq<(String, FkInfo)>,
    raw: Seq<ColumnaRaw>,
    infos: Seq<Option<ColumnaInfo>>,
) -> bool {
    &&& infos.len() == raw.len()
    &&& forall|k: int|
        0 <= k < raw.len() ==> if (#[trigger] raw[k]).pk {
            infos[k] is None
        } else {
            exists|a: Result<Option<ColumnaInfo>, ErrorBd>|
                #[trigger] columna_respondida(tabla, raw[k], fks, ac, a) && infos[k] == filtro_o_ninguno(a)
        }
}

/// How to read the table: what the decision answered, or as it is when it
/// failed.
pub open spec fn modo_o_universal(a: Result<ModoOptimizacion, ErrorBd>) -> ModoOptimizacion {
    match a {
        Ok(m) => m,
        Err(_) => ModoOptimizacion::Universal,
    }
}

/// The names of the filters' columns.
pub open spec fn nombres_de_columnas(cols: Seq<ColumnaInfo>) -> Seq<Seq<char>> {
    Seq::new(cols.len(), |i: int| cols[i].nombre@)
}

/// What selecting a table sets up.
pub struct Seleccion {
    pub modo: ModoOptimizacion,
    pub meta: SchemaMetadata,
    pub status_col: Option<String>,
    pub filtros_info: Vec<FiltroInfo>,
    pub filtros: Vec<(String, FiltroValor)>,
}


/// Sets up the dashboard of `tabla`: how to read it (as it is when the
/// decision fails), the filter of each of its non-key columns (columns and
/// lists that cannot be read count as none), its status column (none when
/// the detection fails), the filters offered and their initial values. No
/// dependencies are looked for.
pub fn analizar_seleccion(
    conn: &rusqlite::Connection,
    tabla: &str,
    ac: &AnalyseConfig,
    pending_pattern: &str,
    signed_pattern: &str,
) -> (r: Seleccion)
    ensures
        r.meta.vista_principal@ == tabla@,
        r.meta.dependencias.len() == 0,
        exists|
            ra: Result<Vec<ColumnaRaw>, ErrorBd>,
            rt: Result<Vec<String>, ErrorBd>,
            rf: Result<Vec<(String, FkInfo)>, ErrorBd>,
            infos: Seq<Option<ColumnaInfo>>,
        |
            #![trigger columnas_respondidas_de(tabla@, ra), nombres_respondidos(SQL_TABLAS@, rt), fks_respondidas(lista_o_vacia(rt), rf), filtros_hallados(infos)]
            columnas_respondidas_de(tabla@, ra) && nombres_respondidos(SQL_TABLAS@, rt) && fks_respondidas(
                lista_o_vacia(rt),
                rf,
            ) && r.meta.tablas@ == lista_o_vacia(rt) && filtros_respondidos(
                tabla@,
                *ac,
                lista_o_vacia(rf),
                lista_o_vacia(ra),
                infos,
            ) && r.meta.columnas@ == filtros_hallados(infos),
        exists|rm: Result<ModoOptimizacion, ErrorBd>|
            #[trigger] patron_respondido(tabla@, *ac, rm) && r.modo == modo_o_universal(rm),
        exists|nombres: Seq<String>, ms: Seq<Option<MedidaEstado>>|
            #![trigger eleccion_de_estado(nombres, ms, r.status_col)]
            vista_textos(nombres) == nombres_de_columnas(r.meta.columnas@) && eleccion_de_estado(
                nombres,
                ms,
                r.status_col,
            ) && medidas_respondidas(nombres, tabla@, pending_pattern@, signed_pattern@, ms),
        columnas_de_vista(tabla@, *ac, r.meta.columnas@),
        forall|k: int| 0 <= k < r.meta.columnas.len() ==> forma_de_info(#[trigger] r.meta.columnas@[k]),
        vistas_filtros(r.filtros_info@) == ordenar_filtros(filtros_de(r.meta.columnas@)),
        r.filtros.len() == posiciones_iniciales(r.filtros_info@).len(),
        forall|k: int|
            0 <= k < r.filtros.len() ==> {
                let j = #[trigger] posiciones_iniciales(r.filtros_info@)[k];
                &&& 0 <= j < r.filtros_info.len()
                &&& r.filtros@[k].0@ == r.filtros_info@[j].nombre@
                &&& inicial_de(r.filtros_info@[j], r.filtros@[k].1)
            },
        r.status_col matches Some(c) ==> exists|j: int|
            0 <= j < r.meta.columnas.len() && c@ == (#[trigger] r.meta.columnas@[j]).nombre@
                && spec_clean_identifier(c@),
{
    let rm = detectar_patron_optimizable(conn, tabla, ac);
    let ghost grm = rm;
    let modo = match rm {
        Ok(m) => m,
        Err(_) => ModoOptimizacion::Universal,
    };
    let ra = obtener_columnas(conn, tabla);
    let ghost gra = ra;
    let cols_raw = match ra {
        Ok(c) => c,
        Err(_) => Vec::new(),
    };
    let rt = listar_tablas(conn);
    let ghost grt = rt;
    let all_tablas = match rt {
        Ok(t) => t,
        Err(_) => Vec::new(),
    };
    let rf = analizar_foreign_keys(conn, &all_tablas);
    let ghost grf = rf;
    let fk_pairs = match rf {
        Ok(f) => f,
        Err(_) => Vec::new(),
    };
    assert(cols_raw@ == lista_o_vacia(gra) && all_tablas@ == lista_o_vacia(grt) && fk_pairs@ == lista_o_vacia(grf));
    let mut columnas: Vec<ColumnaInfo> = Vec::new();
    let ghost mut infos: Seq<Option<ColumnaInfo>> = Seq::empty();
    let mut i: usize = 0;
    while i < cols_raw.len()
        invariant
            i <= cols_raw.len(),
            infos.len() == i,
            columnas@ == filtros_hallados(infos),
            forall|k: int|
                0 <= k < i ==> if (#[trigger] cols_raw@[k]).pk {
                    infos[k] is None
                } else {
                    exists|a: Result<Option<ColumnaInfo>, ErrorBd>|
                        #[trigger] columna_respondida(tabla@, cols_raw@[k], fk_pairs@, *ac, a) && infos[k]
                            == filtro_o_ninguno(a)
                },
            forall|k: int| 0 <= k < columnas.len() ==> forma_de_info(#[trigger] columnas@[k]),
            todas_de_vista(tabla@, *ac, fk_pairs@, columnas@),
        decreases cols_raw.len() - i,
    {
        let col = &cols_raw[i];
        let ghost infos0 = infos;
        let ghost mut hallado: Option<ColumnaInfo> = None;
        if !col.pk {
            let a = analizar_columna(conn, tabla, col, &fk_pairs, ac);
            let ghost ga = a;
            proof {
                hallado = filtro_o_ninguno(ga);
            }
            match a {
                Ok(Some(info)) => {
                    assert(columna_de_vista(tabla@, *ac, fk_pairs@, info));
                    let ghost antes = columnas@;
                    columnas.push(info);
                    assert(forall|k: int| 0 <= k < antes.len() ==> columnas@[k] == antes[k]);
                },
                _ => {},
            }
            assert(columna_respondida(tabla@, cols_raw@[i as int], fk_pairs@, *ac, ga) && hallado == filtro_o_ninguno(ga));
        }
        proof {
            infos = infos.push(hallado);
            assert(infos.drop_last() =~= infos0);
            assert forall|k: int|
                0 <= k < i + 1 implies if (#[trigger] cols_raw@[k]).pk {
                    infos[k] is None
                } else {
                    exists|a: Result<Option<ColumnaInfo>, ErrorBd>|
                        #[trigger] columna_respondida(tabla@, cols_raw@[k], fk_pairs@, *ac, a) && infos[k]
                            == filtro_o_ninguno(a)
                } by {
                if k < i {
                    assert(infos[k] == infos0[k]);
                }
            }
        }
        i = i + 1;
    }
    assert(filtros_respondidos(tabla@, *ac, fk_pairs@, cols_raw@, infos));
    let ghost gcolumnas = columnas@;
    let mut col_names: Vec<String> = Vec::new();
    let mut k: usize = 0;
    while k < columnas.len()
        invariant
            k <= columnas.len(),
            col_names.len() == k,
            forall|m: int| 0 <= m < k ==> (#[trigger] col_names@[m])@ == columnas@[m].nombre@,
        decreases columnas.len() - k,
    {
        col_names.push(columnas[k].nombre.clone());
        k = k + 1;
    }
    assert(vista_textos(col_names@) =~= nombres_de_columnas(columnas@));
    let ghost gnombres = col_names@;
    let rs = detectar_columna_estado(conn, tabla, &col_names, pending_pattern, signed_pattern);
    let status_col = match rs {
        Ok(c) => c,
        Err(_) => None,
    };
    let ghost ms = choose|ms: Seq<Option<MedidaEstado>>|
        #[trigger] eleccion_de_estado(gnombres, ms, status_col) && medidas_respondidas(
            gnombres,
            tabla@,
            pending_pattern@,
            signed_pattern@,
            ms,
        );
    let meta = SchemaMetadata {
        vista_principal: String::from_str(tabla),
        tablas: all_tablas,
        columnas,
        dependencias: Vec::new(),
    };
    let filtros_info = extraer_filtros_info(&meta);
    let filtros = filtros_iniciales(&filtros_info);
    let r = Seleccion { modo, meta, status_col, filtros_info, filtros };
    assert(r.meta.columnas@ == gcolumnas);
    assert(patron_respondido(tabla@, *ac, grm) && r.modo == modo_o_universal(grm));
    assert(vista_textos(gnombres) == nombres_de_columnas(r.meta.columnas@) && eleccion_de_estado(gnombres, ms, r.status_col)
        && medidas_respondidas(gnombres, tabla@, pending_pattern@, signed_pattern@, ms));
    assert(r.meta.tablas@ == lista_o_vacia(grt));
    assert(columnas_respondidas_de(tabla@, gra) && nombres_respondidos(SQL_TABLAS@, grt) && fks_respondidas(
        lista_o_vacia(grt),
        grf,
    ) && r.meta.tablas@ == lista_o_vacia(grt) && filtros_respondidos(tabla@, *ac, lista_o_vacia(grf), lista_o_vacia(gra), infos)
        && r.meta.columnas@ == filtros_hallados(infos));
    assert(r.status_col matches Some(c) ==> exists|j: int|
        0 <= j < r.meta.columnas.len() && c@ == (#[trigger] r.meta.columnas@[j]).nombre@
            && spec_clean_identifier(c@));
    r
}

// ── the chart's groups ─────────────────────────────────────────────────────

/// Where group `x` goes among groups sorted by size, largest first: before
/// the first smaller one.
pub open spec fn lugar_por_cuenta(s: Seq<(Seq<char>, u64)>, x: (Seq<char>, u64)) -> int
    decreases s.len(),
{
    if s.len() == 0 {
        0
    } else if s[0].1 < x.1 {
        0
    } else {
        1 + lugar_por_cuenta(s.drop_first(), x)
    }
}

/// The groups sorted by size, largest first, those of equal size in the
/// order they came in.
pub open spec fn ordenar_por_cuenta(s: Seq<(Seq<char>, u64)>) -> Seq<(Seq<char>, u64)>
    decreases s.len(),
{
    if s.len() == 0 {
        s
    } else {
        let r = ordenar_por_cuenta(s.drop_last());
        r.insert(lugar_por_cuenta(r, s.last()), s.last())
    }
}

proof fn lema_lugar_por_cuenta(s: Seq<(Seq<char>, u64)>, x: (Seq<char>, u64))
    ensures
        0 <= lugar_por_cuenta(s, x) <= s.len(),
        forall|j: int| 0 <= j < lugar_por_cuenta(s, x) ==> (#[trigger] s[j]).1 >= x.1,
        lugar_por_cuenta(s, x) < s.len() ==> s[lugar_por_cuenta(s, x)].1 < x.1,
    decreases s.len(),
{
    if s.len() > 0 && s[0].1 >= x.1 {
        let t = s.drop_first();
        lema_lugar_por_cuenta(t, x);
        assert forall|j: int| 0 <= j < lugar_por_cuenta(s, x) implies (#[trigger] s[j]).1 >= x.1 by {
            if j > 0 {
                assert(s[j] == t[j - 1]);
            }
        }
    }
}

/// Sizes do not grow from one group to the next.
pub open spec fn por_cuenta_descendente(s: Seq<(Seq<char>, u64)>) -> bool {
    forall|i: int, j: int| 0 <= i < j < s.len() ==> (#[trigger] s[i]).1 >= (#[trigger] s[j]).1
}

/// Sorting leaves the largest groups first.
pub proof fn ley_grupos_descendentes(s: Seq<(Seq<char>, u64)>)
    ensures
        por_cuenta_descendente(ordenar_por_cuenta(s)),
    decreases s.len(),
{
    if s.len() > 0 {
        ley_grupos_descendentes(s.drop_last());
        let r = ordenar_por_cuenta(s.drop_last());
        let x = s.last();
        lema_lugar_por_cuenta(r, x);
        let p = lugar_por_cuenta(r, x);
        let t = r.insert(p, x);
        assert forall|i: int, j: int| 0 <= i < j < t.len() implies (#[trigger] t[i]).1 >= (
        #[trigger] t[j]).1 by {
            if j < p {
                assert(t[i] == r[i] && t[j] == r[j]);
            } else if j == p {
                assert(t[i] == r[i] && t[j] == x);
            } else if i < p {
                assert(t[i] == r[i] && t[j] == r[j - 1]);
            } else if i == p {
                assert(t[i] == x && t[j] == r[j - 1]);
                assert(r[p].1 >= r[j - 1].1);
            } else {
                assert(t[i] == r[i - 1] && t[j] == r[j - 1]);
            }
        }
    }
}

/// Sorting keeps every group, each as often as it came.
pub proof fn ley_grupos_conservados(s: Seq<(Seq<char>, u64)>)
    ensures
        ordenar_por_cuenta(s).to_multiset() == s.to_multiset(),
    decreases s.len(),
{
    broadcast use vstd::seq_lib::to_multiset_insert, vstd::seq_lib::to_multiset_build;

    if s.len() > 0 {
        let r = ordenar_por_cuenta(s.drop_last());
        ley_grupos_conservados(s.drop_last());
        lema_lugar_por_cuenta(r, s.last());
        assert(s =~= s.drop_last().push(s.last()));
    }
}

/// The groups as the charts show them: largest first.
pub fn ordenar_grupos(v: &Vec<(String, u64)>) -> (r: Vec<(String, u64)>)
    ensures
        vista_grupos(r@) == ordenar_por_cuenta(vista_grupos(v@)),
{
    let mut r: Vec<(String, u64)> = Vec::new();
    let mut i: usize = 0;
    assert(vista_grupos(v@).take(0) =~= Seq::<(Seq<char>, u64)>::empty());
    assert(vista_grupos(r@) =~= ordenar_por_cuenta(vista_grupos(v@).take(0)));
    while i < v.len()
        invariant
            i <= v.len(),
            vista_grupos(r@) == ordenar_por_cuenta(vista_grupos(v@).take(i as int)),
        decreases v.len() - i,
    {
        let ghost g = vista_grupos(v@).take(i + 1);
        assert(g.drop_last() =~= vista_grupos(v@).take(i as int));
        assert(g.last() == (v@[i as int].0@, v@[i as int].1));
        let ghost s = vista_grupos(r@);
        let n = v[i].1;
        let mut p: usize = 0;
        assert(s.skip(0) =~= s);
        while p < r.len() && r[p].1 >= n
            invariant
                p <= r.len(),
                s == vista_grupos(r@),
                lugar_por_cuenta(s, (v@[i as int].0@, n)) == p + lugar_por_cuenta(s.skip(p as int), (v@[i as int].0@, n)),
            decreases r.len() - p,
        {
            assert(s.skip(p as int).drop_first() =~= s.skip(p + 1));
            p = p + 1;
        }
        proof {
            lema_lugar_por_cuenta(s, (v@[i as int].0@, n));
        }
        r.insert(p, (v[i].0.clone(), n));
        assert(vista_grupos(r@) =~= s.insert(p as int, (v@[i as int].0@, n)));
        i = i + 1;
    }
    assert(vista_grupos(v@).take(v.len() as int) =~= vista_grupos(v@));
    r
}

// ── paging ─────────────────────────────────────────────────────────────────

/// How many pages `total` rows fill, `page_size` to a page (rounded up;
/// with no page size, as many as a `usize` holds).
pub open spec fn spec_total_paginas(total: nat, page_size: nat) -> nat {
    if page_size == 0 {
        usize::MAX as nat
    } else {
        let q = ((total + page_size - 1) as nat) / page_size;
        if q > usize::MAX {
            usize::MAX as nat
        } else {
            q
        }
    }
}

pub fn total_paginas(total: u64, page_size: usize) -> (r: usize)
    ensures
        r == spec_total_paginas(total as nat, page_size as nat),
{
    if page_size == 0 {
        return usize::MAX;
    }
    let t = total as u128;
    let ps = page_size as u128;
    let q = (t + ps - 1) / ps;
    if q > usize::MAX as u128 {
        usize::MAX
    } else {
        q as usize
    }
}

/// The page before the current one, when there is one.
pub fn pagina_anterior(actual: usize) -> (r: Option<usize>)
    ensures
        actual > 1 ==> r == Some((actual - 1) as usize),
        actual <= 1 ==> r is None,
{
    if actual > 1 {
        Some(actual - 1)
    } else {
        None
    }
}

/// The page after the current one, when there is one.
pub fn pagina_siguiente(actual: usize, total_paginas: usize) -> (r: Option<usize>)
    ensures
        actual < total_paginas ==> r == Some((actual + 1) as usize),
        actual >= total_paginas ==> r is None,
{
    if actual < total_paginas {
        Some(actual + 1)
    } else {
        None
    }
}

/// The page written in the page box, when it is a number from 1 to the
/// number of pages (at least 1).
pub fn pagina_escrita(texto: &str, total_paginas: usize) -> (r: Option<usize>)
    ensures
        r == (match spec_parse_usize(texto@) {
            Some(p) => if 1 <= p && p <= (if total_paginas > 1 { total_paginas } else { 1 }) {
                Some(p)
            } else {
                None
            },
            None => None,
        }),
{
    let maximo = if total_paginas > 1 { total_paginas } else { 1 };
    match parse_usize(texto) {
        Some(p) => if 1 <= p && p <= maximo {
            Some(p)
        } else {
            None
        },
        None => None,
    }
}

/// Whether the rows found are more than a page shows.
pub fn mas_que_una_pagina(total_general: u64, page_size: usize) -> (r: bool)
    ensures
        r == (total_general > page_size),
{
    total_general > page_size as u64
}

// ── labels ─────────────────────────────────────────────────────────────────

/// What a choice box shows: `Todos` when nothing is chosen, else the choice.
pub fn texto_seleccion(selected: &str) -> (r: String)
    ensures
        r@ == (if seleccion_activa(selected@) {
            selected@
        } else {
            "Todos"@
        }),
{
    let cs = selected.unicode_len();
    if cs > 0 && !(String::from_str(selected) == String::from_str(constants::FILTRO_TODOS)) {
        String::from_str(selected)
    } else {
        String::from_str("Todos")
    }
}

/// The columns a template can name: `#` and each shown name, joined by
/// commas.
pub open spec fn spec_etiquetas(cols: Seq<Seq<char>>) -> Seq<char> {
    unir(etiquetas_de(cols), ", "@)
}

/// `#` and the shown name of each column.
pub open spec fn etiquetas_de(cols: Seq<Seq<char>>) -> Seq<Seq<char>> {
    Seq::new(cols.len(), |i: int| "#"@ + spec_display_name(cols[i]))
}

pub fn etiquetas_columnas(cols: &Vec<String>) -> (r: String)
    ensures
        r@ == spec_etiquetas(vista_textos(cols@)),
{
    let mut v: Vec<String> = Vec::new();
    let mut i: usize = 0;
    while i < cols.len()
        invariant
            i <= cols.len(),
            vista_textos(v@) =~= etiquetas_de(vista_textos(cols@)).take(i as int),
        decreases cols.len() - i,
    {
        let mut e = String::from_str("#");
        e.append(display_name(cols[i].as_str()).as_str());
        let ghost antes = v@;
        v.push(e);
        assert(vista_textos(v@) =~= vista_textos(antes).push(
            "#"@ + spec_display_name(vista_textos(cols@)[i as int]),
        ));
        i = i + 1;
    }
    assert(etiquetas_de(vista_textos(cols@)).take(cols.len() as int) =~= etiquetas_de(
        vista_textos(cols@),
    ));
    unir_textos(&v, ", ")
}

// ── the calendar ───────────────────────────────────────────────────────────

/// The month before `(year, month)`.
pub open spec fn spec_mes_anterior(year: int, month: int) -> (int, int) {
    if month == 1 {
        (year - 1, 12)
    } else {
        (year, month - 1)
    }
}

/// The month after `(year, month)`.
pub open spec fn spec_mes_siguiente(year: int, month: int) -> (int, int) {
    if month == 12 {
        (year + 1, 1)
    } else {
        (year, month + 1)
    }
}

pub fn mes_anterior(year: i32, month: u32) -> (r: (i32, u32))
    requires
        1 <= month <= 12,
        month == 1 ==> year > i32::MIN,
    ensures
        (r.0 as int, r.1 as int) == spec_mes_anterior(year as int, month as int),
{
    if month == 1 {
        (year - 1, 12)
    } else {
        (year, month - 1)
    }
}

pub fn mes_siguiente(year: i32, month: u32) -> (r: (i32, u32))
    requires
        1 <= month <= 12,
        month == 12 ==> year < i32::MAX,
    ensures
        (r.0 as int, r.1 as int) == spec_mes_siguiente(year as int, month as int),
{
    if month == 12 {
        (year + 1, 1)
    } else {
        (year, month + 1)
    }
}

/// Going one month forward and one back returns to the month, and the
/// months stay from 1 to 12.
pub proof fn ley_meses_ida_y_vuelta(year: int, month: int)
    requires
        1 <= month <= 12,
    ensures
        spec_mes_anterior(spec_mes_siguiente(year, month).0, spec_mes_siguiente(year, month).1) == (
            year,
            month,
        ),
        spec_mes_siguiente(spec_mes_anterior(year, month).0, spec_mes_anterior(year, month).1) == (
            year,
            month,
        ),
        1 <= spec_mes_siguiente(year, month).1 <= 12,
        1 <= spec_mes_anterior(year, month).1 <= 12,
{
}

} // verus!
