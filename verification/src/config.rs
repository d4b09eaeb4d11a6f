//! The settings: what each environment variable sets, lists written as
//! comma-separated values, and where the default database is found.

use vstd::prelude::*;
use crate::db::constants::{self, vistas, AnalyseConfig};
use crate::db::utils::es_extension_bd;
use crate::texto::{
    chars_de, es_espacio, espacio, minusculas_de, texto_de, unir, unir_textos, vista_textos,
};

verus! {

// ── lists written as comma-separated values ────────────────────────────────

/// The pieces of a text between its commas (one piece without commas).
pub open spec fn partes(s: Seq<char>) -> Seq<Seq<char>>
    decreases s.len(),
{
    if s.len() == 0 {
        seq![Seq::empty()]
    } else {
        let p = partes(s.drop_last());
        if s.last() == ',' {
            p.push(Seq::empty())
        } else {
            p.update(p.len() - 1, p.last().push(s.last()))
        }
    }
}

/// A text without its leading whitespace.
pub open spec fn sin_espacios_inicio(t: Seq<char>) -> Seq<char>
    decreases t.len(),
{
    if t.len() > 0 && es_espacio(t[0]) {
        sin_espacios_inicio(t.drop_first())
    } else {
        t
    }
}

/// A text without its trailing whitespace.
pub open spec fn sin_espacios_final(t: Seq<char>) -> Seq<char>
    decreases t.len(),
{
    if t.len() > 0 && es_espacio(t.last()) {
        sin_espacios_final(t.drop_last())
    } else {
        t
    }
}

/// A text without whitespace at either end (`str::trim`).
pub open spec fn recortar(t: Seq<char>) -> Seq<char> {
    sin_espacios_final(sin_espacios_inicio(t))
}

/// The pieces trimmed, the empty ones left out.
pub open spec fn limpias(ps: Seq<Seq<char>>) -> Seq<Seq<char>>
    decreases ps.len(),
{
    if ps.len() == 0 {
        Seq::empty()
    } else {
        let r = limpias(ps.drop_last());
        let t = recortar(ps.last());
        if t.len() > 0 {
            r.push(t)
        } else {
            r
        }
    }
}

/// The items of a comma-separated list: each piece trimmed, empty pieces
/// left out.
pub open spec fn spec_parsear_lista(s: Seq<char>) -> Seq<Seq<char>> {
    limpias(partes(s))
}

proof fn lema_partes_no_vacias(s: Seq<char>)
    ensures
        partes(s).len() > 0,
    decreases s.len(),
{
    if s.len() > 0 {
        lema_partes_no_vacias(s.drop_last());
    }
}

fn recortar_exec(t: &Vec<char>) -> (r: Vec<char>)
    ensures
        r@ == recortar(t@),
{
    let mut i: usize = 0;
    assert(t@.skip(0) =~= t@);
    while i < t.len() && espacio(t[i])
        invariant
            i <= t.len(),
            sin_espacios_inicio(t@) == sin_espacios_inicio(t@.skip(i as int)),
        decreases t.len() - i,
    {
        assert(t@.skip(i as int).drop_first() =~= t@.skip(i + 1));
        i = i + 1;
    }
    let ghost u = t@.skip(i as int);
    let mut j: usize = t.len();
    assert(u.take(u.len() as int) =~= u);
    while j > i && espacio(t[j - 1])
        invariant
            i <= j <= t.len(),
            u == t@.skip(i as int),
            sin_espacios_inicio(t@) == u,
            sin_espacios_final(u) == sin_espacios_final(u.take(j - i)),
        decreases j,
    {
        assert(u.take(j - i).drop_last() =~= u.take(j - i - 1));
        j = j - 1;
    }
    let mut r: Vec<char> = Vec::new();
    let mut k: usize = i;
    while k < j
        invariant
            i <= k <= j <= t.len(),
            r@ == t@.subrange(i as int, k as int),
        decreases j - k,
    {
        r.push(t[k]);
        k = k + 1;
        assert(r@ =~= t@.subrange(i as int, k as int));
    }
    assert(u.take(j - i) =~= t@.subrange(i as int, j as int));
    r
}

/// The items of a comma-separated list, as `split(',')`, `trim` and a
/// filter of the empty ones give them.
pub fn parsear_lista(s: &str) -> (r: Vec<String>)
    ensures
        vista_textos(r@) == spec_parsear_lista(s@),
{
    let cs = chars_de(s);
    let mut r: Vec<String> = Vec::new();
    let mut actual: Vec<char> = Vec::new();
    let mut i: usize = 0;
    proof {
        lema_partes_no_vacias(s@.take(0));
    }
    assert(partes(s@.take(0)) =~= seq![Seq::<char>::empty()]);
    assert(vista_textos(r@) =~= limpias(partes(s@.take(0)).drop_last()));
    while i < cs.len()
        invariant
            i <= cs.len(),
            cs@ == s@,
            partes(s@.take(i as int)).len() > 0,
            actual@ == partes(s@.take(i as int)).last(),
            vista_textos(r@) == limpias(partes(s@.take(i as int)).drop_last()),
        decreases cs.len() - i,
    {
        let ghost p = partes(s@.take(i as int));
        assert(s@.take(i + 1).drop_last() =~= s@.take(i as int));
        assert(s@.take(i + 1).last() == cs@[i as int]);
        if cs[i] == ',' {
            let t = recortar_exec(&actual);
            assert(p.push(Seq::<char>::empty()).drop_last() =~= p);
            assert(p =~= p.drop_last().push(p.last()));
            if t.len() > 0 {
                let ghost antes = r@;
                r.push(texto_de(t));
                assert(vista_textos(r@) =~= vista_textos(antes).push(recortar(p.last())));
            }
            actual = Vec::new();
        } else {
            actual.push(cs[i]);
            assert(p.update(p.len() - 1, p.last().push(cs@[i as int])).drop_last() =~= p.drop_last());
        }
        i = i + 1;
    }
    assert(s@.take(cs.len() as int) =~= s@);
    let ghost p = partes(s@);
    assert(p =~= p.drop_last().push(p.last()));
    let t = recortar_exec(&actual);
    if t.len() > 0 {
        let ghost antes = r@;
        r.push(texto_de(t));
        assert(vista_textos(r@) =~= vista_textos(antes).push(recortar(p.last())));
    }
    r
}

/// An item that a list keeps as it is: not empty, without commas, without
/// whitespace at either end.
pub open spec fn item_limpio(t: Seq<char>) -> bool {
    &&& t.len() > 0
    &&& forall|i: int| 0 <= i < t.len() ==> t[i] != ','
    &&& !es_espacio(t[0])
    &&& !es_espacio(t.last())
}

proof fn lema_partes_sin_comas(s: Seq<char>, t: Seq<char>)
    requires
        forall|i: int| 0 <= i < t.len() ==> t[i] != ',',
    ensures
        partes(s + t) == partes(s).update(partes(s).len() - 1, partes(s).last() + t),
    decreases t.len(),
{
    lema_partes_no_vacias(s);
    if t.len() == 0 {
        assert(s + t =~= s);
        assert(partes(s).last() + t =~= partes(s).last());
        assert(partes(s).update(partes(s).len() - 1, partes(s).last()) =~= partes(s));
    } else {
        let t0 = t.drop_last();
        lema_partes_sin_comas(s, t0);
        assert((s + t).drop_last() =~= s + t0);
        assert((s + t).last() == t.last());
        assert(partes(s).last() + t0 + seq![t.last()] =~= partes(s).last() + t);
        let p = partes(s);
        let q = p.update(p.len() - 1, p.last() + t0);
        assert((p.last() + t0).push(t.last()) =~= p.last() + t);
        assert(q.last() == p.last() + t0);
        assert(q.update(q.len() - 1, q.last().push(t.last())) =~= p.update(p.len() - 1, p.last() + t));
    }
}

proof fn lema_recortar_limpio(t: Seq<char>)
    requires
        item_limpio(t),
    ensures
        recortar(t) == t,
{
}

/// No text without commas.
pub open spec fn sin_comas(t: Seq<char>) -> bool {
    forall|i: int| 0 <= i < t.len() ==> t[i] != ','
}

proof fn lema_partes_sin_comas_cada(s: Seq<char>)
    ensures
        forall|k: int| 0 <= k < partes(s).len() ==> sin_comas(#[trigger] partes(s)[k]),
    decreases s.len(),
{
    lema_partes_no_vacias(s);
    if s.len() > 0 {
        let p = partes(s.drop_last());
        lema_partes_sin_comas_cada(s.drop_last());
        lema_partes_no_vacias(s.drop_last());
        if s.last() != ',' {
            assert forall|k: int| 0 <= k < partes(s).len() implies sin_comas(#[trigger] partes(s)[k]) by {
                if k == p.len() - 1 {
                    assert(sin_comas(p[k]));
                    assert(partes(s)[k] == p[k].push(s.last()));
                } else {
                    assert(partes(s)[k] == p[k]);
                }
            }
        } else {
            assert forall|k: int| 0 <= k < partes(s).len() implies sin_comas(#[trigger] partes(s)[k]) by {
                if k < p.len() {
                    assert(partes(s)[k] == p[k]);
                } else {
                    assert(partes(s)[k] == Seq::<char>::empty());
                }
            }
        }
    }
}

proof fn lema_sin_espacios_inicio(t: Seq<char>)
    ensures
        exists|n: int| 0 <= n <= t.len() && sin_espacios_inicio(t) == #[trigger] t.subrange(n, t.len() as int),
        sin_espacios_inicio(t).len() > 0 ==> !es_espacio(sin_espacios_inicio(t)[0]),
    decreases t.len(),
{
    if t.len() > 0 && es_espacio(t[0]) {
        lema_sin_espacios_inicio(t.drop_first());
        let n = choose|n: int|
            0 <= n <= t.drop_first().len() && sin_espacios_inicio(t.drop_first()) == #[trigger] t.drop_first().subrange(
                n,
                t.drop_first().len() as int,
            );
        assert(t.drop_first().subrange(n, t.drop_first().len() as int) =~= t.subrange(n + 1, t.len() as int));
    } else {
        assert(t.subrange(0, t.len() as int) =~= t);
    }
}

proof fn lema_sin_espacios_final(t: Seq<char>)
    ensures
        exists|m: int| 0 <= m <= t.len() && sin_espacios_final(t) == #[trigger] t.subrange(0, m),
        sin_espacios_final(t).len() > 0 ==> !es_espacio(sin_espacios_final(t).last()),
    decreases t.len(),
{
    if t.len() > 0 && es_espacio(t.last()) {
        lema_sin_espacios_final(t.drop_last());
        let m = choose|m: int|
            0 <= m <= t.drop_last().len() && sin_espacios_final(t.drop_last()) == #[trigger] t.drop_last().subrange(0, m);
        assert(t.drop_last().subrange(0, m) =~= t.subrange(0, m));
    } else {
        assert(t.subrange(0, t.len() as int) =~= t);
    }
}

proof fn lema_recortar_item(t: Seq<char>)
    requires
        sin_comas(t),
        recortar(t).len() > 0,
    ensures
        item_limpio(recortar(t)),
{
    let u = sin_espacios_inicio(t);
    lema_sin_espacios_inicio(t);
    lema_sin_espacios_final(u);
    let n = choose|n: int| 0 <= n <= t.len() && u == #[trigger] t.subrange(n, t.len() as int);
    let m = choose|m: int| 0 <= m <= u.len() && sin_espacios_final(u) == #[trigger] u.subrange(0, m);
    let r = recortar(t);
    assert(r == u.subrange(0, m));
    assert forall|i: int| 0 <= i < r.len() implies r[i] != ',' by {
        assert(r[i] == u[i]);
        assert(u[i] == t[i + n]);
    }
    assert(r[0] == u[0]);
}

proof fn lema_limpias_items(ps: Seq<Seq<char>>)
    requires
        forall|k: int| 0 <= k < ps.len() ==> sin_comas(#[trigger] ps[k]),
    ensures
        forall|k: int| 0 <= k < limpias(ps).len() ==> item_limpio(#[trigger] limpias(ps)[k]),
    decreases ps.len(),
{
    if ps.len() > 0 {
        let r = limpias(ps.drop_last());
        assert forall|k: int| 0 <= k < ps.drop_last().len() implies sin_comas(#[trigger] ps.drop_last()[k]) by {
            assert(ps.drop_last()[k] == ps[k]);
        }
        lema_limpias_items(ps.drop_last());
        let t = recortar(ps.last());
        if t.len() > 0 {
            assert(sin_comas(ps[ps.len() - 1]));
            lema_recortar_item(ps.last());
            assert forall|k: int| 0 <= k < limpias(ps).len() implies item_limpio(#[trigger] limpias(ps)[k]) by {
                if k < r.len() {
                    assert(limpias(ps)[k] == r[k]);
                }
            }
        }
    }
}

/// Every item that a list reads as is clean: not empty, without commas,
/// without whitespace at either end.
pub proof fn ley_items_limpios(s: Seq<char>)
    ensures
        forall|k: int| 0 <= k < spec_parsear_lista(s).len() ==> item_limpio(#[trigger] spec_parsear_lista(s)[k]),
{
    lema_partes_sin_comas_cada(s);
    lema_limpias_items(partes(s));
}

/// A list of clean items, written with commas between them, reads back as
/// the same list.
pub proof fn ley_lista_ida_y_vuelta(items: Seq<Seq<char>>)
    requires
        forall|k: int| 0 <= k < items.len() ==> item_limpio(#[trigger] items[k]),
    ensures
        spec_parsear_lista(unir(items, ","@)) == items,
    decreases items.len(),
{
    reveal_strlit(",");
    if items.len() == 0 {
        let e = Seq::<char>::empty();
        assert(partes(e) =~= seq![e]);
        assert(seq![e].drop_last() =~= Seq::<Seq<char>>::empty());
        assert(seq![e].last() == e);
        assert(sin_espacios_inicio(e) == e);
        assert(sin_espacios_final(e) == e);
        assert(recortar(e) == e);
        assert(limpias(Seq::<Seq<char>>::empty()) == Seq::<Seq<char>>::empty());
        assert(limpias(seq![e]) =~= Seq::<Seq<char>>::empty());
        assert(items =~= Seq::<Seq<char>>::empty());
    } else {
        let x = items.last();
        let ant = items.drop_last();
        assert(item_limpio(x));
        if items.len() == 1 {
            lema_partes_sin_comas(Seq::empty(), x);
            assert(Seq::<char>::empty() + x =~= x);
            assert(partes(Seq::<char>::empty()) =~= seq![Seq::<char>::empty()]);
            assert(Seq::<char>::empty() + x =~= x);
            let p = partes(x);
            assert(p =~= seq![x]);
            assert(p.drop_last() =~= Seq::<Seq<char>>::empty());
            lema_recortar_limpio(x);
            assert(limpias(Seq::<Seq<char>>::empty()) == Seq::<Seq<char>>::empty());
            assert(limpias(p) =~= seq![x]);
            assert(items =~= seq![x]);
        } else {
            assert forall|k: int| 0 <= k < ant.len() implies item_limpio(#[trigger] ant[k]) by {
                assert(ant[k] == items[k]);
            }
            ley_lista_ida_y_vuelta(ant);
            let a = unir(ant, ","@);
            let s = a + ","@;
            lema_partes_no_vacias(a);
            assert(s.drop_last() =~= a);
            assert(partes(s) == partes(a).push(Seq::empty()));
            lema_partes_sin_comas(s, x);
            assert(unir(items, ","@) == a + ","@ + x);
            let p = partes(a).push(Seq::<char>::empty());
            assert(Seq::<char>::empty() + x =~= x);
            assert(partes(s + x) =~= partes(a).push(x));
            assert(partes(a).push(x).drop_last() =~= partes(a));
            lema_recortar_limpio(x);
            assert(limpias(partes(a).push(x)) == limpias(partes(a)).push(x));
            assert(items =~= ant.push(x));
        }
    }
}

// ── the settings ───────────────────────────────────────────────────────────

/// The values of the environment variables that the settings read; `None`
/// for one that is not set.
pub struct VariablesEntorno {
    pub pending_pattern: Option<String>,
    pub pending_label: Option<String>,
    pub signed_pattern: Option<String>,
    pub signed_label: Option<String>,
    pub catalog_prefix: Option<String>,
    pub fk_id_prefix: Option<String>,
    pub preferred_name_cols: Option<String>,
    pub exclude_id_prefix: Option<String>,
    pub exclude_name_cols: Option<String>,
    pub view_keywords: Option<String>,
    pub fallback_pk_name: Option<String>,
    pub redactor_placeholders: Option<String>,
}

/// The settings that the environment decides.
pub struct Ajustes {
    pub pending_pattern: String,
    pub pending_label: String,
    pub signed_pattern: String,
    pub signed_label: String,
    pub analyse: AnalyseConfig,
}

/// A variable's value, or the default.
pub open spec fn valor_o(v: Option<String>, d: Seq<char>) -> Seq<char> {
    match v {
        Some(s) => s@,
        None => d,
    }
}

/// A list variable's items: its value, or the default items joined with
/// commas, read as a list.
pub open spec fn lista_o(v: Option<String>, d: Seq<Seq<char>>) -> Seq<Seq<char>> {
    spec_parsear_lista(valor_o(v, unir(d, ","@)))
}

/// What the settings are for the variables `v`, over the defaults `d`.
pub open spec fn ajustes_de(v: VariablesEntorno, d: AnalyseConfig, a: Ajustes) -> bool {
    &&& a.pending_pattern@ == valor_o(v.pending_pattern, constants::DEFAULT_PENDING_PATTERN@)
    &&& a.pending_label@ == valor_o(v.pending_label, "Pendientes"@)
    &&& a.signed_pattern@ == valor_o(v.signed_pattern, constants::DEFAULT_SIGNED_PATTERN@)
    &&& a.signed_label@ == valor_o(v.signed_label, "Firmados"@)
    &&& a.analyse.catalog_prefix@ == valor_o(v.catalog_prefix, d.catalog_prefix@)
    &&& a.analyse.fk_id_prefix@ == valor_o(v.fk_id_prefix, d.fk_id_prefix@)
    &&& vistas(a.analyse.preferred_name_cols@) == lista_o(v.preferred_name_cols, vistas(d.preferred_name_cols@))
    &&& a.analyse.exclude_id_prefix@ == valor_o(v.exclude_id_prefix, d.exclude_id_prefix@)
    &&& vistas(a.analyse.exclude_name_cols@) == lista_o(v.exclude_name_cols, vistas(d.exclude_name_cols@))
    &&& vistas(a.analyse.view_keywords@) == lista_o(v.view_keywords, vistas(d.view_keywords@))
    &&& a.analyse.fallback_pk_name@ == valor_o(v.fallback_pk_name, d.fallback_pk_name@)
    &&& vistas(a.analyse.redactor_placeholders@) == lista_o(
        v.redactor_placeholders,
        vistas(d.redactor_placeholders@),
    )
}

fn valor_o_exec(v: &Option<String>, d: &str) -> (r: String)
    ensures
        r@ == valor_o(*v, d@),
{
    match v {
        Some(s) => s.clone(),
        None => String::from_str(d),
    }
}

fn lista_o_exec(v: &Option<String>, d: &Vec<String>) -> (r: Vec<String>)
    ensures
        vistas(r@) == lista_o(*v, vistas(d@)),
{
    let unida = unir_textos(d, ",");
    assert(vista_textos(d@) =~= vistas(d@));
    let texto = valor_o_exec(v, unida.as_str());
    let r = parsear_lista(texto.as_str());
    assert(vista_textos(r@) =~= vistas(r@));
    r
}

/// The settings for the variables `v`: each variable that is set gives its
/// value, each list variable is read as a comma-separated list; a variable
/// that is not set leaves the default (a list default written with commas
/// and read back).
pub fn ajustes_desde(v: &VariablesEntorno) -> (r: Ajustes)
    ensures
        exists|d: AnalyseConfig|
            ajustes_de(*v, d, r) && d.catalog_prefix@ == "cat_"@ && d.fk_id_prefix@ == "id_"@
                && vistas(d.preferred_name_cols@) == seq!["nombre"@, "name"@, "descripcion"@, "desc"@]
                && d.exclude_id_prefix@ == "id"@
                && vistas(d.exclude_name_cols@) == seq!["created_at"@, "updated_at"@]
                && vistas(d.view_keywords@) == seq!["reporte"@, "excel"@, "vw_"@, "vista"@]
                && d.fallback_pk_name@ == constants::DEFAULT_PK_FALLBACK@
                && vistas(d.redactor_placeholders@) == seq!["#total"@, "#pendientes"@, "#firmados"@],
{
    let d = AnalyseConfig::default();
    let analyse = AnalyseConfig {
        catalog_prefix: valor_o_exec(&v.catalog_prefix, d.catalog_prefix.as_str()),
        fk_id_prefix: valor_o_exec(&v.fk_id_prefix, d.fk_id_prefix.as_str()),
        preferred_name_cols: lista_o_exec(&v.preferred_name_cols, &d.preferred_name_cols),
        exclude_id_prefix: valor_o_exec(&v.exclude_id_prefix, d.exclude_id_prefix.as_str()),
        exclude_name_cols: lista_o_exec(&v.exclude_name_cols, &d.exclude_name_cols),
        view_keywords: lista_o_exec(&v.view_keywords, &d.view_keywords),
        fallback_pk_name: valor_o_exec(&v.fallback_pk_name, d.fallback_pk_name.as_str()),
        redactor_placeholders: lista_o_exec(&v.redactor_placeholders, &d.redactor_placeholders),
    };
    let r = Ajustes {
        pending_pattern: valor_o_exec(&v.pending_pattern, constants::DEFAULT_PENDING_PATTERN),
        pending_label: valor_o_exec(&v.pending_label, "Pendientes"),
        signed_pattern: valor_o_exec(&v.signed_pattern, constants::DEFAULT_SIGNED_PATTERN),
        signed_label: valor_o_exec(&v.signed_label, "Firmados"),
        analyse,
    };
    assert(ajustes_de(*v, d, r));
    r
}

/// With no variable set, each list setting is its default list.
pub proof fn ley_listas_predeterminadas()
    ensures
        spec_parsear_lista(unir(seq!["nombre"@, "name"@, "descripcion"@, "desc"@], ","@)) == seq![
            "nombre"@,
            "name"@,
            "descripcion"@,
            "desc"@,
        ],
        spec_parsear_lista(unir(seq!["created_at"@, "updated_at"@], ","@)) == seq![
            "created_at"@,
            "updated_at"@,
        ],
        spec_parsear_lista(unir(seq!["reporte"@, "excel"@, "vw_"@, "vista"@], ","@)) == seq![
            "reporte"@,
            "excel"@,
            "vw_"@,
            "vista"@,
        ],
        spec_parsear_lista(unir(seq!["#total"@, "#pendientes"@, "#firmados"@], ","@)) == seq![
            "#total"@,
            "#pendientes"@,
            "#firmados"@,
        ],
{
    reveal_strlit("nombre");
    reveal_strlit("name");
    reveal_strlit("descripcion");
    reveal_strlit("desc");
    reveal_strlit("created_at");
    reveal_strlit("updated_at");
    reveal_strlit("reporte");
    reveal_strlit("excel");
    reveal_strlit("vw_");
    reveal_strlit("vista");
    reveal_strlit("#total");
    reveal_strlit("#pendientes");
    reveal_strlit("#firmados");
    let l1 = seq!["nombre"@, "name"@, "descripcion"@, "desc"@];
    let l2 = seq!["created_at"@, "updated_at"@];
    let l3 = seq!["reporte"@, "excel"@, "vw_"@, "vista"@];
    let l4 = seq!["#total"@, "#pendientes"@, "#firmados"@];
    assert(forall|k: int| 0 <= k < l1.len() ==> item_limpio(#[trigger] l1[k]));
    assert(forall|k: int| 0 <= k < l2.len() ==> item_limpio(#[trigger] l2[k]));
    assert(forall|k: int| 0 <= k < l3.len() ==> item_limpio(#[trigger] l3[k]));
    assert(forall|k: int| 0 <= k < l4.len() ==> item_limpio(#[trigger] l4[k]));
    ley_lista_ida_y_vuelta(l1);
    ley_lista_ida_y_vuelta(l2);
    ley_lista_ida_y_vuelta(l3);
    ley_lista_ida_y_vuelta(l4);
}

/// With no variable set, the settings are the defaults, where the default
/// lists are made of clean items.
pub proof fn ley_sin_variables(v: VariablesEntorno, d: AnalyseConfig, a: Ajustes)
    requires
        v.pending_pattern is None && v.pending_label is None,
        v.signed_pattern is None && v.signed_label is None,
        v.catalog_prefix is None && v.fk_id_prefix is None,
        v.preferred_name_cols is None && v.exclude_id_prefix is None,
        v.exclude_name_cols is None && v.view_keywords is None,
        v.fallback_pk_name is None && v.redactor_placeholders is None,
        ajustes_de(v, d, a),
        forall|k: int|
            0 <= k < d.preferred_name_cols.len() ==> item_limpio(#[trigger] d.preferred_name_cols@[k]@),
        forall|k: int|
            0 <= k < d.exclude_name_cols.len() ==> item_limpio(#[trigger] d.exclude_name_cols@[k]@),
        forall|k: int| 0 <= k < d.view_keywords.len() ==> item_limpio(#[trigger] d.view_keywords@[k]@),
        forall|k: int|
            0 <= k < d.redactor_placeholders.len() ==> item_limpio(
                #[trigger] d.redactor_placeholders@[k]@,
            ),
    ensures
        a.pending_pattern@ == constants::DEFAULT_PENDING_PATTERN@,
        a.pending_label@ == "Pendientes"@,
        a.signed_pattern@ == constants::DEFAULT_SIGNED_PATTERN@,
        a.signed_label@ == "Firmados"@,
        a.analyse.catalog_prefix@ == d.catalog_prefix@,
        a.analyse.fk_id_prefix@ == d.fk_id_prefix@,
        vistas(a.analyse.preferred_name_cols@) == vistas(d.preferred_name_cols@),
        a.analyse.exclude_id_prefix@ == d.exclude_id_prefix@,
        vistas(a.analyse.exclude_name_cols@) == vistas(d.exclude_name_cols@),
        vistas(a.analyse.view_keywords@) == vistas(d.view_keywords@),
        a.analyse.fallback_pk_name@ == d.fallback_pk_name@,
        vistas(a.analyse.redactor_placeholders@) == vistas(d.redactor_placeholders@),
{
    ley_lista_ida_y_vuelta(vistas(d.preferred_name_cols@));
    ley_lista_ida_y_vuelta(vistas(d.exclude_name_cols@));
    ley_lista_ida_y_vuelta(vistas(d.view_keywords@));
    ley_lista_ida_y_vuelta(vistas(d.redactor_placeholders@));
}

// ── files ──────────────────────────────────────────────────────────────────

/// The extension of a file name, as `Path::extension` finds it: what
/// follows the last `.`, unless there is none, the name is `..`, or the
/// only `.` begins the name.
pub open spec fn extension_de(nombre: Seq<char>) -> Option<Seq<char>> {
    if nombre == ".."@ {
        None
    } else {
        match ultimo_punto(nombre) {
            Some(i) => if i == 0 {
                None
            } else {
                Some(nombre.skip(i + 1))
            },
            None => None,
        }
    }
}

/// The position of the last `.` of a text.
pub open spec fn ultimo_punto(s: Seq<char>) -> Option<int>
    decreases s.len(),
{
    if s.len() == 0 {
        None
    } else if s.last() == '.' {
        Some(s.len() - 1)
    } else {
        ultimo_punto(s.drop_last())
    }
}

/// A database file: its extension, in lower case, is `db`, `sqlite` or
/// `sqlite3`.
pub open spec fn es_archivo_bd(nombre: Seq<char>) -> bool {
    match extension_de(nombre) {
        Some(e) => minusculas_de(e) == "db"@ || minusculas_de(e) == "sqlite"@ || minusculas_de(e)
            == "sqlite3"@,
        None => false,
    }
}

fn ultimo_punto_exec(s: &Vec<char>) -> (r: Option<usize>)
    ensures
        match r {
            Some(i) => ultimo_punto(s@) == Some(i as int) && i < s.len(),
            None => ultimo_punto(s@) is None,
        },
{
    let mut i: usize = s.len();
    assert(s@.take(s.len() as int) =~= s@);
    while i > 0
        invariant
            i <= s.len(),
            ultimo_punto(s@) == ultimo_punto(s@.take(i as int)),
        decreases i,
    {
        assert(s@.take(i as int).drop_last() =~= s@.take(i - 1));
        if s[i - 1] == '.' {
            return Some(i - 1);
        }
        i = i - 1;
    }
    None
}

/// Whether a file name is that of a database file.
pub fn es_archivo_bd_exec(nombre: &str) -> (r: bool)
    ensures
        r == es_archivo_bd(nombre@),
{
    let cs = chars_de(nombre);
    proof {
        reveal_strlit("..");
    }
    if cs.len() == 2 && cs[0] == '.' && cs[1] == '.' {
        assert(nombre@ =~= ".."@);
        return false;
    }
    assert(nombre@ != ".."@);
    match ultimo_punto_exec(&cs) {
        Some(i) => {
            if i == 0 {
                false
            } else {
                let mut ext: Vec<char> = Vec::new();
                let mut k: usize = i + 1;
                while k < cs.len()
                    invariant
                        i + 1 <= k <= cs.len(),
                        ext@ == cs@.subrange(i + 1, k as int),
                    decreases cs.len() - k,
                {
                    ext.push(cs[k]);
                    k = k + 1;
                    assert(ext@ =~= cs@.subrange(i + 1, k as int));
                }
                assert(cs@.subrange(i + 1, cs.len() as int) =~= nombre@.skip(i + 1));
                es_extension_bd(texto_de(ext).as_str())
            }
        },
        None => false,
    }
}

/// The database files among a folder's entries, in the folder's order.
pub open spec fn archivos_bd(nombres: Seq<Seq<char>>) -> Seq<Seq<char>>
    decreases nombres.len(),
{
    if nombres.len() == 0 {
        Seq::empty()
    } else {
        let r = archivos_bd(nombres.drop_last());
        if es_archivo_bd(nombres.last()) {
            r.push(nombres.last())
        } else {
            r
        }
    }
}

/// The database files among the entries of the data folder.
pub fn db_paths_in(nombres: &Vec<String>) -> (r: Vec<String>)
    ensures
        vista_textos(r@) == archivos_bd(vista_textos(nombres@)),
{
    let mut r: Vec<String> = Vec::new();
    let mut i: usize = 0;
    assert(vista_textos(nombres@).take(0) =~= Seq::<Seq<char>>::empty());
    assert(vista_textos(r@) =~= archivos_bd(vista_textos(nombres@).take(0)));
    while i < nombres.len()
        invariant
            i <= nombres.len(),
            vista_textos(r@) == archivos_bd(vista_textos(nombres@).take(i as int)),
        decreases nombres.len() - i,
    {
        assert(vista_textos(nombres@).take(i + 1).drop_last() =~= vista_textos(nombres@).take(i as int));
        if es_archivo_bd_exec(nombres[i].as_str()) {
            let ghost antes = r@;
            r.push(nombres[i].clone());
            assert(vista_textos(r@) =~= vista_textos(antes).push(nombres@[i as int]@));
        }
        i = i + 1;
    }
    assert(vista_textos(nombres@).take(nombres.len() as int) =~= vista_textos(nombres@));
    r
}

/// The default database: the first database file of the data folder, none
/// when the folder does not exist.
pub fn find_default_db(data_existe: bool, nombres: &Vec<String>) -> (r: Option<String>)
    ensures
        !data_existe ==> r is None,
        data_existe ==> match r {
            Some(n) => archivos_bd(vista_textos(nombres@)).len() > 0 && n@ == archivos_bd(
                vista_textos(nombres@),
            )[0],
            None => archivos_bd(vista_textos(nombres@)).len() == 0,
        },
{
    if !data_existe {
        return None;
    }
    let mut v = db_paths_in(nombres);
    if v.len() == 0 {
        None
    } else {
        assert(vista_textos(v@)[0] == v@[0]@);
        Some(v.swap_remove(0))
    }
}

/// The size in EMU of the image placed on a presentation's slide.
pub struct PptxConfig {
    pub image_w_emu: i64,
    pub image_h_emu: i64,
}

impl Default for PptxConfig {
    fn default() -> (r: Self)
        ensures
            r.image_w_emu == 9_144_000,
            r.image_h_emu == 6_858_000,
    {
        PptxConfig { image_w_emu: 9_144_000, image_h_emu: 6_858_000 }
    }
}

} // verus!
