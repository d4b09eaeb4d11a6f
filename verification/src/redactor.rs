//! Report templates: `#total`, `#pendientes` and `#firmados` become the
//! dashboard's counts, and `#column` the values of that column in the
//! dashboard's page.

use vstd::prelude::*;
use crate::db::types::{ColumnaInfo, DashboardData, SchemaMetadata};
use crate::texto::{
    anexar, chars_de, contiene, contiene_exec, decimal, es_espacio, espacio, reemplazar,
    reemplazar_car, reemplazar_car_exec, reemplazar_exec, texto_de, texto_decimal, vista_textos,
    lema_reemplazar_ausente,
};

verus! {

/// A column's name as shown: underscores become spaces.
pub open spec fn spec_limpiar_nombre(n: Seq<char>) -> Seq<char> {
    reemplazar_car(n, '_', seq![' '])
}

pub fn limpiar_nombre(n: &str) -> (r: String)
    ensures
        r@ == spec_limpiar_nombre(n@),
{
    let mut espacio_v: Vec<char> = Vec::new();
    espacio_v.push(' ');
    assert(espacio_v@ =~= seq![' ']);
    texto_de(reemplazar_car_exec(&chars_de(n), '_', &espacio_v))
}

/// Nothing but whitespace.
pub open spec fn en_blanco(s: Seq<char>) -> bool {
    forall|i: int| 0 <= i < s.len() ==> es_espacio(#[trigger] s[i])
}

/// The last position of column `nombre`: a row keeps the last of equally
/// named columns.
pub open spec fn ultima_columna(cols: Seq<Seq<char>>, nombre: Seq<char>) -> Option<int>
    decreases cols.len(),
{
    if cols.len() == 0 {
        None
    } else if cols.last() == nombre {
        Some(cols.len() - 1)
    } else {
        ultima_columna(cols.drop_last(), nombre)
    }
}

/// The value of column `nombre` in a row of the table, or nothing.
pub open spec fn valor_en_fila(cols: Seq<Seq<char>>, fila: Seq<Seq<char>>, nombre: Seq<char>) -> Seq<char> {
    match ultima_columna(cols, nombre) {
        Some(j) => if j < fila.len() {
            fila[j]
        } else {
            Seq::empty()
        },
        None => Seq::empty(),
    }
}

/// The values of column `nombre` in the dashboard's rows, in order.
pub open spec fn valores_columna(d: DashboardData, nombre: Seq<char>) -> Seq<Seq<char>> {
    Seq::new(
        d.tabla.len() as nat,
        |k: int| valor_en_fila(vista_textos(d.columnas_tabla@), vista_textos(d.tabla@[k]@), nombre),
    )
}

/// The values as list items, each on a line of its own.
pub open spec fn lista(vals: Seq<Seq<char>>) -> Seq<char>
    decreases vals.len(),
{
    if vals.len() == 0 {
        Seq::empty()
    } else {
        lista(vals.drop_last()) + "\n  - "@ + vals.last()
    }
}

/// What a column's placeholder becomes: `(sin registros)` with no rows and
/// no records, `(0 valores)` with no rows but records, the value itself
/// with one row, else the count and the values as a list.
pub open spec fn reemplazo(vals: Seq<Seq<char>>, total_general: u64) -> Seq<char> {
    if vals.len() == 0 {
        if total_general == 0 {
            "(sin registros)"@
        } else {
            "("@ + decimal(0) + " valores)"@
        }
    } else if vals.len() == 1 {
        vals[0]
    } else {
        "("@ + decimal(vals.len()) + " registros):"@ + lista(vals)
    }
}

/// One column's step: its placeholder, `#` and the shown name, else `#`
/// and the name, is replaced when the text holds it.
pub open spec fn paso_columna(r: Seq<char>, nombre: Seq<char>, d: DashboardData) -> Seq<char> {
    let ph = "#"@ + spec_limpiar_nombre(nombre);
    let alt = "#"@ + nombre;
    let rep = reemplazo(valores_columna(d, nombre), d.total_general);
    if contiene(r, ph) {
        reemplazar(r, ph, rep)
    } else if contiene(r, alt) {
        reemplazar(r, alt, rep)
    } else {
        r
    }
}

/// The steps of the columns, in order.
pub open spec fn pasos(r: Seq<char>, cols: Seq<ColumnaInfo>, d: DashboardData) -> Seq<char>
    decreases cols.len(),
{
    if cols.len() == 0 {
        r
    } else {
        paso_columna(pasos(r, cols.drop_last(), d), cols.last().nombre@, d)
    }
}

/// The template with the counts put in.
pub open spec fn con_metricas(t: Seq<char>, d: DashboardData) -> Seq<char> {
    let a = reemplazar(t, "#total"@, decimal(d.total_general as nat));
    let b = reemplazar(a, "#pendientes"@, decimal(d.total_pendientes as nat));
    reemplazar(b, "#firmados"@, decimal(d.total_firmados as nat))
}

/// The report a template gives: a request for a template when it is blank,
/// else the template with the counts and then each column's values put in.
pub open spec fn redactado(t: Seq<char>, d: DashboardData, m: SchemaMetadata) -> Seq<char> {
    if en_blanco(t) {
        "Escribe una plantilla primero."@
    } else {
        pasos(con_metricas(t, d), m.columnas@, d)
    }
}

/// A template and the report written from it.
pub struct Redactor {
    pub template: String,
    pub output: String,
}

fn en_blanco_exec(t: &Vec<char>) -> (r: bool)
    ensures
        r == en_blanco(t@),
{
    let mut i: usize = 0;
    while i < t.len()
        invariant
            i <= t.len(),
            forall|j: int| 0 <= j < i ==> es_espacio(#[trigger] t@[j]),
        decreases t.len() - i,
    {
        if !espacio(t[i]) {
            return false;
        }
        i = i + 1;
    }
    true
}

/// The last position of `nombre` among `cols`.
fn ultima_columna_exec(cols: &Vec<String>, nombre: &String) -> (r: Option<usize>)
    ensures
        match r {
            Some(j) => j < cols.len() && ultima_columna(vista_textos(cols@), nombre@) == Some(j as int),
            None => ultima_columna(vista_textos(cols@), nombre@) is None,
        },
{
    let mut i: usize = cols.len();
    assert(vista_textos(cols@).take(cols.len() as int) =~= vista_textos(cols@));
    while i > 0
        invariant
            i <= cols.len(),
            ultima_columna(vista_textos(cols@), nombre@) == ultima_columna(
                vista_textos(cols@).take(i as int),
                nombre@,
            ),
        decreases i,
    {
        assert(vista_textos(cols@).take(i as int).drop_last() =~= vista_textos(cols@).take(i - 1));
        if cols[i - 1] == *nombre {
            return Some(i - 1);
        }
        i = i - 1;
    }
    None
}

/// The value of column `nombre` in a row of the table (the last column of
/// that name), or nothing.
pub fn valor_de_columna(cols: &Vec<String>, fila: &Vec<String>, nombre: &String) -> (r: String)
    ensures
        r@ == valor_en_fila(vista_textos(cols@), vista_textos(fila@), nombre@),
{
    match ultima_columna_exec(cols, nombre) {
        Some(j) => if j < fila.len() {
            fila[j].clone()
        } else {
            String::new()
        },
        None => String::new(),
    }
}

fn valores_columna_exec(d: &DashboardData, nombre: &String) -> (r: Vec<Vec<char>>)
    ensures
        r.len() == d.tabla.len(),
        forall|k: int| 0 <= k < r.len() ==> (#[trigger] r@[k])@ == valores_columna(*d, nombre@)[k],
{
    let j = ultima_columna_exec(&d.columnas_tabla, nombre);
    let mut r: Vec<Vec<char>> = Vec::new();
    let mut k: usize = 0;
    while k < d.tabla.len()
        invariant
            k <= d.tabla.len(),
            r.len() == k,
            match j {
                Some(x) => x < d.columnas_tabla.len() && ultima_columna(
                    vista_textos(d.columnas_tabla@),
                    nombre@,
                ) == Some(x as int),
                None => ultima_columna(vista_textos(d.columnas_tabla@), nombre@) is None,
            },
            forall|m: int| 0 <= m < k ==> (#[trigger] r@[m])@ == valores_columna(*d, nombre@)[m],
        decreases d.tabla.len() - k,
    {
        let fila = &d.tabla[k];
        let v = match j {
            Some(x) => if x < fila.len() {
                chars_de(fila[x].as_str())
            } else {
                Vec::new()
            },
            None => Vec::new(),
        };
        r.push(v);
        k = k + 1;
    }
    r
}

fn reemplazo_exec(vals: &Vec<Vec<char>>, total_general: u64, Ghost(vs): Ghost<Seq<Seq<char>>>) -> (r: Vec<char>)
    requires
        vals.len() == vs.len(),
        forall|k: int| 0 <= k < vals.len() ==> (#[trigger] vals@[k])@ == vs[k],
    ensures
        r@ == reemplazo(vs, total_general),
{
    if vals.len() == 0 {
        if total_general == 0 {
            chars_de("(sin registros)")
        } else {
            let mut r = chars_de("(");
            anexar(&mut r, &chars_de(texto_decimal(0).as_str()));
            anexar(&mut r, &chars_de(" valores)"));
            r
        }
    } else if vals.len() == 1 {
        let mut r: Vec<char> = Vec::new();
        anexar(&mut r, &vals[0]);
        assert(r@ =~= vs[0]);
        r
    } else {
        let mut r = chars_de("(");
        anexar(&mut r, &chars_de(texto_decimal(vals.len() as u64).as_str()));
        anexar(&mut r, &chars_de(" registros):"));
        let ghost cabeza = r@;
        let mut i: usize = 0;
        while i < vals.len()
            invariant
                i <= vals.len(),
                vals.len() == vs.len(),
                forall|k: int| 0 <= k < vals.len() ==> (#[trigger] vals@[k])@ == vs[k],
                r@ == cabeza + lista(vs.take(i as int)),
            decreases vals.len() - i,
        {
            assert(vs.take(i + 1).drop_last() =~= vs.take(i as int));
            anexar(&mut r, &chars_de("\n  - "));
            anexar(&mut r, &vals[i]);
            assert(r@ =~= cabeza + lista(vs.take(i + 1)));
            i = i + 1;
        }
        assert(vs.take(vals.len() as int) =~= vs);
        r
    }
}

fn paso_columna_exec(r: Vec<char>, nombre: &String, d: &DashboardData) -> (res: Vec<char>)
    ensures
        res@ == paso_columna(r@, nombre@, *d),
{
    let mut ph = chars_de("#");
    anexar(&mut ph, &chars_de(limpiar_nombre(nombre.as_str()).as_str()));
    let mut alt = chars_de("#");
    anexar(&mut alt, &chars_de(nombre.as_str()));
    proof {
        reveal_strlit("#");
    }
    let elegido = if contiene_exec(&r, &ph) {
        ph
    } else if contiene_exec(&r, &alt) {
        alt
    } else {
        return r;
    };
    let vals = valores_columna_exec(d, nombre);
    let rep = reemplazo_exec(&vals, d.total_general, Ghost(valores_columna(*d, nombre@)));
    reemplazar_exec(&r, &elegido, &rep)
}

impl Redactor {
    pub fn new() -> (r: Self)
        ensures
            r.template@.len() == 0,
            r.output@.len() == 0,
    {
        Redactor { template: String::new(), output: String::new() }
    }

    /// Writes the report of the template (see `redactado`) into `output`.
    pub fn redactar(&mut self, data: &DashboardData, meta: &SchemaMetadata)
        ensures
            final(self).template == old(self).template,
            final(self).output@ == redactado(old(self).template@, *data, *meta),
    {
        let t = chars_de(self.template.as_str());
        if en_blanco_exec(&t) {
            self.output = String::from_str("Escribe una plantilla primero.");
            return;
        }
        proof {
            reveal_strlit("#total");
            reveal_strlit("#pendientes");
            reveal_strlit("#firmados");
        }
        let mut r = reemplazar_exec(&t, &chars_de("#total"), &chars_de(texto_decimal(data.total_general).as_str()));
        r = reemplazar_exec(&r, &chars_de("#pendientes"), &chars_de(texto_decimal(data.total_pendientes).as_str()));
        r = reemplazar_exec(&r, &chars_de("#firmados"), &chars_de(texto_decimal(data.total_firmados).as_str()));
        let ghost base = r@;
        let cols = &meta.columnas;
        let mut i: usize = 0;
        assert(cols@.take(0) =~= Seq::<ColumnaInfo>::empty());
        while i < cols.len()
            invariant
                i <= cols.len(),
                cols == meta.columnas,
                r@ == pasos(base, cols@.take(i as int), *data),
            decreases cols.len() - i,
        {
            assert(cols@.take(i + 1).drop_last() =~= cols@.take(i as int));
            r = paso_columna_exec(r, &cols[i].nombre, data);
            i = i + 1;
        }
        assert(cols@.take(cols.len() as int) =~= cols@);
        self.output = texto_de(r);
    }
}

/// A template that is not blank and has no `#` comes back as it is.
pub proof fn ley_plantilla_sin_marcas(t: Seq<char>, d: DashboardData, m: SchemaMetadata)
    requires
        !en_blanco(t),
        forall|i: int| 0 <= i < t.len() ==> t[i] != '#',
    ensures
        redactado(t, d, m) == t,
{
    reveal_strlit("#total");
    reveal_strlit("#pendientes");
    reveal_strlit("#firmados");
    reveal_strlit("#");
    lema_reemplazar_ausente(t, "#total"@, decimal(d.total_general as nat));
    lema_reemplazar_ausente(t, "#pendientes"@, decimal(d.total_pendientes as nat));
    lema_reemplazar_ausente(t, "#firmados"@, decimal(d.total_firmados as nat));
    lema_pasos_sin_marcas(t, m.columnas@, d);
}

proof fn lema_pasos_sin_marcas(t: Seq<char>, cols: Seq<ColumnaInfo>, d: DashboardData)
    requires
        forall|i: int| 0 <= i < t.len() ==> t[i] != '#',
    ensures
        pasos(t, cols, d) == t,
    decreases cols.len(),
{
    if cols.len() > 0 {
        lema_pasos_sin_marcas(t, cols.drop_last(), d);
        reveal_strlit("#");
        let n = cols.last().nombre@;
        let ph = "#"@ + spec_limpiar_nombre(n);
        let alt = "#"@ + n;
        let rep = reemplazo(valores_columna(d, n), d.total_general);
        lema_reemplazar_ausente(t, ph, rep);
        lema_reemplazar_ausente(t, alt, rep);
    }
}

} // verus!
