//! What the exports write: the sheet of the Excel report with its column
//! widths, and the lines of counts of the PDF report.

use vstd::prelude::*;
use crate::db::types::DashboardData;
use crate::redactor::{valor_de_columna, valor_en_fila};
use crate::texto::{decimal, texto_decimal, vista_textos};

verus! {

/// The cells of the report's sheet: the column names, then one row per
/// record with the value of each column.
pub fn hoja_excel(d: &DashboardData) -> (r: Vec<Vec<String>>)
    ensures
        r.len() == d.tabla.len() + 1,
        vista_textos(r@[0]@) == vista_textos(d.columnas_tabla@),
        forall|k: int|
            0 <= k < d.tabla.len() ==> (#[trigger] r@[k + 1]).len() == d.columnas_tabla.len(),
        forall|k: int, c: int|
            0 <= k < d.tabla.len() && 0 <= c < d.columnas_tabla.len() ==> (#[trigger] r@[k + 1]@[c])@
                == valor_en_fila(
                vista_textos(d.columnas_tabla@),
                vista_textos(d.tabla@[k]@),
                d.columnas_tabla@[c]@,
            ),
{
    let cols = &d.columnas_tabla;
    let mut r: Vec<Vec<String>> = Vec::new();
    let mut cab: Vec<String> = Vec::new();
    let mut c: usize = 0;
    while c < cols.len()
        invariant
            c <= cols.len(),
            vista_textos(cab@) =~= vista_textos(cols@).take(c as int),
        decreases cols.len() - c,
    {
        let ghost antes = cab@;
        cab.push(cols[c].clone());
        assert(vista_textos(cab@) =~= vista_textos(antes).push(cols@[c as int]@));
        c = c + 1;
    }
    assert(vista_textos(cols@).take(cols.len() as int) =~= vista_textos(cols@));
    r.push(cab);
    let mut k: usize = 0;
    while k < d.tabla.len()
        invariant
            k <= d.tabla.len(),
            cols == d.columnas_tabla,
            r.len() == k + 1,
            vista_textos(r@[0]@) == vista_textos(cols@),
            forall|m: int| 0 <= m < k ==> (#[trigger] r@[m + 1]).len() == cols.len(),
            forall|m: int, c: int|
                0 <= m < k && 0 <= c < cols.len() ==> (#[trigger] r@[m + 1]@[c])@ == valor_en_fila(
                    vista_textos(cols@),
                    vista_textos(d.tabla@[m]@),
                    cols@[c]@,
                ),
        decreases d.tabla.len() - k,
    {
        let fila = &d.tabla[k];
        let mut v: Vec<String> = Vec::new();
        let mut c: usize = 0;
        while c < cols.len()
            invariant
                c <= cols.len(),
                v.len() == c,
                forall|j: int|
                    0 <= j < c ==> (#[trigger] v@[j])@ == valor_en_fila(
                        vista_textos(cols@),
                        vista_textos(fila@),
                        cols@[j]@,
                    ),
            decreases cols.len() - c,
        {
            v.push(valor_de_columna(cols, fila, &cols[c]));
            c = c + 1;
        }
        r.push(v);
        k = k + 1;
    }
    r
}

/// A column's width in the sheet: its name's length in UTF-8 bytes, kept
/// between ten and fifty, plus two.
pub open spec fn spec_ancho_columna(nombre: Seq<char>) -> nat {
    let n = vstd::utf8::encode_utf8(nombre).len() as usize;
    ((if n < 10 {
        10
    } else if n > 50 {
        50
    } else {
        n as int
    }) + 2) as nat
}

pub fn ancho_columna(nombre: &str) -> (r: u64)
    ensures
        r == spec_ancho_columna(nombre@),
{
    let n = nombre.len();
    let m: u64 = if n < 10 {
        10
    } else if n > 50 {
        50
    } else {
        n as u64
    };
    m + 2
}

/// The widths of the sheet's columns.
pub fn anchos_columnas(cols: &Vec<String>) -> (r: Vec<u64>)
    ensures
        r.len() == cols.len(),
        forall|i: int| 0 <= i < r.len() ==> #[trigger] r@[i] == spec_ancho_columna(cols@[i]@),
{
    let mut r: Vec<u64> = Vec::new();
    let mut i: usize = 0;
    while i < cols.len()
        invariant
            i <= cols.len(),
            r.len() == i,
            forall|j: int| 0 <= j < i ==> #[trigger] r@[j] == spec_ancho_columna(cols@[j]@),
        decreases cols.len() - i,
    {
        r.push(ancho_columna(cols[i].as_str()));
        i = i + 1;
    }
    r
}

/// The counts line under the report's title.
pub fn texto_registros(d: &DashboardData) -> (r: String)
    ensures
        r@ == "Registros: "@ + decimal(d.total_general as nat) + " | Pendientes: "@ + decimal(
            d.total_pendientes as nat,
        ) + " | Firmados: "@ + decimal(d.total_firmados as nat),
{
    let mut r = String::from_str("Registros: ");
    r.append(texto_decimal(d.total_general).as_str());
    r.append(" | Pendientes: ");
    r.append(texto_decimal(d.total_pendientes).as_str());
    r.append(" | Firmados: ");
    r.append(texto_decimal(d.total_firmados).as_str());
    r
}

/// The counts line at the foot of the report.
pub fn texto_estadisticas(d: &DashboardData) -> (r: String)
    ensures
        r@ == "Total: "@ + decimal(d.total_general as nat) + " | Pendientes: "@ + decimal(
            d.total_pendientes as nat,
        ) + " | Firmados: "@ + decimal(d.total_firmados as nat) + " | Universo: "@ + decimal(
            d.total_matching as nat,
        ),
{
    let mut r = String::from_str("Total: ");
    r.append(texto_decimal(d.total_general).as_str());
    r.append(" | Pendientes: ");
    r.append(texto_decimal(d.total_pendientes).as_str());
    r.append(" | Firmados: ");
    r.append(texto_decimal(d.total_firmados).as_str());
    r.append(" | Universo: ");
    r.append(texto_decimal(d.total_matching).as_str());
    r
}

} // verus!
