//! Identifier checks and quoting, name clean-up and date reading.

use vstd::prelude::*;
use crate::texto::{
    alfanumerico, alfanumerico_ascii, anexar, chars_de, empieza_con, empieza_con_exec,
    es_alfanumerico, minusculas, minusculas_de, reemplazar_car, reemplazar_car_exec, texto_de,
};
use chrono::Datelike;

verus! {

/// A character allowed in a plain identifier.
pub open spec fn es_car_ident(c: char) -> bool {
    es_alfanumerico(c) || c == '_'
}

/// A non-empty name made only of alphanumeric characters and underscores.
pub open spec fn spec_clean_identifier(s: Seq<char>) -> bool {
    s.len() > 0 && forall|i: int| 0 <= i < s.len() ==> es_car_ident(#[trigger] s[i])
}

/// The body of a quoted SQL identifier: every double quote doubled.
pub open spec fn escapar_comillas(s: Seq<char>) -> Seq<char> {
    reemplazar_car(s, '"', seq!['"', '"'])
}

/// A name as a double-quoted SQL identifier.
pub open spec fn spec_safe_ident(s: Seq<char>) -> Seq<char> {
    seq!['"'] + escapar_comillas(s) + seq!['"']
}

/// `name` without `prefix` when it starts with it, else `name` itself.
pub open spec fn spec_strip_prefix(name: Seq<char>, prefix: Seq<char>) -> Seq<char> {
    if empieza_con(name, prefix) {
        name.skip(prefix.len() as int)
    } else {
        name
    }
}

/// `name` with every underscore shown as a space.
pub open spec fn spec_display_name(name: Seq<char>) -> Seq<char> {
    reemplazar_car(name, '_', seq![' '])
}

/// Whether `name` is a non-empty run of alphanumeric characters and
/// underscores, the names that may be put into SQL text.
pub fn clean_identifier(name: &str) -> (r: bool)
    ensures
        r == spec_clean_identifier(name@),
{
    let n = name.unicode_len();
    if n == 0 {
        return false;
    }
    let mut i: usize = 0;
    while i < n
        invariant
            n == name@.len(),
            i <= n,
            forall|j: int| 0 <= j < i ==> es_car_ident(#[trigger] name@[j]),
        decreases n - i,
    {
        let c = name.get_char(i);
        if !(alfanumerico(c) || c == '_') {
            return false;
        }
        i = i + 1;
    }
    true
}

/// The name as a double-quoted SQL identifier, its double quotes doubled.
pub fn safe_ident(name: &str) -> (r: String)
    ensures
        r@ == spec_safe_ident(name@),
{
    let cs = chars_de(name);
    let mut dobles: Vec<char> = Vec::new();
    dobles.push('"');
    dobles.push('"');
    assert(dobles@ =~= seq!['"', '"']);
    let cuerpo = reemplazar_car_exec(&cs, '"', &dobles);
    let mut v: Vec<char> = Vec::new();
    v.push('"');
    anexar(&mut v, &cuerpo);
    v.push('"');
    assert(v@ =~= spec_safe_ident(name@));
    texto_de(v)
}

/// `name` without `prefix` when it starts with it, else `name` itself.
pub fn strip_fk_prefix(name: &str, prefix: &str) -> (r: String)
    ensures
        r@ == spec_strip_prefix(name@, prefix@),
{
    let n = chars_de(name);
    let p = chars_de(prefix);
    if empieza_con_exec(&n, &p) {
        let resto = name.substring_char(p.len(), n.len());
        assert(name@.subrange(p.len() as int, n.len() as int) =~= name@.skip(p.len() as int));
        String::from_str(resto)
    } else {
        String::from_str(name)
    }
}

/// `name` with every underscore shown as a space.
pub fn display_name(name: &str) -> (r: String)
    ensures
        r@ == spec_display_name(name@),
{
    let cs = chars_de(name);
    let mut espacio: Vec<char> = Vec::new();
    espacio.push(' ');
    assert(espacio@ =~= seq![' ']);
    texto_de(reemplazar_car_exec(&cs, '_', &espacio))
}

/// Whether a file extension (any case) is one of a SQLite database:
/// `db`, `sqlite` or `sqlite3`.
pub fn es_extension_bd(ext: &str) -> (r: bool)
    ensures
        r == (minusculas_de(ext@) == "db"@ || minusculas_de(ext@) == "sqlite"@
            || minusculas_de(ext@) == "sqlite3"@),
{
    let m = minusculas(ext);
    m == String::from_str("db") || m == String::from_str("sqlite") || m == String::from_str(
        "sqlite3",
    )
}

// ── dates ──────────────────────────────────────────────────────────────────

/// A calendar date.
#[derive(Debug, Clone, Copy, PartialEq, Eq, Structural)]
pub struct Fecha {
    pub anio: i32,
    pub mes: u32,
    pub dia: u32,
}

/// The date that `chrono::NaiveDate::parse_from_str` reads from a text with a
/// format, if it reads one.
pub uninterp spec fn fecha_leida(texto: Seq<char>, formato: Seq<char>) -> Option<Fecha>;

/// Calls `chrono::NaiveDate::parse_from_str`. What it accepts is chrono's
/// format language and is only named; a date it returns is a valid date, so
/// its month is 1 to 12 and its day 1 to 31.
#[verifier::external_body]
fn leer_fecha(texto: &str, formato: &str) -> (r: Option<Fecha>)
    ensures
        r == fecha_leida(texto@, formato@),
        r matches Some(f) ==> 1 <= f.mes <= 12 && 1 <= f.dia <= 31,
{
    chrono::NaiveDate::parse_from_str(texto, formato).ok().map(
        |d| Fecha { anio: d.year(), mes: d.month(), dia: d.day() },
    )
}

/// The date written in `date_str` as day/month/year, or `fallback` when it
/// cannot be read.
pub fn safe_date_parse(date_str: &str, fallback: Fecha) -> (r: Fecha)
    ensures
        r == (match fecha_leida(date_str@, super::constants::DATE_FORMAT@) {
            Some(f) => f,
            None => fallback,
        }),
{
    match leer_fecha(date_str, super::constants::DATE_FORMAT) {
        Some(d) => d,
        None => fallback,
    }
}

// ── laws ───────────────────────────────────────────────────────────────────

proof fn lema_escapar_cabeza(s: Seq<char>)
    requires
        s.len() > 0,
    ensures
        escapar_comillas(s) == (if s[0] == '"' {
            seq!['"', '"']
        } else {
            seq![s[0]]
        }) + escapar_comillas(s.drop_first()),
{
}

proof fn lema_escapar_sin_comillas(s: Seq<char>)
    requires
        forall|i: int| 0 <= i < s.len() ==> s[i] != '"',
    ensures
        escapar_comillas(s) == s,
    decreases s.len(),
{
    if s.len() > 0 {
        lema_escapar_sin_comillas(s.drop_first());
        assert(seq![s[0]] + s.drop_first() =~= s);
    }
}

proof fn lema_escapar_inyectivo(a: Seq<char>, b: Seq<char>)
    requires
        escapar_comillas(a) == escapar_comillas(b),
    ensures
        a == b,
    decreases a.len() + b.len(),
{
    if a.len() == 0 {
        if b.len() > 0 {
            lema_escapar_cabeza(b);
            assert(escapar_comillas(b).len() > 0);
        }
        assert(a =~= b);
    } else if b.len() == 0 {
        lema_escapar_cabeza(a);
        assert(escapar_comillas(a).len() > 0);
    } else {
        lema_escapar_cabeza(a);
        lema_escapar_cabeza(b);
        let ea = escapar_comillas(a);
        let eb = escapar_comillas(b);
        let ha = if a[0] == '"' { seq!['"', '"'] } else { seq![a[0]] };
        let hb = if b[0] == '"' { seq!['"', '"'] } else { seq![b[0]] };
        assert(ea[0] == ha[0]);
        assert(eb[0] == hb[0]);
        assert(a[0] == b[0]);
        assert(ha == hb);
        assert(ea.skip(ha.len() as int) =~= escapar_comillas(a.drop_first()));
        assert(eb.skip(hb.len() as int) =~= escapar_comillas(b.drop_first()));
        lema_escapar_inyectivo(a.drop_first(), b.drop_first());
        assert(a =~= seq![a[0]] + a.drop_first());
        assert(b =~= seq![b[0]] + b.drop_first());
    }
}

/// The number of double quotes in a text.
pub open spec fn comillas_en(s: Seq<char>) -> nat
    decreases s.len(),
{
    if s.len() == 0 {
        0
    } else {
        (if s[0] == '"' { 1nat } else { 0nat }) + comillas_en(s.drop_first())
    }
}

/// Reads the body of a quoted identifier back: each doubled double quote is
/// one double quote, any other character itself.
pub open spec fn desescapar(q: Seq<char>) -> Seq<char>
    decreases q.len(),
{
    if q.len() == 0 {
        Seq::empty()
    } else if q.len() >= 2 && q[0] == '"' && q[1] == '"' {
        seq!['"'] + desescapar(q.skip(2))
    } else {
        seq![q[0]] + desescapar(q.drop_first())
    }
}

proof fn lema_escapar_largo_y_lectura(s: Seq<char>)
    ensures
        escapar_comillas(s).len() == s.len() + comillas_en(s),
        desescapar(escapar_comillas(s)) == s,
    decreases s.len(),
{
    if s.len() > 0 {
        lema_escapar_cabeza(s);
        lema_escapar_largo_y_lectura(s.drop_first());
        let e = escapar_comillas(s);
        let resto = escapar_comillas(s.drop_first());
        if s[0] == '"' {
            assert(e.skip(2) =~= resto);
            assert(e[0] == '"' && e[1] == '"');
        } else {
            assert(e.drop_first() =~= resto);
            assert(e[0] == s[0]);
        }
        assert(s =~= seq![s[0]] + s.drop_first());
    }
}

/// A quoted identifier is the name between double quotes with each double
/// quote doubled: it is two characters longer than the name plus one for
/// each double quote in it, and reading its body back gives the name.
pub proof fn ley_safe_ident_se_lee(name: Seq<char>)
    ensures
        spec_safe_ident(name).len() == name.len() + comillas_en(name) + 2,
        spec_safe_ident(name)[0] == '"',
        spec_safe_ident(name).last() == '"',
        desescapar(spec_safe_ident(name).subrange(1, spec_safe_ident(name).len() - 1)) == name,
{
    lema_escapar_largo_y_lectura(name);
    let q = spec_safe_ident(name);
    assert(q.subrange(1, q.len() - 1) =~= escapar_comillas(name));
}

/// Quoting adds no character but double quotes: a character other than a
/// double quote that a name lacks, its quoted form lacks too.
pub proof fn lema_safe_ident_sin_caracter(s: Seq<char>, x: char)
    requires
        x != '"',
        forall|i: int| 0 <= i < s.len() ==> s[i] != x,
    ensures
        forall|i: int| 0 <= i < spec_safe_ident(s).len() ==> spec_safe_ident(s)[i] != x,
{
    lema_escapar_sin_caracter(s, x);
    let q = spec_safe_ident(s);
    let e = escapar_comillas(s);
    assert forall|i: int| 0 <= i < q.len() implies q[i] != x by {
        if 0 < i < q.len() - 1 {
            assert(q[i] == e[i - 1]);
        }
    }
}

proof fn lema_escapar_sin_caracter(s: Seq<char>, x: char)
    requires
        x != '"',
        forall|i: int| 0 <= i < s.len() ==> s[i] != x,
    ensures
        forall|i: int| 0 <= i < escapar_comillas(s).len() ==> escapar_comillas(s)[i] != x,
    decreases s.len(),
{
    if s.len() > 0 {
        lema_escapar_cabeza(s);
        lema_escapar_sin_caracter(s.drop_first(), x);
        let h = if s[0] == '"' { seq!['"', '"'] } else { seq![s[0]] };
        let t = escapar_comillas(s.drop_first());
        assert forall|i: int| 0 <= i < (h + t).len() implies (h + t)[i] != x by {
            if i >= h.len() {
                assert((h + t)[i] == t[i - h.len()]);
            }
        }
    }
}

/// Read from the left, every double quote of `b` is followed by another, the
/// two read as one (how SQLite reads the body of a quoted identifier).
pub open spec fn comillas_en_pares(b: Seq<char>) -> bool
    decreases b.len(),
{
    if b.len() == 0 {
        true
    } else if b[0] == '"' {
        b.len() >= 2 && b[1] == '"' && comillas_en_pares(b.skip(2))
    } else {
        comillas_en_pares(b.drop_first())
    }
}

proof fn lema_escapar_en_pares(s: Seq<char>)
    ensures
        comillas_en_pares(escapar_comillas(s)),
    decreases s.len(),
{
    if s.len() > 0 {
        lema_escapar_cabeza(s);
        lema_escapar_en_pares(s.drop_first());
        let e = escapar_comillas(s);
        let resto = escapar_comillas(s.drop_first());
        if s[0] == '"' {
            assert(e.skip(2) =~= resto);
        } else {
            assert(e.drop_first() =~= resto);
        }
    }
}

/// A quoted identifier cannot be closed early: in its body every double
/// quote is doubled, so SQLite reads the whole name up to the last quote.
pub proof fn ley_safe_ident_no_se_cierra(name: Seq<char>)
    ensures
        comillas_en_pares(spec_safe_ident(name).subrange(1, spec_safe_ident(name).len() - 1)),
{
    lema_escapar_en_pares(name);
    let q = spec_safe_ident(name);
    assert(q.subrange(1, q.len() - 1) =~= escapar_comillas(name));
}

/// A name that passes `clean_identifier` is quoted without change: its
/// quoted form is the name between double quotes.
pub proof fn ley_ident_limpio_sin_cambios(name: Seq<char>)
    requires
        spec_clean_identifier(name),
    ensures
        spec_safe_ident(name) == seq!['"'] + name + seq!['"'],
{
    assert forall|i: int| 0 <= i < name.len() implies name[i] != '"' by {
        assert(es_car_ident(name[i]));
    }
    lema_escapar_sin_comillas(name);
}

/// Quoting never merges two names: different names give different quoted
/// identifiers.
pub proof fn ley_safe_ident_inyectivo(a: Seq<char>, b: Seq<char>)
    requires
        spec_safe_ident(a) == spec_safe_ident(b),
    ensures
        a == b,
{
    let qa = spec_safe_ident(a);
    let qb = spec_safe_ident(b);
    assert(qa.subrange(1, qa.len() - 1) =~= escapar_comillas(a));
    assert(qb.subrange(1, qb.len() - 1) =~= escapar_comillas(b));
    lema_escapar_inyectivo(a, b);
}

} // verus!
