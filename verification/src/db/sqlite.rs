//! Access to SQLite through `rusqlite`: statements are prepared, bound and
//! stepped by `rusqlite`; each cell is handed to the library as a plain
//! [`ValorSql`], and the typed readings that the rest of the library performs on
//! cells follow `rusqlite`'s `FromSql` rules.

use vstd::prelude::*;
use vstd::utf8::{decode_utf8, valid_utf8};
use crate::texto::{decimal_con_signo, texto_entero};

verus! {

#[verifier::external_type_specification]
#[verifier::external_body]
pub struct ExConnection(rusqlite::Connection);

#[verifier::external_type_specification]
#[verifier::external_body]
pub struct ExStatement<'conn>(rusqlite::Statement<'conn>);

#[verifier::external_type_specification]
#[verifier::external_body]
pub struct ExRows<'stmt>(rusqlite::Rows<'stmt>);

#[verifier::external_type_specification]
#[verifier::external_body]
pub struct ExError(rusqlite::Error);

#[verifier::external_type_specification]
#[verifier::external_body]
pub struct ExValue(rusqlite::types::Value);

#[verifier::external_type_specification]
#[verifier::external_body]
pub struct ExValueRef<'a>(rusqlite::types::ValueRef<'a>);

/// A SQLite REAL. `Entero(i)` stands for the double nearest to `i` (what an
/// integer becomes when read as a REAL); `Decimal(d)` for the double whose
/// shortest round-trip decimal form is `d`. The library never computes with
/// it: it only carries it between the database and the caller.
#[derive(Debug)]
pub enum Real {
    Entero(i64),
    Decimal(String),
}

impl Clone for Real {
    fn clone(&self) -> (r: Self)
        ensures
            r == *self,
    {
        match self {
            Real::Entero(i) => Real::Entero(*i),
            Real::Decimal(d) => Real::Decimal(d.clone()),
        }
    }
}

/// The text of a REAL: the numeral of the integer it stands for, or its
/// decimal form.
pub open spec fn texto_de_real(x: Real) -> Seq<char> {
    match x {
        Real::Entero(i) => decimal_con_signo(i as int),
        Real::Decimal(d) => d@,
    }
}

pub fn texto_real(x: &Real) -> (r: String)
    ensures
        r@ == texto_de_real(*x),
{
    match x {
        Real::Entero(i) => texto_entero(*i),
        Real::Decimal(d) => d.clone(),
    }
}

/// One cell of a result row, as SQLite stored it.
#[derive(Clone, Debug)]
pub enum ValorSql {
    Nulo,
    Entero(i64),
    Real(Real),
    /// Text that is valid UTF-8.
    Texto(String),
    /// Text whose bytes are not valid UTF-8.
    TextoNoUtf8,
    Blob(Vec<u8>),
}

/// A cell as text: a text as it is, an integer or a REAL as its numeral,
/// nothing for NULL, a blob or text that is not UTF-8.
pub open spec fn texto_de_celda(v: ValorSql) -> Seq<char> {
    match v {
        ValorSql::Texto(t) => t@,
        ValorSql::Entero(i) => decimal_con_signo(i as int),
        ValorSql::Real(x) => texto_de_real(x),
        _ => Seq::empty(),
    }
}

pub fn texto_celda(v: &ValorSql) -> (r: String)
    ensures
        r@ == texto_de_celda(*v),
{
    match v {
        ValorSql::Texto(t) => t.clone(),
        ValorSql::Entero(i) => texto_entero(*i),
        ValorSql::Real(x) => texto_real(x),
        _ => String::new(),
    }
}

/// A value bound to a `?` placeholder.
#[derive(Clone, Debug)]
pub enum ParamSql {
    Texto(String),
    Real(Real),
}

/// A parameter as plain values.
pub enum ParamVista {
    Texto(Seq<char>),
    Real(Real),
}

impl View for ParamSql {
    type V = ParamVista;

    open spec fn view(&self) -> ParamVista {
        match self {
            ParamSql::Texto(t) => ParamVista::Texto(t@),
            ParamSql::Real(x) => ParamVista::Real(*x),
        }
    }
}

/// Parameters as plain values.
pub open spec fn vistas_params(s: Seq<ParamSql>) -> Seq<ParamVista> {
    Seq::new(s.len(), |i: int| s[i]@)
}

/// Why a database operation failed.
#[derive(Clone, Debug)]
pub enum ErrorBd {
    /// SQLite or `rusqlite` reported an error; its message.
    Sqlite(String),
    /// A query that must yield a row yielded none.
    SinFilas,
    /// A cell could not be read as the type asked for.
    TipoInvalido,
}

/// The answer to a query: the rows it produced, up to the first error in
/// stepping, if any; or, when it could not be run (`ejecutada` false), no rows
/// and SQLite's error. The query it answers (its text and the values bound to
/// it) is kept as a ghost record, set from what the calls into `rusqlite`
/// were given.
pub struct Filas {
    filas: Vec<Vec<ValorSql>>,
    error: Option<ErrorBd>,
    ejecutada: bool,
    consulta: Ghost<(Seq<char>, Seq<ParamVista>)>,
}

impl Filas {
    /// The rows read.
    pub closed spec fn filas(self) -> Seq<Vec<ValorSql>> {
        self.filas@
    }

    /// The error that stopped the reading, if any.
    pub closed spec fn error(self) -> Option<ErrorBd> {
        self.error
    }

    /// Whether the query could be run.
    pub closed spec fn ejecutada(self) -> bool {
        self.ejecutada
    }

    /// The query whose answer this is: its text and the values of its `?`s.
    pub closed spec fn consulta(self) -> (Seq<char>, Seq<ParamVista>) {
        self.consulta@
    }

    /// Rows given by hand, which answer no query (the empty one).
    pub fn nuevas(filas: Vec<Vec<ValorSql>>, error: Option<ErrorBd>) -> (r: Filas)
        ensures
            r.filas() == filas@,
            r.error() == error,
            r.ejecutada(),
            r.consulta() == (Seq::<char>::empty(), Seq::<ParamVista>::empty()),
    {
        Filas { filas, error, ejecutada: true, consulta: Ghost((Seq::empty(), Seq::empty())) }
    }

    /// The rows read.
    pub fn lista(&self) -> (r: &Vec<Vec<ValorSql>>)
        ensures
            r@ == self.filas(),
    {
        &self.filas
    }

    /// The rows read, taken out.
    pub fn en_lista(self) -> (r: Vec<Vec<ValorSql>>)
        ensures
            r@ == self.filas(),
    {
        self.filas
    }

    /// The error that stopped the reading, if any.
    pub fn error_de_lectura(&self) -> (r: &Option<ErrorBd>)
        ensures
            *r == self.error(),
    {
        &self.error
    }
}

/// What `query_row` makes of the answer to a query: the first row, or the
/// error that came before it, or `SinFilas`.
pub open spec fn primera_de(f: Filas) -> Result<Vec<ValorSql>, ErrorBd> {
    if f.filas().len() > 0 {
        Ok(f.filas()[0])
    } else if f.error() is Some {
        Err(f.error().unwrap())
    } else {
        Err(ErrorBd::SinFilas)
    }
}

/// `a` is what the query `(sql, ps)` answers as rows: SQLite's error when it
/// cannot be run, else rows tagged with it.
pub open spec fn filas_respondidas(sql: Seq<char>, ps: Seq<ParamVista>, a: Result<Filas, ErrorBd>) -> bool {
    match a {
        Ok(f) => f.consulta() == (sql, ps) && f.ejecutada(),
        Err(e) => e is Sqlite && exists|f: Filas|
            #[trigger] f.consulta() == (sql, ps) && !f.ejecutada() && f.error() == Some(e),
    }
}

/// `r` is what the query `(sql, ps)` answers as its first row (see
/// `primera_de`).
pub open spec fn fila_respondida(sql: Seq<char>, ps: Seq<ParamVista>, r: Result<Vec<ValorSql>, ErrorBd>) -> bool {
    exists|f: Filas| #[trigger] f.consulta() == (sql, ps) && r == primera_de(f)
}

/// `r` is what the query answered as its first row, or, for a query that
/// was not run because an earlier answer made it needless, `TipoInvalido`
/// (which no query answers).
pub open spec fn fila_respondida_u_omitida(sql: Seq<char>, ps: Seq<ParamVista>, r: Result<Vec<ValorSql>, ErrorBd>) -> bool {
    r == Err::<Vec<ValorSql>, ErrorBd>(ErrorBd::TipoInvalido) || fila_respondida(sql, ps, r)
}

/// `a` is what the query answered as rows, or, for a query that was not
/// run because an earlier answer made it needless, `TipoInvalido`.
pub open spec fn filas_respondidas_u_omitidas(sql: Seq<char>, ps: Seq<ParamVista>, a: Result<Filas, ErrorBd>) -> bool {
    a == Err::<Filas, ErrorBd>(ErrorBd::TipoInvalido) || filas_respondidas(sql, ps, a)
}

// ── trusted calls into rusqlite ────────────────────────────────────────────

/// A prepared statement, with the text it was prepared from.
struct Sentencia<'c> {
    stmt: rusqlite::Statement<'c>,
    texto: Ghost<Seq<char>>,
}

/// A value ready to be bound to a placeholder (or the error met in making it
/// one), with the parameter it was made from.
struct Ligado {
    valor: Result<rusqlite::types::Value, rusqlite::Error>,
    vista: Ghost<ParamVista>,
}

/// The parameters that values ready to be bound were made from.
spec fn vistas_ligadas(s: Seq<Ligado>) -> Seq<ParamVista> {
    Seq::new(s.len(), |i: int| s[i].vista@)
}

/// Calls `rusqlite::Connection::prepare`, which compiles `sql` into a
/// statement or reports SQLite's error. Beside the outcome it hands back, as a
/// ghost value, the text it was given; a statement keeps that text too.
/// Nothing is stated of which outcome comes: it depends on the database's
/// schema.
#[verifier::external_body]
fn preparar<'c>(conn: &'c rusqlite::Connection, sql: &str) -> (r: (
    Result<Sentencia<'c>, rusqlite::Error>,
    Ghost<Seq<char>>,
))
    ensures
        r.1@ == sql@,
        r.0 matches Ok(s) ==> s.texto@ == sql@,
{
    let texto = Ghost(sql@);
    match conn.prepare(sql) {
        Ok(stmt) => (Ok(Sentencia { stmt, texto }), texto),
        Err(e) => (Err(e), texto),
    }
}

/// Calls `rusqlite::Statement::column_count`. Nothing is stated of the
/// number: it depends on the statement that SQLite compiled.
#[verifier::external_body]
fn numero_columnas(s: &Sentencia<'_>) -> (r: usize) {
    s.stmt.column_count()
}

/// Calls `rusqlite::Statement::query` with the values bound to the
/// placeholders in order, or hands back the first error met in making them.
/// Beside the outcome it hands back, as a ghost value, the statement's text
/// and the parameters the values were made from. Nothing is stated of which
/// outcome comes.
#[verifier::external_body]
fn abrir_filas<'s>(s: &'s mut Sentencia<'_>, valores: Vec<Ligado>) -> (r: (
    Result<rusqlite::Rows<'s>, rusqlite::Error>,
    Ghost<(Seq<char>, Seq<ParamVista>)>,
))
    ensures
        r.1@ == (old(s).texto@, vistas_ligadas(valores@)),
{
    let consulta = Ghost((s.texto@, vistas_ligadas(valores@)));
    let v: Result<Vec<rusqlite::types::Value>, rusqlite::Error> = valores.into_iter().map(
        |l| l.valor,
    ).collect();
    match v {
        Ok(v) => (s.stmt.query(rusqlite::params_from_iter(v)), consulta),
        Err(e) => (Err(e), consulta),
    }
}

/// Moves a parameter into a `rusqlite::types::Value`: text as `Text`, a
/// `Real::Entero(i)` as the REAL `i as f64`, a `Real::Decimal(d)` as the REAL
/// that `str::parse` reads from `d` (its error, if `d` is no number, is
/// reported as `rusqlite`'s `ToSqlConversionFailure`). The parameter is kept
/// beside it as a ghost value; nothing is stated of the value.
#[verifier::external_body]
fn valor_param(p: &ParamSql) -> (r: Ligado)
    ensures
        r.vista@ == p@,
{
    let vista = Ghost(p@);
    let valor = match p {
        ParamSql::Texto(s) => Ok(rusqlite::types::Value::Text(s.clone())),
        ParamSql::Real(Real::Entero(i)) => Ok(rusqlite::types::Value::Real(*i as _)),
        ParamSql::Real(Real::Decimal(d)) => d.parse().map(rusqlite::types::Value::Real).map_err(
            |e| rusqlite::Error::ToSqlConversionFailure(Box::new(e)),
        ),
    };
    Ligado { valor, vista }
}

/// A cell as `rusqlite` hands it over, before the library reads it: a
/// REAL in the shortest decimal form that reads back as the same double, a
/// text as its bytes.
pub enum CeldaBruta {
    Nulo,
    Entero(i64),
    Real(String),
    Texto(Vec<u8>),
    Blob(Vec<u8>),
}

/// Calls `rusqlite::Rows::next`: `Ok(None)` once the rows are exhausted,
/// otherwise the next row's cells `0..n`, each read with `Row::get_ref` and
/// converted one for one by `celda_bruta`; an index past the statement's
/// columns is `rusqlite`'s `InvalidColumnIndex` error. A row returned has `n`
/// cells.
#[verifier::external_body]
fn siguiente_fila(filas: &mut rusqlite::Rows<'_>, n: usize) -> (r: Result<
    Option<Vec<CeldaBruta>>,
    rusqlite::Error,
>)
    ensures
        r matches Ok(Some(v)) ==> v.len() == n,
{
    match filas.next()? {
        None => Ok(None),
        Some(fila) => (0..n).map(|i| fila.get_ref(i).map(celda_bruta)).collect::<Result<Vec<_>, _>>().map(
            Some,
        ),
    }
}

/// Moves a `rusqlite::types::ValueRef` into a [`CeldaBruta`], one variant for
/// one: a REAL through `f64::to_string`, text and blobs as their bytes.
#[verifier::external_body]
fn celda_bruta(v: rusqlite::types::ValueRef<'_>) -> (r: CeldaBruta) {
    match v {
        rusqlite::types::ValueRef::Null => CeldaBruta::Nulo,
        rusqlite::types::ValueRef::Integer(i) => CeldaBruta::Entero(i),
        rusqlite::types::ValueRef::Real(f) => CeldaBruta::Real(f.to_string()),
        rusqlite::types::ValueRef::Text(t) => CeldaBruta::Texto(t.to_vec()),
        rusqlite::types::ValueRef::Blob(b) => CeldaBruta::Blob(b.to_vec()),
    }
}

/// Calls `String::from_utf8`, which accepts exactly the byte sequences that
/// are valid UTF-8 and then holds the characters they encode.
#[verifier::external_body]
fn texto_utf8(b: Vec<u8>) -> (r: Option<String>)
    ensures
        r is Some <==> valid_utf8(b@),
        r matches Some(s) ==> s@ == decode_utf8(b@),
{
    String::from_utf8(b).ok()
}

/// `v` is the cell that the library reads from a cell as handed over: text
/// that is valid UTF-8 becomes its characters (as `rusqlite` checks when
/// text is read as a `String`), other text `TextoNoUtf8`; the other kinds
/// move over as they are.
pub open spec fn celda_leida(c: CeldaBruta, v: ValorSql) -> bool {
    match c {
        CeldaBruta::Nulo => v is Nulo,
        CeldaBruta::Entero(i) => v == ValorSql::Entero(i),
        CeldaBruta::Real(d) => v == ValorSql::Real(Real::Decimal(d)),
        CeldaBruta::Texto(b) => if valid_utf8(b@) {
            v matches ValorSql::Texto(s) && s@ == decode_utf8(b@)
        } else {
            v is TextoNoUtf8
        },
        CeldaBruta::Blob(b) => v == ValorSql::Blob(b),
    }
}

/// Reads a cell as handed over.
pub fn leer_celda(c: CeldaBruta) -> (r: ValorSql)
    ensures
        celda_leida(c, r),
{
    match c {
        CeldaBruta::Nulo => ValorSql::Nulo,
        CeldaBruta::Entero(i) => ValorSql::Entero(i),
        CeldaBruta::Real(d) => ValorSql::Real(Real::Decimal(d)),
        CeldaBruta::Texto(b) => match texto_utf8(b) {
            Some(t) => ValorSql::Texto(t),
            None => ValorSql::TextoNoUtf8,
        },
        CeldaBruta::Blob(b) => ValorSql::Blob(b),
    }
}

/// Reads each cell of a row as handed over.
pub fn leer_fila(f: Vec<CeldaBruta>) -> (r: Vec<ValorSql>)
    ensures
        r.len() == f.len(),
        forall|k: int| 0 <= k < r.len() ==> celda_leida(f@[k], #[trigger] r@[k]),
{
    let mut f = f;
    let mut r: Vec<ValorSql> = Vec::new();
    let ghost orig = f@;
    while f.len() > 0
        invariant
            r.len() + f.len() == orig.len(),
            f@ == orig.subrange(r.len() as int, orig.len() as int),
            forall|k: int| 0 <= k < r.len() ==> celda_leida(orig[k], #[trigger] r@[k]),
        decreases f.len(),
    {
        let c = f.remove(0);
        r.push(leer_celda(c));
    }
    r
}

/// Calls `rusqlite::Error`'s `Display`, its message.
#[verifier::external_body]
fn mensaje_error(e: &rusqlite::Error) -> (r: String) {
    e.to_string()
}

// ── verified access ────────────────────────────────────────────────────────

/// The library's error for an error that `rusqlite` reported.
pub fn error_sqlite(e: rusqlite::Error) -> (r: ErrorBd)
    ensures
        r is Sqlite,
{
    ErrorBd::Sqlite(mensaje_error(&e))
}

/// Binds `params`, prepares `sql`, and steps through every row: the answer
/// tagged with the text and values that went into the calls. When preparing
/// or binding fails, no rows and SQLite's error; otherwise the rows read
/// before the end or before the first stepping error, which is kept. Every
/// row has the statement's number of cells.
fn responder(conn: &rusqlite::Connection, sql: &str, params: &[ParamSql]) -> (r: Filas)
    ensures
        r.consulta() == (sql@, vistas_params(params@)),
        forall|i: int, j: int|
            0 <= i < j < r.filas().len() ==> r.filas()[i].len() == r.filas()[j].len(),
        r.error() matches Some(e) ==> e is Sqlite,
        !r.ejecutada() ==> r.filas().len() == 0 && r.error() is Some,
{
    let mut ligados: Vec<Ligado> = Vec::new();
    let mut k: usize = 0;
    while k < params.len()
        invariant
            k <= params.len(),
            ligados.len() == k,
            forall|j: int| 0 <= j < k ==> (#[trigger] ligados@[j]).vista@ == params@[j]@,
        decreases params.len() - k,
    {
        ligados.push(valor_param(&params[k]));
        k = k + 1;
    }
    let ghost vs = vistas_ligadas(ligados@);
    assert(vs =~= vistas_params(params@));
    let (preparada, texto) = preparar(conn, sql);
    let mut stmt = match preparada {
        Ok(s) => s,
        Err(e) => {
            return Filas {
                filas: Vec::new(),
                error: Some(error_sqlite(e)),
                ejecutada: false,
                consulta: Ghost((texto@, vs)),
            };
        },
    };
    let n = numero_columnas(&stmt);
    let (abiertas, consulta) = abrir_filas(&mut stmt, ligados);
    let mut filas_sql = match abiertas {
        Ok(f) => f,
        Err(e) => {
            return Filas { filas: Vec::new(), error: Some(error_sqlite(e)), ejecutada: false, consulta };
        },
    };
    assert(consulta@ == (sql@, vistas_params(params@)));
    let mut filas: Vec<Vec<ValorSql>> = Vec::new();
    while filas.len() < usize::MAX
        invariant
            consulta@ == (sql@, vistas_params(params@)),
            forall|i: int| 0 <= i < filas.len() ==> #[trigger] filas[i].len() == n,
        decreases usize::MAX - filas.len(),
    {
        match siguiente_fila(&mut filas_sql, n) {
            Ok(Some(v)) => filas.push(leer_fila(v)),
            Ok(None) => break,
            Err(e) => return Filas { filas, error: Some(error_sqlite(e)), ejecutada: true, consulta },
        }
    }
    Filas { filas, error: None, ejecutada: true, consulta }
}

/// Runs a query: `Err` with SQLite's error when preparing or binding failed;
/// otherwise its answer, the rows read before the end or before the first
/// stepping error, which is kept. Every row has the statement's number of
/// cells. Either way the outcome is the answer to the query `(sql, params)`.
pub fn consultar(conn: &rusqlite::Connection, sql: &str, params: &[ParamSql]) -> (r: Result<
    Filas,
    ErrorBd,
>)
    ensures
        r matches Ok(f) ==> forall|i: int, j: int|
            0 <= i < j < f.filas().len() ==> f.filas()[i].len() == f.filas()[j].len(),
        r matches Ok(f) ==> (f.error() matches Some(e) ==> e is Sqlite),
        filas_respondidas(sql@, vistas_params(params@), r),
{
    let f = responder(conn, sql, params);
    if f.ejecutada {
        Ok(f)
    } else {
        let ghost g = f;
        match f.error {
            Some(e) => {
                assert(g.consulta() == (sql@, vistas_params(params@)) && !g.ejecutada() && g.error() == Some(e));
                Err(e)
            },
            None => Err(ErrorBd::SinFilas),
        }
    }
}

/// What `query_row` does with the answer to a query: the first row, or the
/// error that came before it, or `SinFilas`.
pub fn primera_fila(f: Filas) -> (r: Result<Vec<ValorSql>, ErrorBd>)
    ensures
        r == primera_de(f),
        f.filas().len() > 0 ==> r == Ok::<Vec<ValorSql>, ErrorBd>(f.filas()[0]),
        f.filas().len() == 0 && f.error() is Some ==> r == Err::<Vec<ValorSql>, ErrorBd>(
            f.error().unwrap(),
        ),
        f.filas().len() == 0 && f.error() is None ==> r == Err::<Vec<ValorSql>, ErrorBd>(
            ErrorBd::SinFilas,
        ),
{
    let Filas { filas, error, .. } = f;
    if filas.len() > 0 {
        let mut filas = filas;
        Ok(filas.swap_remove(0))
    } else {
        match error {
            Some(e) => Err(e),
            None => Err(ErrorBd::SinFilas),
        }
    }
}

/// Runs a query and returns its first row, as `Connection::query_row` does:
/// `SinFilas` when the query yields no row, SQLite's error when it fails
/// before the first row.
pub fn consultar_fila(conn: &rusqlite::Connection, sql: &str, params: &[ParamSql]) -> (r: Result<
    Vec<ValorSql>,
    ErrorBd,
>)
    ensures
        r matches Err(e) ==> e is Sqlite || e is SinFilas,
        fila_respondida(sql@, vistas_params(params@), r),
{
    let f = responder(conn, sql, params);
    let ghost g = f;
    let r = primera_fila(f);
    assert(g.consulta() == (sql@, vistas_params(params@)) && r == primera_de(g));
    r
}

// ── reading cells as `rusqlite`'s `FromSql` reads them ─────────────────────

/// A cell read as `String`: text only.
pub open spec fn spec_como_texto(v: ValorSql) -> Option<String> {
    match v {
        ValorSql::Texto(s) => Some(s),
        _ => None,
    }
}

/// A cell read as `i64`: integers only.
pub open spec fn spec_como_entero(v: ValorSql) -> Option<i64> {
    match v {
        ValorSql::Entero(i) => Some(i),
        _ => None,
    }
}

/// A cell read as `f64`: integers (converted) and reals.
pub open spec fn spec_como_real(v: ValorSql) -> Option<Real> {
    match v {
        ValorSql::Entero(i) => Some(Real::Entero(i)),
        ValorSql::Real(r) => Some(r),
        _ => None,
    }
}

/// `Option<T>` read: NULL is `Some(None)`, otherwise the reading of `T`.
pub open spec fn spec_como_opcional<T>(v: ValorSql, leer: spec_fn(ValorSql) -> Option<T>) -> Option<
    Option<T>,
> {
    match v {
        ValorSql::Nulo => Some(None),
        _ => match leer(v) {
            Some(x) => Some(Some(x)),
            None => None,
        },
    }
}

pub fn como_texto(v: &ValorSql) -> (r: Result<String, ErrorBd>)
    ensures
        r is Ok <==> spec_como_texto(*v) is Some,
        r matches Ok(s) ==> spec_como_texto(*v) == Some(s),
        r matches Err(e) ==> e is TipoInvalido,
{
    match v {
        ValorSql::Texto(s) => Ok(s.clone()),
        _ => Err(ErrorBd::TipoInvalido),
    }
}

pub fn como_texto_opcional(v: &ValorSql) -> (r: Result<Option<String>, ErrorBd>)
    ensures
        r is Ok <==> spec_como_opcional(*v, |x| spec_como_texto(x)) is Some,
        r matches Ok(s) ==> spec_como_opcional(*v, |x| spec_como_texto(x)) == Some(s),
        r matches Err(e) ==> e is TipoInvalido,
{
    match v {
        ValorSql::Nulo => Ok(None),
        ValorSql::Texto(s) => Ok(Some(s.clone())),
        _ => Err(ErrorBd::TipoInvalido),
    }
}

pub fn como_entero(v: &ValorSql) -> (r: Result<i64, ErrorBd>)
    ensures
        r is Ok <==> spec_como_entero(*v) is Some,
        r matches Ok(i) ==> spec_como_entero(*v) == Some(i),
        r matches Err(e) ==> e is TipoInvalido,
{
    match v {
        ValorSql::Entero(i) => Ok(*i),
        _ => Err(ErrorBd::TipoInvalido),
    }
}

pub fn como_entero_opcional(v: &ValorSql) -> (r: Result<Option<i64>, ErrorBd>)
    ensures
        r is Ok <==> spec_como_opcional(*v, |x| spec_como_entero(x)) is Some,
        r matches Ok(s) ==> spec_como_opcional(*v, |x| spec_como_entero(x)) == Some(s),
        r matches Err(e) ==> e is TipoInvalido,
{
    match v {
        ValorSql::Nulo => Ok(None),
        ValorSql::Entero(i) => Ok(Some(*i)),
        _ => Err(ErrorBd::TipoInvalido),
    }
}

pub fn como_real(v: &ValorSql) -> (r: Result<Real, ErrorBd>)
    ensures
        r is Ok <==> spec_como_real(*v) is Some,
        r matches Ok(x) ==> spec_como_real(*v) == Some(x),
        r matches Err(e) ==> e is TipoInvalido,
{
    match v {
        ValorSql::Entero(i) => Ok(Real::Entero(*i)),
        ValorSql::Real(x) => Ok(x.clone()),
        _ => Err(ErrorBd::TipoInvalido),
    }
}

pub fn como_real_opcional(v: &ValorSql) -> (r: Result<Option<Real>, ErrorBd>)
    ensures
        r is Ok <==> spec_como_opcional(*v, |x| spec_como_real(x)) is Some,
        r matches Ok(s) ==> spec_como_opcional(*v, |x| spec_como_real(x)) == Some(s),
        r matches Err(e) ==> e is TipoInvalido,
{
    match v {
        ValorSql::Nulo => Ok(None),
        ValorSql::Entero(i) => Ok(Some(Real::Entero(*i))),
        ValorSql::Real(x) => Ok(Some(x.clone())),
        _ => Err(ErrorBd::TipoInvalido),
    }
}

/// A cell read as `bool`: an integer, true when non-zero.
pub fn como_bool(v: &ValorSql) -> (r: Result<bool, ErrorBd>)
    ensures
        r is Ok <==> v is Entero,
        r matches Ok(b) ==> b == (v->Entero_0 != 0),
        r matches Err(e) ==> e is TipoInvalido,
{
    match v {
        ValorSql::Entero(i) => Ok(*i != 0),
        _ => Err(ErrorBd::TipoInvalido),
    }
}

/// A cell read as `i32`: an integer within `i32`'s range.
pub fn como_i32(v: &ValorSql) -> (r: Result<i32, ErrorBd>)
    ensures
        r is Ok <==> (v is Entero && i32::MIN <= v->Entero_0 <= i32::MAX),
        r matches Ok(x) ==> x == v->Entero_0,
        r matches Err(e) ==> e is TipoInvalido,
{
    match v {
        ValorSql::Entero(i) => {
            if *i >= -2147483648i64 && *i <= 2147483647i64 {
                Ok(*i as i32)
            } else {
                Err(ErrorBd::TipoInvalido)
            }
        },
        _ => Err(ErrorBd::TipoInvalido),
    }
}

} // verus!
