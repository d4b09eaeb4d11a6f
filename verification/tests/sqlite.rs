use reporte_contrataciones::db::sqlite::{
    como_bool, como_entero, como_entero_opcional, como_i32, como_real, como_real_opcional,
    como_texto, como_texto_opcional, consultar, consultar_fila, primera_fila, ErrorBd, Filas,
    ParamSql, Real, ValorSql,
};
use rusqlite::Connection;

fn t(x: &str) -> ValorSql {
    ValorSql::Texto(x.to_string())
}

#[test]
fn query_binds_parameters_and_reads_every_kind_of_cell() {
    let conn = Connection::open_in_memory().unwrap();
    let f = consultar(
        &conn,
        "SELECT ?, ?, ?, NULL, 42, 2.5, x'00ff', CAST(x'ff' AS TEXT)",
        &[
            ParamSql::Texto("hola".to_string()),
            ParamSql::Real(Real::Entero(3)),
            ParamSql::Real(Real::Decimal("0.25".to_string())),
        ],
    )
    .unwrap();
    assert!(f.error_de_lectura().is_none());
    assert_eq!(f.lista().len(), 1);
    let fila = &f.lista()[0];
    assert_eq!(fila.len(), 8);
    assert!(matches!(&fila[0], ValorSql::Texto(s) if s == "hola"));
    assert!(matches!(&fila[1], ValorSql::Real(Real::Decimal(d)) if d == "3"));
    assert!(matches!(&fila[2], ValorSql::Real(Real::Decimal(d)) if d == "0.25"));
    assert!(matches!(fila[3], ValorSql::Nulo));
    assert!(matches!(fila[4], ValorSql::Entero(42)));
    assert!(matches!(&fila[5], ValorSql::Real(Real::Decimal(d)) if d == "2.5"));
    assert!(matches!(&fila[6], ValorSql::Blob(b) if b == &vec![0u8, 255u8]));
    assert!(matches!(fila[7], ValorSql::TextoNoUtf8));
}

#[test]
fn each_error_kind() {
    let conn = Connection::open_in_memory().unwrap();
    assert!(matches!(consultar(&conn, "SELEC 1", &[]), Err(ErrorBd::Sqlite(_))));
    assert!(matches!(
        consultar(&conn, "SELECT ?", &[ParamSql::Real(Real::Decimal("no es numero".to_string()))]),
        Err(ErrorBd::Sqlite(_))
    ));
    assert!(matches!(consultar_fila(&conn, "SELECT 1 WHERE 0", &[]), Err(ErrorBd::SinFilas)));
    assert!(matches!(como_entero(&t("1")), Err(ErrorBd::TipoInvalido)));
}

#[test]
fn first_row_as_query_row_gives_it() {
    let vacia = Filas::nuevas(Vec::new(), None);
    assert!(matches!(primera_fila(vacia), Err(ErrorBd::SinFilas)));
    let con_error = Filas::nuevas(Vec::new(), Some(ErrorBd::TipoInvalido));
    assert!(matches!(primera_fila(con_error), Err(ErrorBd::TipoInvalido)));
    let dos = Filas::nuevas(vec![vec![ValorSql::Entero(1)], vec![ValorSql::Entero(2)]], None);
    assert_eq!(dos.lista().len(), 2);
    assert!(matches!(primera_fila(dos).unwrap()[0], ValorSql::Entero(1)));
    let conn = Connection::open_in_memory().unwrap();
    let fila = consultar_fila(&conn, "SELECT 7, 'x'", &[]).unwrap();
    assert!(matches!(fila[0], ValorSql::Entero(7)));
}

#[test]
fn cells_read_as_fromsql_reads_them() {
    assert_eq!(como_texto(&t("a")).unwrap(), "a");
    assert!(como_texto(&ValorSql::Entero(1)).is_err());
    assert_eq!(como_texto_opcional(&ValorSql::Nulo).unwrap(), None);
    assert_eq!(como_texto_opcional(&t("b")).unwrap(), Some("b".to_string()));
    assert!(como_texto_opcional(&ValorSql::TextoNoUtf8).is_err());
    assert_eq!(como_entero(&ValorSql::Entero(-4)).unwrap(), -4);
    assert_eq!(como_entero_opcional(&ValorSql::Nulo).unwrap(), None);
    assert!(como_entero_opcional(&ValorSql::Real(Real::Entero(1))).is_err());
    assert!(matches!(como_real(&ValorSql::Entero(5)).unwrap(), Real::Entero(5)));
    assert!(matches!(como_real(&ValorSql::Real(Real::Decimal("1.5".to_string()))).unwrap(), Real::Decimal(d) if d == "1.5"));
    assert!(como_real(&t("1.5")).is_err());
    assert!(como_real_opcional(&ValorSql::Nulo).unwrap().is_none());
    assert!(como_real_opcional(&ValorSql::Blob(vec![1])).is_err());
    assert_eq!(como_bool(&ValorSql::Entero(2)).unwrap(), true);
    assert_eq!(como_bool(&ValorSql::Entero(0)).unwrap(), false);
    assert!(como_bool(&t("1")).is_err());
    assert_eq!(como_i32(&ValorSql::Entero(-7)).unwrap(), -7);
    assert!(como_i32(&ValorSql::Entero(1 << 40)).is_err());
}
