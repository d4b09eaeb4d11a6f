use reporte_contrataciones::db::analysis::{
    analizar_columna, decidir_columna, detectar_columna_estado, elegir_filtro, leer_distintos,
    leer_distintos_total, leer_fechas, leer_muestra, leer_rango_entero, leer_rango_real, patron_like,
    ClaseTipo, Conteos, Eleccion,
};
use reporte_contrataciones::db::explorer::vista_elegida;
use reporte_contrataciones::db::constants::AnalyseConfig;
use reporte_contrataciones::db::dashboard::{
    armar_dashboard, consulta_estado, consulta_pagina, dashboard, texto_orden,
};
use reporte_contrataciones::db::schema::obtener_columnas;
use reporte_contrataciones::db::sqlite::{
    leer_celda, leer_fila, texto_celda, CeldaBruta, ErrorBd, ParamSql, Real, ValorSql,
};
use reporte_contrataciones::db::types::ValorColumna;
use reporte_contrataciones::db::utils::safe_ident;
use reporte_contrataciones::texto::texto_entero;
use rusqlite::Connection;

fn conteos(distintos: i64, total: i64, hay_minimo: bool, suma: Option<i64>, con_largo: i64) -> Conteos {
    Conteos { distintos, total, hay_minimo, suma_largos: suma, con_largo }
}

#[test]
fn choice_of_filter_by_type_and_counts() {
    // real: few values and a minimum, else a range
    assert_eq!(elegir_filtro(ClaseTipo::Real, &conteos(50, 0, true, None, 0)), Eleccion::Categorica);
    assert_eq!(elegir_filtro(ClaseTipo::Real, &conteos(3, 0, false, None, 0)), Eleccion::Numerica);
    assert_eq!(elegir_filtro(ClaseTipo::Real, &conteos(51, 0, true, None, 0)), Eleccion::Numerica);
    // integer: few values first, then a likely key, else a range
    assert_eq!(elegir_filtro(ClaseTipo::Entero, &conteos(5, 5, false, None, 0)), Eleccion::Categorica);
    assert_eq!(elegir_filtro(ClaseTipo::Entero, &conteos(60, 120, false, None, 0)), Eleccion::Numerica);
    assert_eq!(elegir_filtro(ClaseTipo::Entero, &conteos(100, 120, false, None, 0)), Eleccion::Omitida);
    assert_eq!(elegir_filtro(ClaseTipo::Entero, &conteos(96, 120, false, None, 0)), Eleccion::Numerica);
    // other: nothing measured, long texts, few values, many values
    assert_eq!(elegir_filtro(ClaseTipo::Otro, &conteos(0, 0, false, None, 0)), Eleccion::Omitida);
    assert_eq!(elegir_filtro(ClaseTipo::Otro, &conteos(2, 0, false, Some(161), 2)), Eleccion::Omitida);
    assert_eq!(elegir_filtro(ClaseTipo::Otro, &conteos(2, 0, false, Some(160), 2)), Eleccion::Categorica);
    assert_eq!(elegir_filtro(ClaseTipo::Otro, &conteos(51, 0, false, Some(10), 51)), Eleccion::Busqueda);
    assert_eq!(elegir_filtro(ClaseTipo::Fecha, &conteos(0, 0, false, None, 0)), Eleccion::Fecha);
}

#[test]
fn filter_built_from_the_measured_cells() {
    let c = conteos(0, 0, false, None, 0);
    let d = decidir_columna(
        "f".to_string(),
        ClaseTipo::Fecha,
        &c,
        (Some("2024-01-01".to_string()), Some("2024-02-01".to_string())),
        (None, None),
        vec![],
    )
    .unwrap();
    assert_eq!(d.tipo, "date");
    assert_eq!(d.fecha_min.as_deref(), Some("2024-01-01"));
    assert_eq!(d.fecha_max.as_deref(), Some("2024-02-01"));
    let n = decidir_columna(
        "m".to_string(),
        ClaseTipo::Real,
        &conteos(3, 0, false, None, 0),
        (None, None),
        (None, Some(Real::Decimal("2.5".to_string()))),
        vec![],
    )
    .unwrap();
    assert_eq!(n.tipo, "numeric");
    assert!(n.min.is_none());
    assert!(matches!(&n.max, Some(Real::Decimal(x)) if x == "2.5"));
    let k = decidir_columna(
        "k".to_string(),
        ClaseTipo::Entero,
        &conteos(2, 9, false, None, 0),
        (None, None),
        (None, None),
        vec![ValorColumna::Entero(1), ValorColumna::Entero(2)],
    )
    .unwrap();
    assert_eq!(k.tipo, "categorical");
    assert_eq!(k.total_distintos, Some(2));
    assert_eq!(k.valores.as_ref().unwrap().len(), 2);
    assert!(decidir_columna("x".to_string(), ClaseTipo::Otro, &c, (None, None), (None, None), vec![]).is_none());
}

fn enteros(sql: &str) -> Connection {
    let conn = Connection::open_in_memory().unwrap();
    conn.execute_batch(sql).unwrap();
    conn
}

#[test]
fn integer_column_with_sixty_values_is_a_range() {
    let conn = enteros(
        "CREATE TABLE t(n INTEGER); WITH RECURSIVE s(i) AS (SELECT 1 UNION ALL SELECT i + 1 FROM s WHERE i < 120) \
         INSERT INTO t SELECT i % 60 + 1 FROM s;",
    );
    let cols = obtener_columnas(&conn, "t").unwrap();
    let ci = analizar_columna(&conn, "t", &cols[0], &vec![], &AnalyseConfig::default()).unwrap().unwrap();
    assert_eq!(ci.tipo, "numeric");
    assert_eq!(ci.nombre, "n");
    assert!(matches!(ci.min, Some(Real::Entero(1))));
    assert!(matches!(ci.max, Some(Real::Entero(60))));
    assert!(ci.valores.is_none() && ci.total_distintos.is_none());
}

#[test]
fn integer_column_with_five_values_is_a_category() {
    let conn = enteros("CREATE TABLE t(n INTEGER); INSERT INTO t VALUES (1), (2), (3), (4), (5);");
    let cols = obtener_columnas(&conn, "t").unwrap();
    let ci = analizar_columna(&conn, "t", &cols[0], &vec![], &AnalyseConfig::default()).unwrap().unwrap();
    assert_eq!(ci.tipo, "categorical");
    assert_eq!(ci.total_distintos, Some(5));
    let v = ci.valores.unwrap();
    assert_eq!(v.len(), 5);
    assert!(matches!(v[0], ValorColumna::Entero(1)));
    assert!(matches!(v[4], ValorColumna::Entero(5)));
}

#[test]
fn status_pattern_with_a_quote_is_bound_as_it_is() {
    let conn = enteros(
        "CREATE TABLE t(obs TEXT); INSERT INTO t VALUES ('PEND''X 1'), ('PEND''X 2'), ('PEND''X 3'), ('FIRM 4');",
    );
    assert_eq!(patron_like("pend'x"), "%PEND'X%");
    assert_eq!(
        detectar_columna_estado(&conn, "t", &vec!["obs".to_string()], "PEND'X", "FIRM").unwrap(),
        Some("obs".to_string())
    );
}

#[test]
fn status_query_and_its_values() {
    let (sql, ps) = consulta_estado("FROM \"t\"", "", &vec![], Some("e"), "o'k", None).unwrap();
    assert_eq!(sql, "SELECT COUNT(*) FROM \"t\" WHERE UPPER(CAST(\"e\" AS TEXT)) LIKE ?");
    assert_eq!(ps.len(), 1);
    assert!(matches!(&ps[0], ParamSql::Texto(p) if p == "%O'K%"));
    assert!(consulta_estado("FROM \"t\"", "", &vec![], Some("a b"), "x", None).is_none());
    assert!(consulta_estado("FROM \"t\"", "", &vec![], None, "x", None).is_none());
}

#[test]
fn page_query_orders_by_every_column_and_caps_the_size() {
    assert_eq!(texto_orden(0), "");
    assert_eq!(texto_orden(3), " ORDER BY 1, 2, 3");
    assert_eq!(
        consulta_pagina("\"a\"", "FROM \"t\"", "", 1, 3, 1000),
        "SELECT \"a\" FROM \"t\"  ORDER BY 1 LIMIT 500 OFFSET 2000"
    );
    assert_eq!(
        consulta_pagina("\"a\"", "FROM \"t\"", "", 1, 0, 10),
        "SELECT \"a\" FROM \"t\"  ORDER BY 1 LIMIT 10 OFFSET 0"
    );
}

#[test]
fn consecutive_pages_share_no_row() {
    let conn = enteros(
        "CREATE TABLE t(n INTEGER, s TEXT); INSERT INTO t VALUES (3,'c'),(1,'a'),(5,'e'),(2,'b'),(4,'d');",
    );
    let p1 = dashboard(&conn, &vec![], "t", None, 1, 2, None, None, None, None).unwrap();
    let p2 = dashboard(&conn, &vec![], "t", None, 2, 2, None, None, None, None).unwrap();
    let p3 = dashboard(&conn, &vec![], "t", None, 3, 2, None, None, None, None).unwrap();
    let t = |v: &[&str]| v.iter().map(|x| x.to_string()).collect::<Vec<String>>();
    assert_eq!(p1.tabla, vec![t(&["1", "a"]), t(&["2", "b"])]);
    assert_eq!(p2.tabla, vec![t(&["3", "c"]), t(&["4", "d"])]);
    assert_eq!(p3.tabla, vec![t(&["5", "e"])]);
}

#[test]
fn dashboard_assembled_from_rows() {
    let filas = vec![vec![ValorSql::Entero(7), ValorSql::Nulo]];
    let grupos = vec![vec![ValorSql::Texto("g".to_string()), ValorSql::Entero(4)]];
    let d = armar_dashboard(
        &vec![ValorSql::Entero(3)],
        &vec![ValorSql::Entero(10)],
        1,
        2,
        &grupos,
        &filas,
        2,
        5,
        "g".to_string(),
        vec!["a".to_string(), "b".to_string()],
    )
    .unwrap();
    assert_eq!(d.total_general, 3);
    assert_eq!(d.total_matching, 10);
    assert_eq!(d.total_pendientes, 1);
    assert_eq!(d.total_firmados, 2);
    assert_eq!(d.por_grupo, vec![("g".to_string(), 4)]);
    assert_eq!(d.tabla, vec![vec!["7".to_string(), "".to_string()]]);
    assert_eq!(d.current_page, 2);
    assert_eq!(d.page_size, 5);
    let e = armar_dashboard(
        &vec![ValorSql::Texto("3".to_string())],
        &vec![ValorSql::Entero(10)],
        0,
        0,
        &vec![],
        &vec![],
        1,
        5,
        String::new(),
        vec![],
    );
    assert!(matches!(e, Err(ErrorBd::TipoInvalido)));
}

#[test]
fn cells_as_handed_over_are_read() {
    assert!(matches!(leer_celda(CeldaBruta::Texto("hé".as_bytes().to_vec())), ValorSql::Texto(s) if s == "hé"));
    assert!(matches!(leer_celda(CeldaBruta::Texto(vec![0xff, 0x41])), ValorSql::TextoNoUtf8));
    assert!(matches!(leer_celda(CeldaBruta::Real("2.5".to_string())), ValorSql::Real(Real::Decimal(d)) if d == "2.5"));
    assert!(matches!(leer_celda(CeldaBruta::Entero(-4)), ValorSql::Entero(-4)));
    assert!(matches!(leer_celda(CeldaBruta::Nulo), ValorSql::Nulo));
    let f = leer_fila(vec![CeldaBruta::Blob(vec![1, 2]), CeldaBruta::Entero(9)]);
    assert_eq!(f.len(), 2);
    assert!(matches!(&f[0], ValorSql::Blob(b) if b == &vec![1u8, 2u8]));
}

#[test]
fn cells_and_numbers_as_text() {
    assert_eq!(texto_entero(0), "0");
    assert_eq!(texto_entero(-42), "-42");
    assert_eq!(texto_entero(i64::MIN), "-9223372036854775808");
    assert_eq!(texto_entero(i64::MAX), "9223372036854775807");
    assert_eq!(texto_celda(&ValorSql::Entero(42)), "42");
    assert_eq!(texto_celda(&ValorSql::Real(Real::Decimal("1.5".to_string()))), "1.5");
    assert_eq!(texto_celda(&ValorSql::Real(Real::Entero(-3))), "-3");
    assert_eq!(texto_celda(&ValorSql::Nulo), "");
    assert_eq!(texto_celda(&ValorSql::Blob(vec![1])), "");
}

#[test]
fn quoted_identifier_length_and_reading() {
    let q = safe_ident("a\"b");
    assert_eq!(q, "\"a\"\"b\"");
    assert_eq!(q.chars().count(), 3 + 1 + 2);
    assert_eq!(safe_ident("").chars().count(), 2);
}

#[test]
fn readings_of_the_measuring_answers() {
    let t = |x: &str| ValorSql::Texto(x.to_string());
    let f = leer_fechas(Ok(vec![t("2024-01-01"), ValorSql::Nulo])).unwrap();
    assert_eq!(f, (Some("2024-01-01".to_string()), None));
    // the earliest date comes from the first cell, the latest from the second
    let g = leer_fechas(Ok(vec![t("a"), t("b")])).unwrap();
    assert_eq!(g, (Some("a".to_string()), Some("b".to_string())));
    assert!(matches!(leer_fechas(Ok(vec![ValorSql::Entero(1), t("b")])), Err(ErrorBd::TipoInvalido)));
    assert!(matches!(leer_fechas(Ok(vec![t("a")])), Err(ErrorBd::TipoInvalido)));
    assert!(matches!(leer_fechas(Err(ErrorBd::SinFilas)), Err(ErrorBd::SinFilas)));
    let r = leer_rango_real(Ok(vec![ValorSql::Entero(2), ValorSql::Real(Real::Decimal("3.5".to_string()))])).unwrap();
    assert!(matches!(r.0, Some(Real::Entero(2))));
    assert!(matches!(&r.1, Some(Real::Decimal(d)) if d == "3.5"));
    let e = leer_rango_entero(Ok(vec![ValorSql::Entero(-1), ValorSql::Nulo])).unwrap();
    assert!(matches!(e.0, Some(Real::Entero(-1))) && e.1.is_none());
    assert!(leer_rango_entero(Ok(vec![ValorSql::Real(Real::Entero(1)), ValorSql::Nulo])).is_err());
    assert_eq!(leer_distintos(Ok(vec![ValorSql::Entero(7)])).unwrap(), 7);
    assert!(leer_distintos(Ok(vec![])).is_err());
    assert_eq!(leer_distintos_total(Ok(vec![ValorSql::Entero(3), ValorSql::Entero(9)])).unwrap(), (3, 9));
    assert_eq!(
        leer_muestra(Ok(vec![ValorSql::Entero(2), ValorSql::Nulo, ValorSql::Entero(0)])),
        Some((2, None, 0))
    );
    assert_eq!(leer_muestra(Err(ErrorBd::SinFilas)), None);
    assert_eq!(leer_muestra(Ok(vec![ValorSql::Entero(2)])), None);
}

#[test]
fn view_explored_is_the_view_else_the_table() {
    assert_eq!(vista_elegida(&Some("v".to_string()), &Some("t".to_string())), "v");
    assert_eq!(vista_elegida(&None, &Some("t".to_string())), "t");
    assert_eq!(vista_elegida(&None, &None), "");
}

#[test]
fn groups_of_numbers_are_grouped_as_text() {
    let conn = enteros("CREATE TABLE t(n INTEGER, x TEXT); INSERT INTO t VALUES (1,'a'),(1,'b'),(2,'c');");
    let d = dashboard(&conn, &vec![], "t", Some("n"), 1, 10, None, None, None, None).unwrap();
    assert_eq!(d.por_grupo, vec![("1".to_string(), 2), ("2".to_string(), 1)]);
}
