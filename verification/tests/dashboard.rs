use reporte_contrataciones::db::constants::AnalyseConfig;
use reporte_contrataciones::db::dashboard::{
    col_prefix, conteo_de_fila, construir_where, construir_where_con, contar_por_estado, dashboard,
    filas_de_tabla, from_clause, grupos_de_filas, patron_estado, select_list, texto_conteo,
    texto_estado, texto_grupos, texto_tabla, texto_total,
};
use reporte_contrataciones::db::explorer::detectar_patron_optimizable;
use reporte_contrataciones::db::sqlite::{ErrorBd, ParamSql, Real, ValorSql};
use reporte_contrataciones::db::types::{FKOptimizada, FiltroValor, ModoOptimizacion};
use rusqlite::Connection;

fn contratos() -> Connection {
    let conn = Connection::open_in_memory().unwrap();
    conn.execute_batch(
        "CREATE TABLE cat_area (id INTEGER PRIMARY KEY, nombre TEXT);
         INSERT INTO cat_area VALUES (1,'Compras'),(2,'Legal'),(3,'Obras');
         CREATE TABLE cat_tipo (id INTEGER PRIMARY KEY, nombre TEXT);
         INSERT INTO cat_tipo VALUES (1,'Bien'),(2,'Servicio');
         CREATE TABLE cat_modo (clave INTEGER PRIMARY KEY, descripcion TEXT);
         INSERT INTO cat_modo VALUES (1,'Directa'),(2,'Licitacion');
         CREATE TABLE contratos (
            id INTEGER PRIMARY KEY,
            id_area INTEGER REFERENCES cat_area(id),
            id_tipo INTEGER REFERENCES cat_tipo(id),
            id_modo INTEGER REFERENCES cat_modo(clave),
            estado TEXT, monto REAL, fecha DATE, proveedor TEXT, folio INTEGER
         );
         WITH RECURSIVE n(i) AS (SELECT 1 UNION ALL SELECT i + 1 FROM n WHERE i < 12)
         INSERT INTO contratos
         SELECT i, ((i - 1) % 3) + 1, ((i - 1) % 2) + 1, CASE WHEN i <= 6 THEN 1 ELSE 2 END,
                CASE WHEN i <= 6 THEN 'PENDIENTE' ELSE 'FIRMADO' END,
                i * 100.0, printf('2024-01-%02d', i),
                CASE WHEN i <= 6 THEN 'Prov A' WHEN i <= 10 THEN 'Prov B' ELSE 'Prov C' END,
                1000 + i
         FROM n;",
    )
    .unwrap();
    conn
}

fn s(v: &[&str]) -> Vec<String> {
    v.iter().map(|x| x.to_string()).collect()
}

fn cat(sel: &str) -> FiltroValor {
    FiltroValor::Categorical { selected: sel.to_string() }
}

fn grupos(v: &[(String, u64)]) -> Vec<(String, u64)> {
    v.to_vec()
}

fn texto_param(p: &ParamSql) -> String {
    match p {
        ParamSql::Texto(t) => format!("T:{}", t),
        ParamSql::Real(Real::Entero(i)) => format!("E:{}", i),
        ParamSql::Real(Real::Decimal(d)) => format!("D:{}", d),
    }
}

#[test]
fn prefix_only_when_joined() {
    let joined = ModoOptimizacion::VistaConFKs { tabla_base: "t".to_string(), fks: Vec::new() };
    assert_eq!(col_prefix(Some(&joined)), "tb.");
    assert_eq!(col_prefix(Some(&ModoOptimizacion::Universal)), "");
    assert_eq!(col_prefix(None), "");
}

#[test]
fn where_clause_of_each_kind_of_filter() {
    let filtros = vec![
        ("estado".to_string(), cat("PENDIENTE")),
        ("proveedor".to_string(), cat("__todos__")),
        ("area".to_string(), FiltroValor::CategoricalFK {
            selected: "Compras".to_string(),
            col_original: "id_area".to_string(),
            tabla_catalogo: "cat_area".to_string(),
            col_nombre: "nombre".to_string(),
        }),
        ("fecha".to_string(), FiltroValor::Date { desde: "2024-01-03".to_string(), hasta: String::new() }),
        ("monto".to_string(), FiltroValor::Numeric {
            min: Real::Entero(100),
            max: Real::Decimal("450.5".to_string()),
            orig_min: Real::Entero(0),
            orig_max: Real::Entero(1),
        }),
        ("nota".to_string(), FiltroValor::TextSearch { query: "abc".to_string() }),
        ("vacio".to_string(), FiltroValor::TextSearch { query: String::new() }),
    ];
    let pks = vec![("cat_area".to_string(), "id".to_string())];
    let (w, params) = construir_where_con(&filtros, "tb.", &pks);
    assert_eq!(
        w,
        "WHERE tb.\"estado\" = ? AND tb.\"id_area\" = (SELECT id FROM \"cat_area\" WHERE \"nombre\" = ?) \
         AND tb.\"fecha\" >= ? AND tb.\"monto\" >= ? AND tb.\"monto\" <= ? \
         AND CAST(tb.\"nota\" AS TEXT) LIKE ?"
    );
    let p: Vec<String> = params.iter().map(texto_param).collect();
    assert_eq!(p, s(&["T:PENDIENTE", "T:Compras", "T:2024-01-03", "E:100", "D:450.5", "T:%abc%"]));
    // one value for each placeholder
    assert_eq!(w.chars().filter(|c| *c == '?').count(), params.len());
}

#[test]
fn where_clause_without_active_filters_is_empty() {
    let filtros = vec![
        ("estado".to_string(), cat("")),
        ("fecha".to_string(), FiltroValor::Date { desde: String::new(), hasta: String::new() }),
    ];
    let (w, params) = construir_where_con(&filtros, "", &Vec::new());
    assert_eq!(w, "");
    assert!(params.is_empty());
    let (w, params) = construir_where(&Vec::new(), None, None);
    assert_eq!(w, "");
    assert!(params.is_empty());
}

#[test]
fn catalogue_key_defaults_to_rowid() {
    let filtros = vec![("area".to_string(), FiltroValor::CategoricalFK {
        selected: "Legal".to_string(),
        col_original: "id_area".to_string(),
        tabla_catalogo: "cat_area".to_string(),
        col_nombre: "nombre".to_string(),
    })];
    let (w, _) = construir_where_con(&filtros, "", &Vec::new());
    assert_eq!(w, "WHERE \"id_area\" = (SELECT rowid FROM \"cat_area\" WHERE \"nombre\" = ?)");
    let (w, _) = construir_where(&filtros, None, None);
    assert_eq!(w, "WHERE \"id_area\" = (SELECT rowid FROM \"cat_area\" WHERE \"nombre\" = ?)");
    let conn = contratos();
    let (w, _) = construir_where(&filtros, None, Some(&conn));
    assert_eq!(w, "WHERE \"id_area\" = (SELECT id FROM \"cat_area\" WHERE \"nombre\" = ?)");
}

fn modo_unido() -> ModoOptimizacion {
    ModoOptimizacion::VistaConFKs {
        tabla_base: "contratos".to_string(),
        fks: vec![FKOptimizada {
            col_id: "id_area".to_string(),
            tabla_catalogo: "cat_area".to_string(),
            col_nombre: "nombre".to_string(),
            nombre_display: "area".to_string(),
            pk_col: "id".to_string(),
        }],
    }
}

#[test]
fn from_and_select_clauses() {
    assert_eq!(from_clause("contratos", None), "FROM \"contratos\"");
    let m = modo_unido();
    assert_eq!(
        from_clause("ignorada", Some(&m)),
        "FROM \"contratos\" AS tb LEFT JOIN \"cat_area\" AS \"c_id_area\" ON tb.\"id_area\" = \"c_id_area\".\"id\""
    );
    let sin = ModoOptimizacion::VistaConFKs { tabla_base: "t".to_string(), fks: Vec::new() };
    assert_eq!(from_clause("x", Some(&sin)), "FROM \"t\" AS tb");
    assert_eq!(select_list(None, &s(&["a", "b"])), "\"a\", \"b\"");
    assert_eq!(
        select_list(Some(&m), &s(&["area", "monto"])),
        "\"c_id_area\".\"nombre\" AS \"area\", tb.\"monto\""
    );
    assert_eq!(select_list(None, &Vec::new()), "");
}

#[test]
fn query_texts() {
    assert_eq!(texto_conteo("FROM \"t\"", "WHERE x"), "SELECT COUNT(*) FROM \"t\" WHERE x");
    assert_eq!(texto_conteo("FROM \"t\"", ""), "SELECT COUNT(*) FROM \"t\" ");
    assert_eq!(texto_total("FROM \"t\""), "SELECT COUNT(*) FROM \"t\"");
    assert_eq!(
        texto_estado("FROM \"t\"", "", "\"e\""),
        "SELECT COUNT(*) FROM \"t\" WHERE UPPER(CAST(\"e\" AS TEXT)) LIKE ?"
    );
    assert_eq!(
        texto_estado("FROM \"t\"", "WHERE a = ?", "\"e\""),
        "SELECT COUNT(*) FROM \"t\" WHERE a = ? AND UPPER(CAST(\"e\" AS TEXT)) LIKE ?"
    );
    assert_eq!(
        texto_grupos("FROM \"t\"", "", "\"g\""),
        "SELECT CAST(\"g\" AS TEXT), COUNT(*) FROM \"t\" WHERE \"g\" IS NOT NULL AND CAST(\"g\" AS TEXT) != '' \
         GROUP BY CAST(\"g\" AS TEXT) ORDER BY COUNT(*) DESC LIMIT 50"
    );
    assert_eq!(
        texto_tabla("\"a\", \"b\"", "FROM \"t\"", "", 2, 10, 20),
        "SELECT \"a\", \"b\" FROM \"t\"  ORDER BY 1, 2 LIMIT 10 OFFSET 20"
    );
    assert_eq!(patron_estado("pend"), "%PEND%");
}

#[test]
fn results_from_rows() {
    assert_eq!(conteo_de_fila(&vec![ValorSql::Entero(7)]).unwrap(), 7);
    assert!(matches!(conteo_de_fila(&vec![ValorSql::Texto("7".to_string())]), Err(ErrorBd::TipoInvalido)));
    assert!(conteo_de_fila(&Vec::new()).is_err());

    let filas = vec![
        vec![ValorSql::Texto("a".to_string()), ValorSql::Entero(1), ValorSql::Nulo],
        vec![ValorSql::Nulo, ValorSql::Real(Real::Decimal("1.5".to_string()))],
    ];
    assert_eq!(
        filas_de_tabla(&filas, 3),
        vec![s(&["a", "1", ""]), s(&["", "1.5", ""])]
    );
    assert_eq!(filas_de_tabla(&filas, 1), vec![s(&["a"]), s(&[""])]);

    let g = vec![
        vec![ValorSql::Texto("x".to_string()), ValorSql::Entero(5)],
        vec![ValorSql::Texto("y".to_string()), ValorSql::Entero(3)],
        vec![ValorSql::Entero(1), ValorSql::Entero(3)],
        vec![ValorSql::Texto("x".to_string()), ValorSql::Entero(2)],
        vec![ValorSql::Texto("z".to_string())],
    ];
    assert_eq!(grupos(&grupos_de_filas(&g)), vec![("x".to_string(), 2), ("y".to_string(), 3)]);
}

#[test]
fn dashboard_without_filters() {
    let conn = contratos();
    let d = dashboard(&conn, &Vec::new(), "contratos", Some("proveedor"), 1, 5, Some("estado"), None, None, None)
        .unwrap();
    assert_eq!(d.total_general, 12);
    assert_eq!(d.total_matching, 12);
    assert_eq!(d.total_pendientes, 6);
    assert_eq!(d.total_firmados, 6);
    assert_eq!(
        grupos(&d.por_grupo),
        vec![("Prov A".to_string(), 6), ("Prov B".to_string(), 4), ("Prov C".to_string(), 2)]
    );
    assert_eq!(d.grupo_actual, "proveedor");
    assert_eq!(d.current_page, 1);
    assert_eq!(d.page_size, 5);
    assert_eq!(
        d.columnas_tabla,
        s(&["id", "id_area", "id_tipo", "id_modo", "estado", "monto", "fecha", "proveedor", "folio"])
    );
    assert_eq!(d.tabla.len(), 5);
    // numbers are shown as their numerals
    assert_eq!(d.tabla[0], s(&["1", "1", "1", "1", "PENDIENTE", "100", "2024-01-01", "Prov A", "1001"]));
    let d3 = dashboard(&conn, &Vec::new(), "contratos", None, 3, 5, None, None, None, None).unwrap();
    assert_eq!(d3.tabla.len(), 2);
    assert_eq!(d3.tabla[1][6], "2024-01-12");
    assert_eq!(d3.total_pendientes, 0);
    assert!(d3.por_grupo.is_empty());
    assert_eq!(d3.grupo_actual, "");
}

#[test]
fn dashboard_with_filters() {
    let conn = contratos();
    let filtros = vec![("estado".to_string(), cat("FIRMADO")), ("proveedor".to_string(), cat("__todos__"))];
    let d = dashboard(&conn, &filtros, "contratos", Some("proveedor"), 1, 500, Some("estado"), None, None, None)
        .unwrap();
    assert_eq!(d.total_general, 6);
    assert_eq!(d.total_matching, 12);
    assert_eq!(d.total_pendientes, 0);
    assert_eq!(d.total_firmados, 6);
    assert_eq!(grupos(&d.por_grupo), vec![("Prov B".to_string(), 4), ("Prov C".to_string(), 2)]);
    assert_eq!(d.tabla.len(), 6);

    let fechas = vec![("fecha".to_string(), FiltroValor::Date {
        desde: "2024-01-03".to_string(),
        hasta: "2024-01-05".to_string(),
    })];
    let d = dashboard(&conn, &fechas, "contratos", None, 1, 10, None, None, None, None).unwrap();
    assert_eq!(d.total_general, 3);

    let busqueda = vec![("proveedor".to_string(), FiltroValor::TextSearch { query: "prov b".to_string() })];
    let d = dashboard(&conn, &busqueda, "contratos", None, 1, 10, None, None, None, None).unwrap();
    assert_eq!(d.total_general, 4);

    let rango = vec![("monto".to_string(), FiltroValor::Numeric {
        min: Real::Entero(200),
        max: Real::Decimal("450.5".to_string()),
        orig_min: Real::Entero(100),
        orig_max: Real::Entero(1200),
    })];
    let d = dashboard(&conn, &rango, "contratos", None, 1, 10, None, None, None, None).unwrap();
    assert_eq!(d.total_general, 3);

    let propios = dashboard(&conn, &filtros, "contratos", None, 1, 10, Some("estado"), None, Some("firm"), Some("xyz"))
        .unwrap();
    assert_eq!(propios.total_pendientes, 6);
    assert_eq!(propios.total_firmados, 0);
}

#[test]
fn dashboard_joined_with_catalogues() {
    let conn = contratos();
    let modo = detectar_patron_optimizable(&conn, "contratos", &AnalyseConfig::default()).unwrap();
    let filtros = vec![("area".to_string(), FiltroValor::CategoricalFK {
        selected: "Compras".to_string(),
        col_original: "id_area".to_string(),
        tabla_catalogo: "cat_area".to_string(),
        col_nombre: "nombre".to_string(),
    })];
    let d = dashboard(&conn, &filtros, "contratos", Some("estado"), 1, 10, Some("estado"), Some(&modo), None, None)
        .unwrap();
    assert_eq!(d.total_general, 4);
    assert_eq!(d.total_matching, 12);
    assert_eq!(d.total_pendientes, 2);
    assert_eq!(d.total_firmados, 2);
    assert_eq!(d.por_grupo.len(), 2);
    assert_eq!(d.tabla.len(), 4);
    assert_eq!(d.tabla[0].len(), 9);
}

#[test]
fn dashboard_of_no_view_is_empty() {
    let conn = contratos();
    for vista in ["", "mi vista", "x;y"] {
        let d = dashboard(&conn, &Vec::new(), vista, Some("a"), 4, 7, Some("estado"), None, None, None).unwrap();
        assert_eq!(d.total_general, 0);
        assert_eq!(d.current_page, 1);
        assert_eq!(d.page_size, 10);
        assert!(d.tabla.is_empty() && d.columnas_tabla.is_empty() && d.por_grupo.is_empty());
        assert_eq!(d.grupo_actual, "");
    }
}

#[test]
fn dashboard_ignores_unclean_group_and_status_columns() {
    let conn = contratos();
    let d = dashboard(&conn, &Vec::new(), "contratos", Some("no valida"), 1, 10, Some("mal nombre"), None, None, None)
        .unwrap();
    assert!(d.por_grupo.is_empty());
    assert_eq!(d.grupo_actual, "no valida");
    assert_eq!(d.total_pendientes, 0);
    assert_eq!(d.total_firmados, 0);
    assert_eq!(
        contar_por_estado(&conn, "FROM \"contratos\"", "", &Vec::new(), None, "PEND", None).unwrap(),
        0
    );
    assert_eq!(
        contar_por_estado(&conn, "FROM \"contratos\"", "", &Vec::new(), Some("estado"), "pend", None).unwrap(),
        6
    );
}

#[test]
fn dashboard_of_a_missing_table_fails() {
    let conn = contratos();
    match dashboard(&conn, &Vec::new(), "inexistente", None, 1, 10, None, None, None, None) {
        Err(ErrorBd::Sqlite(m)) => assert!(m.contains("inexistente")),
        otro => panic!("expected an SQLite error, got {:?}", otro.map(|d| d.total_general)),
    }
}

#[test]
fn where_text_does_not_depend_on_the_values_chosen() {
    let uno = vec![
        ("estado".to_string(), cat("PENDIENTE")),
        ("nota".to_string(), FiltroValor::TextSearch { query: "x'; DROP TABLE t; --".to_string() }),
        ("fecha".to_string(), FiltroValor::Date { desde: "2024".to_string(), hasta: String::new() }),
    ];
    let otro = vec![
        ("estado".to_string(), cat("FIRMADO")),
        ("nota".to_string(), FiltroValor::TextSearch { query: "abc".to_string() }),
        ("fecha".to_string(), FiltroValor::Date { desde: "1999".to_string(), hasta: String::new() }),
    ];
    let (w1, p1) = construir_where_con(&uno, "", &Vec::new());
    let (w2, p2) = construir_where_con(&otro, "", &Vec::new());
    assert_eq!(w1, w2);
    assert_eq!(p1.len(), p2.len());
    assert!(!w1.contains("DROP"));
    assert_eq!(texto_param(&p1[1]), "T:%x'; DROP TABLE t; --%");
}

#[test]
fn detected_key_keeps_one_value_per_placeholder() {
    let conn = contratos();
    let filtros = vec![
        ("area".to_string(), FiltroValor::CategoricalFK {
            selected: "Legal".to_string(),
            col_original: "id_area".to_string(),
            tabla_catalogo: "cat_area".to_string(),
            col_nombre: "nombre".to_string(),
        }),
        ("estado".to_string(), cat("Firmado")),
    ];
    let (w, params) = construir_where(&filtros, None, Some(&conn));
    assert!(w.starts_with("WHERE "));
    assert_eq!(w.chars().filter(|c| *c == '?').count(), params.len());
    assert_eq!(params.len(), 2);
}
