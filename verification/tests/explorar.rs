use reporte_contrataciones::db::analysis::{
    analizar_columna, construir_mapeo_dependencia, detectar_columna_estado, detectar_columna_nombre,
    detectar_dependencias, extraer_filtros_info, pares_de_filas,
};
use reporte_contrataciones::db::constants::AnalyseConfig;
use reporte_contrataciones::db::explorer::{detectar_patron_optimizable, explorar, ultimo_segmento};
use reporte_contrataciones::db::schema::{
    analizar_foreign_keys, detectar_pk_columna, encontrar_tabla_principal,
    encontrar_vista_principal, listar_tablas, listar_vistas, obtener_columnas,
    obtener_pk_con_fallback,
};
use reporte_contrataciones::db::sqlite::{Real, ValorSql};
use reporte_contrataciones::db::types::{ColumnaInfo, ModoOptimizacion, ValorColumna};
use rusqlite::Connection;

fn contratos() -> Connection {
    let conn = Connection::open_in_memory().unwrap();
    conn.execute_batch(
        "CREATE TABLE cat_area (id INTEGER PRIMARY KEY, nombre TEXT);
         INSERT INTO cat_area VALUES (1,'Compras'),(2,'Legal'),(3,'Obras');
         CREATE TABLE cat_tipo (id INTEGER PRIMARY KEY, nombre TEXT);
         INSERT INTO cat_tipo VALUES (1,'Bien'),(2,'Servicio');
         CREATE TABLE cat_modo (clave INTEGER PRIMARY KEY, descripcion TEXT);
         INSERT INTO cat_modo VALUES (1,'Directa'),(2,'Licitacion');
         CREATE TABLE contratos (
            id INTEGER PRIMARY KEY,
            id_area INTEGER REFERENCES cat_area(id),
            id_tipo INTEGER REFERENCES cat_tipo(id),
            id_modo INTEGER REFERENCES cat_modo(clave),
            estado TEXT,
            monto REAL,
            fecha DATE,
            proveedor TEXT,
            folio INTEGER
         );
         WITH RECURSIVE n(i) AS (SELECT 1 UNION ALL SELECT i + 1 FROM n WHERE i < 12)
         INSERT INTO contratos
         SELECT i, ((i - 1) % 3) + 1, ((i - 1) % 2) + 1, CASE WHEN i <= 6 THEN 1 ELSE 2 END,
                CASE WHEN i <= 6 THEN 'PENDIENTE' ELSE 'FIRMADO' END,
                i * 100.0,
                printf('2024-01-%02d', i),
                CASE WHEN i <= 6 THEN 'Prov A' WHEN i <= 10 THEN 'Prov B' ELSE 'Prov C' END,
                1000 + i
         FROM n;",
    )
    .unwrap();
    conn
}

fn s(v: &[&str]) -> Vec<String> {
    v.iter().map(|x| x.to_string()).collect()
}

fn textos(v: &Option<Vec<ValorColumna>>) -> Vec<String> {
    v.as_ref()
        .unwrap()
        .iter()
        .map(|x| match x {
            ValorColumna::Texto(t) => t.clone(),
            otro => panic!("not a text: {:?}", otro),
        })
        .collect()
}

fn columna<'a>(cols: &'a [ColumnaInfo], nombre: &str) -> &'a ColumnaInfo {
    cols.iter().find(|c| c.nombre == nombre).unwrap()
}

#[test]
fn lists_tables_and_views_by_name() {
    let conn = contratos();
    conn.execute_batch("CREATE VIEW vw_reporte AS SELECT * FROM contratos; CREATE VIEW aaa AS SELECT 1;").unwrap();
    assert_eq!(listar_tablas(&conn).unwrap(), s(&["cat_area", "cat_modo", "cat_tipo", "contratos"]));
    assert_eq!(listar_vistas(&conn).unwrap(), s(&["aaa", "vw_reporte"]));
}

#[test]
fn main_view_is_the_first_with_a_keyword_else_the_first() {
    let conn = contratos();
    let ac = AnalyseConfig::default();
    assert_eq!(encontrar_vista_principal(&conn, &ac.view_keywords).unwrap(), None);
    conn.execute_batch("CREATE VIEW aaa AS SELECT 1;").unwrap();
    assert_eq!(encontrar_vista_principal(&conn, &ac.view_keywords).unwrap(), Some("aaa".to_string()));
    conn.execute_batch("CREATE VIEW Mi_Reporte AS SELECT 1;").unwrap();
    assert_eq!(
        encontrar_vista_principal(&conn, &ac.view_keywords).unwrap(),
        Some("Mi_Reporte".to_string())
    );
}

#[test]
fn main_table_has_most_columns() {
    let conn = contratos();
    let tablas = listar_tablas(&conn).unwrap();
    assert_eq!(encontrar_tabla_principal(&conn, &tablas), Some("contratos".to_string()));
    // tables with fewer than three columns never count
    assert_eq!(encontrar_tabla_principal(&conn, &s(&["cat_area", "cat_tipo"])), None);
    assert_eq!(encontrar_tabla_principal(&conn, &s(&["no existe"])), None);
}

#[test]
fn columns_and_keys_of_a_table() {
    let conn = contratos();
    let cols = obtener_columnas(&conn, "contratos").unwrap();
    let nombres: Vec<String> = cols.iter().map(|c| c.name.clone()).collect();
    assert_eq!(
        nombres,
        s(&["id", "id_area", "id_tipo", "id_modo", "estado", "monto", "fecha", "proveedor", "folio"])
    );
    assert_eq!(cols[0].col_type, "INTEGER");
    assert!(cols[0].pk);
    assert!(!cols[1].pk);
    assert_eq!(cols[6].col_type, "DATE");
    assert_eq!(detectar_pk_columna(&conn, "cat_modo").unwrap(), "clave");
    conn.execute_batch("CREATE TABLE sin_pk (a TEXT, b TEXT);").unwrap();
    assert_eq!(detectar_pk_columna(&conn, "sin_pk").unwrap(), "rowid");
    assert_eq!(obtener_pk_con_fallback(&conn, "cat_area", "rowid"), "id");
}

#[test]
fn foreign_keys_are_keyed_table_dot_column() {
    let conn = contratos();
    let tablas = listar_tablas(&conn).unwrap();
    let mut fks: Vec<(String, String, String)> = analizar_foreign_keys(&conn, &tablas)
        .unwrap()
        .into_iter()
        .map(|(k, f)| (k, f.tabla, f.columna))
        .collect();
    fks.sort();
    assert_eq!(
        fks,
        vec![
            ("contratos.id_area".to_string(), "cat_area".to_string(), "id".to_string()),
            ("contratos.id_modo".to_string(), "cat_modo".to_string(), "clave".to_string()),
            ("contratos.id_tipo".to_string(), "cat_tipo".to_string(), "id".to_string()),
        ]
    );
}

#[test]
fn naming_column_of_a_catalogue() {
    let conn = contratos();
    let ac = AnalyseConfig::default();
    assert_eq!(detectar_columna_nombre(&conn, "cat_area", &ac).unwrap(), Some("nombre".to_string()));
    assert_eq!(
        detectar_columna_nombre(&conn, "cat_modo", &ac).unwrap(),
        Some("descripcion".to_string())
    );
    conn.execute_batch(
        "CREATE TABLE cat_x (id INTEGER PRIMARY KEY, id_padre INTEGER, created_at TEXT, etiqueta TEXT);
         CREATE TABLE cat_y (id_a INTEGER, id_b INTEGER);",
    )
    .unwrap();
    assert_eq!(detectar_columna_nombre(&conn, "cat_x", &ac).unwrap(), Some("etiqueta".to_string()));
    assert_eq!(detectar_columna_nombre(&conn, "cat_y", &ac).unwrap(), Some("id_a".to_string()));
    assert_eq!(detectar_columna_nombre(&conn, "no_existe", &ac).unwrap(), None);
}

#[test]
fn exploration_of_the_contracts() {
    let conn = contratos();
    let ac = AnalyseConfig::default();
    let m = explorar(&conn, &ac).unwrap();
    assert_eq!(m.vista_principal, "contratos");
    assert_eq!(m.tablas, s(&["cat_area", "cat_modo", "cat_tipo", "contratos"]));
    let nombres: Vec<String> = m.columnas.iter().map(|c| c.nombre.clone()).collect();
    // the key gets no filter; an integer column with few values is a category
    assert_eq!(nombres, s(&["area", "tipo", "modo", "estado", "monto", "fecha", "proveedor", "folio"]));

    let area = columna(&m.columnas, "area");
    assert_eq!(area.tipo, "categorical_fk");
    assert_eq!(textos(&area.valores), s(&["Compras", "Legal", "Obras"]));
    assert_eq!(area.total_distintos, Some(3));
    assert_eq!(area.col_original.as_deref(), Some("id_area"));
    assert_eq!(area.tabla_catalogo.as_deref(), Some("cat_area"));
    assert_eq!(area.col_nombre_catalogo.as_deref(), Some("nombre"));
    let modo = columna(&m.columnas, "modo");
    assert_eq!(textos(&modo.valores), s(&["Directa", "Licitacion"]));
    assert_eq!(modo.col_nombre_catalogo.as_deref(), Some("descripcion"));

    let estado = columna(&m.columnas, "estado");
    assert_eq!(estado.tipo, "categorical");
    assert_eq!(textos(&estado.valores), s(&["FIRMADO", "PENDIENTE"]));
    assert_eq!(estado.total_distintos, Some(2));

    let monto = columna(&m.columnas, "monto");
    assert_eq!(monto.tipo, "categorical");
    assert_eq!(monto.total_distintos, Some(12));
    let vals = monto.valores.as_ref().unwrap();
    assert_eq!(vals.len(), 12);
    assert!(matches!(&vals[0], ValorColumna::Real(Real::Decimal(d)) if d == "100"));

    let fecha = columna(&m.columnas, "fecha");
    assert_eq!(fecha.tipo, "date");
    assert_eq!(fecha.fecha_min.as_deref(), Some("2024-01-01"));
    assert_eq!(fecha.fecha_max.as_deref(), Some("2024-01-12"));

    let prov = columna(&m.columnas, "proveedor");
    assert_eq!(prov.tipo, "categorical");
    assert_eq!(textos(&prov.valores), s(&["Prov A", "Prov B", "Prov C"]));
    // fewer than two plain categorical columns with related keys: none found
    assert_eq!(m.dependencias.len(), 0);
}

#[test]
fn exploration_of_an_empty_database() {
    let conn = Connection::open_in_memory().unwrap();
    let m = explorar(&conn, &AnalyseConfig::default()).unwrap();
    assert_eq!(m.vista_principal, "");
    assert!(m.tablas.is_empty() && m.columnas.is_empty() && m.dependencias.is_empty());
}

fn medidas() -> Connection {
    let conn = Connection::open_in_memory().unwrap();
    conn.execute_batch(
        "CREATE TABLE medidas (id INTEGER PRIMARY KEY, cantidad INTEGER, peso REAL, nota TEXT, texto_largo TEXT, vacia TEXT, clave INTEGER);
         WITH RECURSIVE n(i) AS (SELECT 0 UNION ALL SELECT i + 1 FROM n WHERE i < 69)
         INSERT INTO medidas SELECT i, i % 51, i * 1.5, 'nota ' || i, printf('%.90d', i), NULL, i FROM n;",
    )
    .unwrap();
    conn
}

#[test]
fn numeric_text_search_and_omitted_columns() {
    let conn = medidas();
    let ac = AnalyseConfig::default();
    let cols = obtener_columnas(&conn, "medidas").unwrap();
    let fks = Vec::new();
    let info = |i: usize| analizar_columna(&conn, "medidas", &cols[i], &fks, &ac).unwrap();

    let cantidad = info(1).unwrap();
    assert_eq!(cantidad.tipo, "numeric");
    assert!(matches!(cantidad.min, Some(Real::Entero(0))));
    assert!(matches!(cantidad.max, Some(Real::Entero(50))));
    assert!(cantidad.valores.is_none() && cantidad.total_distintos.is_none());

    let peso = info(2).unwrap();
    assert_eq!(peso.tipo, "numeric");
    assert!(matches!(&peso.min, Some(Real::Decimal(d)) if d == "0"));
    assert!(matches!(&peso.max, Some(Real::Decimal(d)) if d == "103.5"));

    let nota = info(3).unwrap();
    assert_eq!(nota.tipo, "text_search");
    assert!(nota.valores.is_none());

    // longer than eighty characters on average, all NULL, or a key: no filter
    assert!(info(4).is_none());
    assert!(info(5).is_none());
    assert!(info(6).is_none());
}

#[test]
fn status_column_is_found() {
    let conn = contratos();
    let nombres = s(&["estado", "monto", "fecha", "proveedor"]);
    assert_eq!(
        detectar_columna_estado(&conn, "contratos", &nombres, "PEND", "FIRM").unwrap(),
        Some("estado".to_string())
    );
    assert_eq!(
        detectar_columna_estado(&conn, "contratos", &s(&["monto", "fecha"]), "PEND", "FIRM").unwrap(),
        None
    );
    assert_eq!(
        detectar_columna_estado(&conn, "contratos", &s(&["bad name", "estado"]), "PEND", "FIRM").unwrap(),
        Some("estado".to_string())
    );
}

fn zonas() -> Connection {
    let conn = Connection::open_in_memory().unwrap();
    conn.execute_batch(
        "CREATE TABLE zona (id INTEGER PRIMARY KEY, region TEXT, ciudad TEXT, extra TEXT);
         INSERT INTO zona VALUES (1,'Norte','Monterrey','x'),(2,'Norte','Saltillo','y'),(3,'Sur','Merida','z');
         CREATE TABLE tienda (id INTEGER PRIMARY KEY, region_ref INTEGER REFERENCES zona(id), ciudad_ref INTEGER REFERENCES zona(id));",
    )
    .unwrap();
    conn
}

fn mapeo(m: &[(String, Vec<String>)]) -> Vec<(String, Vec<String>)> {
    m.to_vec()
}

#[test]
fn dependency_mapping_groups_children_by_parent() {
    let conn = zonas();
    let fks = analizar_foreign_keys(&conn, &listar_tablas(&conn).unwrap()).unwrap();
    let m = construir_mapeo_dependencia(&conn, "region", "ciudad", &fks).unwrap().unwrap();
    assert_eq!(
        mapeo(&m),
        vec![
            ("Norte".to_string(), s(&["Monterrey", "Saltillo"])),
            ("Sur".to_string(), s(&["Merida"])),
        ]
    );
    assert!(construir_mapeo_dependencia(&conn, "extra", "ciudad", &fks).unwrap().is_none());
    assert!(construir_mapeo_dependencia(&conn, "region", "extra", &fks).unwrap().is_none());
}

#[test]
fn exploration_finds_dependencies() {
    let conn = zonas();
    let m = explorar(&conn, &AnalyseConfig::default()).unwrap();
    assert_eq!(m.vista_principal, "zona");
    assert_eq!(m.dependencias.len(), 2);
    assert_eq!(m.dependencias[0].columna_padre, "ciudad");
    assert_eq!(m.dependencias[0].columna_dependiente, "region");
    assert_eq!(
        mapeo(&m.dependencias[0].mapeo),
        vec![
            ("Merida".to_string(), s(&["Sur"])),
            ("Monterrey".to_string(), s(&["Norte"])),
            ("Saltillo".to_string(), s(&["Norte"])),
        ]
    );
    assert_eq!(m.dependencias[1].columna_padre, "region");
    assert_eq!(m.dependencias[1].columna_dependiente, "ciudad");
}

#[test]
fn filters_offered_are_sorted_by_name() {
    let conn = contratos();
    let m = explorar(&conn, &AnalyseConfig::default()).unwrap();
    let f = extraer_filtros_info(&m);
    let nombres: Vec<String> = f.iter().map(|x| x.nombre.clone()).collect();
    assert_eq!(nombres, s(&["area", "estado", "fecha", "folio", "modo", "monto", "proveedor", "tipo"]));
    let area = &f[0];
    assert_eq!(area.tipo, "categorical_fk");
    assert_eq!(area.valores, Some(s(&["Compras", "Legal", "Obras"])));
    assert_eq!(area.tabla_catalogo.as_deref(), Some("cat_area"));
    assert!(area.fecha_min.is_none() && area.min.is_none());
    let fecha = &f[2];
    assert_eq!(fecha.fecha_min.as_deref(), Some("2024-01-01"));
    assert!(fecha.valores.is_none() && fecha.col_original.is_none());
    // a categorical column of numbers offers its values as numerals
    let folio = &f[3];
    assert_eq!(folio.valores.as_ref().unwrap()[0], "1001");
    assert_eq!(folio.valores.as_ref().unwrap().len(), 12);
    let monto = &f[5];
    assert_eq!(monto.valores.as_ref().unwrap()[0], "100");
    assert_eq!(monto.valores.as_ref().unwrap()[11], "1200");
}

#[test]
fn filters_of_unknown_kinds_are_left_out_and_ties_keep_order() {
    let base = |nombre: &str, tipo: &str, extra: Option<&str>| ColumnaInfo {
        nombre: nombre.to_string(),
        tipo: tipo.to_string(),
        valores: None,
        total_distintos: None,
        min: None,
        max: None,
        fecha_min: extra.map(|x| x.to_string()),
        fecha_max: None,
        col_original: None,
        tabla_catalogo: None,
        col_nombre_catalogo: None,
    };
    let meta = reporte_contrataciones::db::types::SchemaMetadata {
        vista_principal: "t".to_string(),
        tablas: Vec::new(),
        columnas: vec![
            base("b", "text_search", None),
            base("a", "otro", None),
            base("a", "date", Some("primera")),
            base("a", "date", Some("segunda")),
        ],
        dependencias: Vec::new(),
    };
    let f = extraer_filtros_info(&meta);
    assert_eq!(f.len(), 3);
    assert_eq!(f[0].fecha_min.as_deref(), Some("primera"));
    assert_eq!(f[1].fecha_min.as_deref(), Some("segunda"));
    assert_eq!(f[2].nombre, "b");
}

#[test]
fn joined_reading_for_tables_with_catalogues() {
    let conn = contratos();
    let ac = AnalyseConfig::default();
    match detectar_patron_optimizable(&conn, "contratos", &ac).unwrap() {
        ModoOptimizacion::VistaConFKs { tabla_base, fks } => {
            assert_eq!(tabla_base, "contratos");
            let mut v: Vec<(String, String, String, String, String)> = fks
                .into_iter()
                .map(|f| (f.col_id, f.tabla_catalogo, f.col_nombre, f.nombre_display, f.pk_col))
                .collect();
            v.sort();
            assert_eq!(
                v[0],
                ("id_area".into(), "cat_area".into(), "nombre".into(), "area".into(), "id".into())
            );
            assert_eq!(
                v[1],
                ("id_modo".into(), "cat_modo".into(), "descripcion".into(), "modo".into(), "clave".into())
            );
            assert_eq!(v.len(), 3);
        },
        ModoOptimizacion::Universal => panic!("expected a joined reading"),
    }
    for vista in ["", "vw_contratos", "Mi_Reporte", "CAT_area"] {
        assert!(matches!(
            detectar_patron_optimizable(&conn, vista, &ac).unwrap(),
            ModoOptimizacion::Universal
        ));
    }
    let conn2 = zonas();
    assert!(matches!(
        detectar_patron_optimizable(&conn2, "zona", &ac).unwrap(),
        ModoOptimizacion::Universal
    ));
}

#[test]
fn last_segment_of_a_key() {
    assert_eq!(ultimo_segmento("contratos.id_area"), "id_area");
    assert_eq!(ultimo_segmento("a.b.c"), "c");
    assert_eq!(ultimo_segmento("sin_punto"), "sin_punto");
    assert_eq!(ultimo_segmento("a."), "");
    assert_eq!(ultimo_segmento(""), "");
}

#[test]
fn declared_types_are_read_in_upper_case() {
    let conn = Connection::open_in_memory().unwrap();
    conn.execute_batch("CREATE TABLE x (a integer, b Date, c);").unwrap();
    let cols = obtener_columnas(&conn, "x").unwrap();
    let tipos: Vec<String> = cols.iter().map(|c| c.col_type.clone()).collect();
    assert_eq!(tipos, s(&["INTEGER", "DATE", ""]));
    assert!(cols.iter().all(|c| !c.pk));
}

#[test]
fn pairs_keep_rows_with_two_texts_in_order() {
    let t = |x: &str| ValorSql::Texto(x.to_string());
    let filas = vec![
        vec![t("a"), t("x")],
        vec![t("b")],
        vec![t("c"), ValorSql::Entero(1)],
        vec![ValorSql::Nulo, t("y")],
        vec![t("d"), t("z"), ValorSql::Entero(3)],
    ];
    assert_eq!(
        pares_de_filas(&filas),
        vec![("a".to_string(), "x".to_string()), ("d".to_string(), "z".to_string())]
    );
    assert!(pares_de_filas(&vec![]).is_empty());
}

#[test]
fn nothing_is_measured_without_plain_names() {
    let conn = contratos();
    assert_eq!(
        detectar_columna_estado(&conn, "contratos", &s(&["bad name", "x;y"]), "PEND", "FIRM").unwrap(),
        None
    );
    let fks = analizar_foreign_keys(&conn, &s(&["no such; table", "a b"])).unwrap();
    assert!(fks.is_empty());
    assert_eq!(construir_mapeo_dependencia(&conn, "bad name", "municipio", &vec![]).unwrap(), None);
    assert!(detectar_dependencias(&conn, &vec![], &vec![]).unwrap().is_empty());
}
