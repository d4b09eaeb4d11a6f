use reporte_contrataciones::db::constants::AnalyseConfig;
use reporte_contrataciones::db::sqlite::Real;
use reporte_contrataciones::db::types::{FiltroInfo, FiltroValor};
use reporte_contrataciones::sesion::{
    analizar_seleccion, etiquetas_columnas, filtros_iniciales, listar_tablas_vistas,
    mas_que_una_pagina, mes_anterior, mes_siguiente, ordenar_grupos, ordenar_sin_repetir,
    pagina_anterior, pagina_escrita, pagina_siguiente, texto_seleccion, total_paginas,
    ChartsData, ExportFormat,
};
use rusqlite::Connection;

fn s(v: &[&str]) -> Vec<String> {
    v.iter().map(|x| x.to_string()).collect()
}

fn info(nombre: &str, tipo: &str) -> FiltroInfo {
    FiltroInfo {
        nombre: nombre.to_string(),
        tipo: tipo.to_string(),
        valores: None,
        min: None,
        max: None,
        fecha_min: None,
        fecha_max: None,
        col_original: None,
        tabla_catalogo: None,
        col_nombre_catalogo: None,
    }
}

#[test]
fn names_sorted_each_once() {
    assert_eq!(
        ordenar_sin_repetir(&s(&["b", "a", "c", "a", "B", "b"])),
        s(&["B", "a", "b", "c"])
    );
    assert_eq!(ordenar_sin_repetir(&Vec::new()), Vec::<String>::new());
}

#[test]
fn tables_and_views_to_choose_from() {
    let conn = Connection::open_in_memory().unwrap();
    conn.execute_batch(
        "CREATE TABLE zeta (a INTEGER); CREATE TABLE alfa (a INTEGER);
         CREATE VIEW medio AS SELECT 1; CREATE VIEW alfa2 AS SELECT 2;",
    )
    .unwrap();
    assert_eq!(listar_tablas_vistas(&conn), s(&["alfa", "alfa2", "medio", "zeta"]));
}

#[test]
fn initial_filter_values() {
    let mut fk = info("area", "categorical_fk");
    fk.col_original = Some("id_area".to_string());
    fk.tabla_catalogo = Some("cat_area".to_string());
    let mut num = info("monto", "numeric");
    num.min = Some(Real::Decimal("2.5".to_string()));
    let fis = vec![
        info("estado", "categorical"),
        fk,
        info("fecha", "date"),
        num,
        info("nota", "text_search"),
        info("raro", "otro"),
        info("estado", "text_search"),
    ];
    let f = filtros_iniciales(&fis);
    let nombres: Vec<String> = f.iter().map(|x| x.0.clone()).collect();
    // a later filter of the same name replaces the value in its place
    assert_eq!(nombres, s(&["estado", "area", "fecha", "monto", "nota"]));
    assert!(matches!(&f[0].1, FiltroValor::TextSearch { query } if query.is_empty()));
    match &f[1].1 {
        FiltroValor::CategoricalFK { selected, col_original, tabla_catalogo, col_nombre } => {
            assert_eq!(selected, "__todos__");
            assert_eq!(col_original, "id_area");
            assert_eq!(tabla_catalogo, "cat_area");
            assert_eq!(col_nombre, "");
        },
        _ => panic!("expected a catalogue choice"),
    }
    assert!(matches!(&f[2].1, FiltroValor::Date { desde, hasta } if desde.is_empty() && hasta.is_empty()));
    match &f[3].1 {
        FiltroValor::Numeric { min, max, orig_min, orig_max } => {
            assert!(matches!(min, Real::Decimal(d) if d == "2.5"));
            assert!(matches!(orig_min, Real::Decimal(d) if d == "2.5"));
            assert!(matches!(max, Real::Entero(1)));
            assert!(matches!(orig_max, Real::Entero(1)));
        },
        _ => panic!("expected a range"),
    }
    let solo = filtros_iniciales(&vec![info("estado", "categorical")]);
    assert!(matches!(&solo[0].1, FiltroValor::Categorical { selected } if selected == "__todos__"));
}

#[test]
fn selecting_a_table() {
    let conn = Connection::open_in_memory().unwrap();
    conn.execute_batch(
        "CREATE TABLE t (id INTEGER PRIMARY KEY, estado TEXT, nota TEXT);
         INSERT INTO t VALUES (1,'PENDIENTE','a'),(2,'PENDIENTE','b'),(3,'FIRMADO','c'),(4,'FIRMADO','d'),
                              (5,'PENDIENTE','e'),(6,'FIRMADO','f'),(7,'PENDIENTE','g'),(8,'FIRMADO','h');",
    )
    .unwrap();
    let sel = analizar_seleccion(&conn, "t", &AnalyseConfig::default(), "PEND", "FIRM");
    assert_eq!(sel.meta.vista_principal, "t");
    assert_eq!(sel.meta.tablas, s(&["t"]));
    assert!(sel.meta.dependencias.is_empty());
    let nombres: Vec<String> = sel.filtros_info.iter().map(|f| f.nombre.clone()).collect();
    assert_eq!(nombres, s(&["estado", "nota"]));
    assert_eq!(sel.status_col, Some("estado".to_string()));
    assert_eq!(sel.filtros.len(), 2);
    let vacia = analizar_seleccion(&conn, "no_hay", &AnalyseConfig::default(), "PEND", "FIRM");
    assert!(vacia.meta.columnas.is_empty() && vacia.filtros.is_empty() && vacia.status_col.is_none());
}

#[test]
fn groups_largest_first_ties_in_order() {
    let g = vec![
        ("a".to_string(), 2u64),
        ("b".to_string(), 5),
        ("c".to_string(), 2),
        ("d".to_string(), 9),
    ];
    assert_eq!(
        ordenar_grupos(&g),
        vec![("d".to_string(), 9), ("b".to_string(), 5), ("a".to_string(), 2), ("c".to_string(), 2)]
    );
    let datos = ChartsData { por_grupo: &g };
    assert_eq!(datos.por_grupo.len(), 4);
    assert!(matches!(ExportFormat::Pdf, ExportFormat::Pdf));
    assert!(!matches!(ExportFormat::Pptx, ExportFormat::Pdf));
}

#[test]
fn paging() {
    assert_eq!(total_paginas(12, 5), 3);
    assert_eq!(total_paginas(10, 5), 2);
    assert_eq!(total_paginas(1, 500), 1);
    assert_eq!(total_paginas(0, 5), 0);
    assert_eq!(total_paginas(7, 0), usize::MAX);
    assert_eq!(pagina_anterior(3), Some(2));
    assert_eq!(pagina_anterior(1), None);
    assert_eq!(pagina_siguiente(2, 3), Some(3));
    assert_eq!(pagina_siguiente(3, 3), None);
    assert_eq!(pagina_escrita("2", 3), Some(2));
    assert_eq!(pagina_escrita("4", 3), None);
    assert_eq!(pagina_escrita("0", 3), None);
    assert_eq!(pagina_escrita("1", 0), Some(1));
    assert_eq!(pagina_escrita("dos", 3), None);
    assert!(mas_que_una_pagina(11, 10));
    assert!(!mas_que_una_pagina(10, 10));
}

#[test]
fn labels() {
    assert_eq!(texto_seleccion("__todos__"), "Todos");
    assert_eq!(texto_seleccion(""), "Todos");
    assert_eq!(texto_seleccion("Legal"), "Legal");
    assert_eq!(etiquetas_columnas(&s(&["nombre_proveedor", "area"])), "#nombre proveedor, #area");
    assert_eq!(etiquetas_columnas(&Vec::new()), "");
}

#[test]
fn months_of_the_calendar() {
    assert_eq!(mes_anterior(2024, 1), (2023, 12));
    assert_eq!(mes_anterior(2024, 7), (2024, 6));
    assert_eq!(mes_siguiente(2024, 12), (2025, 1));
    assert_eq!(mes_siguiente(2024, 7), (2024, 8));
    for m in 1..=12u32 {
        let (y, n) = mes_siguiente(2024, m);
        assert_eq!(mes_anterior(y, n), (2024, m));
    }
}
