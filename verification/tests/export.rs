use reporte_contrataciones::db::types::DashboardData;
use reporte_contrataciones::export::{
    ancho_columna, anchos_columnas, hoja_excel, texto_estadisticas, texto_registros,
};

fn s(v: &[&str]) -> Vec<String> {
    v.iter().map(|x| x.to_string()).collect()
}

#[test]
fn sheet_has_header_and_one_row_per_record() {
    let mut d = DashboardData::default();
    d.columnas_tabla = s(&["a", "b"]);
    d.tabla = vec![s(&["1", "2"]), s(&["3"])];
    assert_eq!(hoja_excel(&d), vec![s(&["a", "b"]), s(&["1", "2"]), s(&["3", ""])]);
    assert_eq!(hoja_excel(&DashboardData::default()), vec![Vec::<String>::new()]);
}

#[test]
fn column_widths() {
    assert_eq!(ancho_columna("id"), 12);
    assert_eq!(ancho_columna("proveedor_principal"), 21);
    assert_eq!(ancho_columna(&"x".repeat(70)), 52);
    assert_eq!(ancho_columna("año_ñññññ"), 17);
    assert_eq!(anchos_columnas(&s(&["a", "descripcion_larga"])), vec![12, 19]);
}

#[test]
fn count_lines() {
    let mut d = DashboardData::default();
    d.total_general = 12;
    d.total_pendientes = 5;
    d.total_firmados = 7;
    d.total_matching = 40;
    assert_eq!(texto_registros(&d), "Registros: 12 | Pendientes: 5 | Firmados: 7");
    assert_eq!(texto_estadisticas(&d), "Total: 12 | Pendientes: 5 | Firmados: 7 | Universo: 40");
}
