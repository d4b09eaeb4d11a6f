use reporte_contrataciones::db::types::{ColumnaInfo, DashboardData, SchemaMetadata};
use reporte_contrataciones::redactor::{valor_de_columna, Redactor};

fn s(v: &[&str]) -> Vec<String> {
    v.iter().map(|x| x.to_string()).collect()
}

fn col(nombre: &str) -> ColumnaInfo {
    ColumnaInfo {
        nombre: nombre.to_string(),
        tipo: "categorical".to_string(),
        valores: None,
        total_distintos: None,
        min: None,
        max: None,
        fecha_min: None,
        fecha_max: None,
        col_original: None,
        tabla_catalogo: None,
        col_nombre_catalogo: None,
    }
}

fn datos(filas: Vec<Vec<String>>, total: u64) -> DashboardData {
    let mut d = DashboardData::default();
    d.total_general = total;
    d.total_pendientes = 3;
    d.total_firmados = 4;
    d.columnas_tabla = s(&["nombre_proveedor", "area"]);
    d.tabla = filas;
    d
}

fn meta() -> SchemaMetadata {
    SchemaMetadata {
        vista_principal: "t".to_string(),
        tablas: Vec::new(),
        columnas: vec![col("nombre_proveedor"), col("area")],
        dependencias: Vec::new(),
    }
}

fn redactar(plantilla: &str, d: &DashboardData) -> String {
    let mut r = Redactor::new();
    r.template = plantilla.to_string();
    r.redactar(d, &meta());
    assert_eq!(r.template, plantilla);
    r.output
}

#[test]
fn new_redactor_is_empty() {
    let r = Redactor::new();
    assert_eq!(r.template, "");
    assert_eq!(r.output, "");
}

#[test]
fn blank_template_asks_for_one() {
    let d = datos(Vec::new(), 0);
    assert_eq!(redactar("", &d), "Escribe una plantilla primero.");
    assert_eq!(redactar(" \n\t ", &d), "Escribe una plantilla primero.");
}

#[test]
fn counts_are_put_in() {
    let d = datos(Vec::new(), 12);
    assert_eq!(
        redactar("Total #total, pendientes #pendientes, firmados #firmados.", &d),
        "Total 12, pendientes 3, firmados 4."
    );
}

#[test]
fn template_without_marks_is_kept() {
    let d = datos(vec![s(&["A", "B"])], 1);
    assert_eq!(redactar("Sin marcas aqui.", &d), "Sin marcas aqui.");
}

#[test]
fn one_value_is_put_in_as_it_is() {
    let d = datos(vec![s(&["Acme", "Legal"])], 1);
    assert_eq!(redactar("Proveedor: #nombre proveedor (#area)", &d), "Proveedor: Acme (Legal)");
    assert_eq!(redactar("Proveedor: #nombre_proveedor", &d), "Proveedor: Acme");
}

#[test]
fn several_values_become_a_list() {
    let d = datos(vec![s(&["Acme", "Legal"]), s(&["Beta", "Compras"])], 2);
    assert_eq!(
        redactar("#area", &d),
        "(2 registros):\n  - Legal\n  - Compras"
    );
}

#[test]
fn no_rows_give_a_note() {
    assert_eq!(redactar("#area", &datos(Vec::new(), 0)), "(sin registros)");
    assert_eq!(redactar("#area", &datos(Vec::new(), 5)), "(0 valores)");
}

#[test]
fn value_by_column_name_takes_the_last_of_equal_names() {
    let cols = s(&["a", "b", "a"]);
    assert_eq!(valor_de_columna(&cols, &s(&["1", "2", "3"]), &"a".to_string()), "3");
    assert_eq!(valor_de_columna(&cols, &s(&["1", "2"]), &"a".to_string()), "");
    assert_eq!(valor_de_columna(&cols, &s(&["1", "2", "3"]), &"c".to_string()), "");
    assert_eq!(valor_de_columna(&cols, &s(&["1", "2", "3"]), &"b".to_string()), "2");
}
