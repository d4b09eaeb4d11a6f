use reporte_contrataciones::db::utils::{
    clean_identifier, display_name, es_extension_bd, safe_date_parse, safe_ident, strip_fk_prefix,
    Fecha,
};
use reporte_contrataciones::redactor::limpiar_nombre;

#[test]
fn clean_identifiers() {
    assert!(clean_identifier("contratos"));
    assert!(clean_identifier("id_area_2"));
    assert!(clean_identifier("año"));
    assert!(!clean_identifier(""));
    assert!(!clean_identifier("mi tabla"));
    assert!(!clean_identifier("a;DROP"));
    assert!(!clean_identifier("x\"y"));
}

#[test]
fn safe_ident_quotes_and_doubles_quotes() {
    assert_eq!(safe_ident("contratos"), "\"contratos\"");
    assert_eq!(safe_ident("a\"b"), "\"a\"\"b\"");
    assert_eq!(safe_ident(""), "\"\"");
}

#[test]
fn strip_prefix_only_at_the_start() {
    assert_eq!(strip_fk_prefix("id_area", "id_"), "area");
    assert_eq!(strip_fk_prefix("area_id_", "id_"), "area_id_");
    assert_eq!(strip_fk_prefix("id_", "id_"), "");
    assert_eq!(strip_fk_prefix("area", ""), "area");
}

#[test]
fn display_names_replace_underscores() {
    assert_eq!(display_name("fecha_de_alta"), "fecha de alta");
    assert_eq!(display_name("monto"), "monto");
    assert_eq!(limpiar_nombre("nombre_proveedor"), "nombre proveedor");
    assert_eq!(limpiar_nombre("__"), "  ");
}

#[test]
fn database_extensions_in_any_case() {
    assert!(es_extension_bd("db"));
    assert!(es_extension_bd("SQLite"));
    assert!(es_extension_bd("SQLITE3"));
    assert!(!es_extension_bd("sql"));
    assert!(!es_extension_bd(""));
}

#[test]
fn date_parse_with_fallback() {
    let fallback = Fecha { anio: 2000, mes: 1, dia: 1 };
    assert_eq!(safe_date_parse("15/03/2024", fallback), Fecha { anio: 2024, mes: 3, dia: 15 });
    assert_eq!(safe_date_parse("31/02/2024", fallback), fallback);
    assert_eq!(safe_date_parse("2024-03-15", fallback), fallback);
    assert_eq!(safe_date_parse("", fallback), fallback);
}

#[test]
fn quoting_keeps_names_apart() {
    let nombres = ["a", "a\"", "a\"\"", "\"a", "a b", ""];
    for x in nombres {
        for y in nombres {
            assert_eq!(safe_ident(x) == safe_ident(y), x == y);
        }
    }
    // a clean name is only wrapped in quotes
    assert_eq!(safe_ident("id_area"), format!("\"{}\"", "id_area"));
}
