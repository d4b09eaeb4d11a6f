use reporte_contrataciones::config::{
    ajustes_desde, db_paths_in, es_archivo_bd_exec, find_default_db, parsear_lista, PptxConfig,
    VariablesEntorno,
};
use reporte_contrataciones::db::constants::AnalyseConfig;

fn ninguna() -> VariablesEntorno {
    VariablesEntorno {
        pending_pattern: None,
        pending_label: None,
        signed_pattern: None,
        signed_label: None,
        catalog_prefix: None,
        fk_id_prefix: None,
        preferred_name_cols: None,
        exclude_id_prefix: None,
        exclude_name_cols: None,
        view_keywords: None,
        fallback_pk_name: None,
        redactor_placeholders: None,
    }
}

fn s(v: &[&str]) -> Vec<String> {
    v.iter().map(|x| x.to_string()).collect()
}

#[test]
fn list_items_are_trimmed_and_empty_ones_dropped() {
    assert_eq!(parsear_lista("a,b,c"), s(&["a", "b", "c"]));
    assert_eq!(parsear_lista(" nombre , name ,, desc "), s(&["nombre", "name", "desc"]));
    assert_eq!(parsear_lista(""), Vec::<String>::new());
    assert_eq!(parsear_lista(",,,"), Vec::<String>::new());
    assert_eq!(parsear_lista("\tuno\n"), s(&["uno"]));
    assert_eq!(parsear_lista("dos palabras, x"), s(&["dos palabras", "x"]));
}

#[test]
fn a_joined_list_reads_back() {
    let items = s(&["reporte", "excel", "vw_", "vista"]);
    assert_eq!(parsear_lista(&items.join(",")), items);
}

#[test]
fn settings_without_variables_are_the_defaults() {
    let a = ajustes_desde(&ninguna());
    let d = AnalyseConfig::default();
    assert_eq!(a.pending_pattern, "PEND");
    assert_eq!(a.pending_label, "Pendientes");
    assert_eq!(a.signed_pattern, "FIRM");
    assert_eq!(a.signed_label, "Firmados");
    assert_eq!(a.analyse.catalog_prefix, d.catalog_prefix);
    assert_eq!(a.analyse.fk_id_prefix, "id_");
    assert_eq!(a.analyse.preferred_name_cols, s(&["nombre", "name", "descripcion", "desc"]));
    assert_eq!(a.analyse.exclude_id_prefix, "id");
    assert_eq!(a.analyse.exclude_name_cols, s(&["created_at", "updated_at"]));
    assert_eq!(a.analyse.view_keywords, s(&["reporte", "excel", "vw_", "vista"]));
    assert_eq!(a.analyse.fallback_pk_name, "rowid");
    assert_eq!(a.analyse.redactor_placeholders, s(&["#total", "#pendientes", "#firmados"]));
    assert_eq!(d.catalog_prefix, "cat_");
}

#[test]
fn settings_take_the_variables_that_are_set() {
    let mut v = ninguna();
    v.pending_pattern = Some("EN TRAMITE".to_string());
    v.signed_label = Some("Cerrados".to_string());
    v.catalog_prefix = Some("c_".to_string());
    v.view_keywords = Some(" informe , ,resumen".to_string());
    v.exclude_name_cols = Some(String::new());
    let a = ajustes_desde(&v);
    assert_eq!(a.pending_pattern, "EN TRAMITE");
    assert_eq!(a.pending_label, "Pendientes");
    assert_eq!(a.signed_label, "Cerrados");
    assert_eq!(a.analyse.catalog_prefix, "c_");
    assert_eq!(a.analyse.view_keywords, s(&["informe", "resumen"]));
    assert_eq!(a.analyse.exclude_name_cols, Vec::<String>::new());
    assert_eq!(a.analyse.preferred_name_cols, s(&["nombre", "name", "descripcion", "desc"]));
}

#[test]
fn database_file_names() {
    assert!(es_archivo_bd_exec("datos.db"));
    assert!(es_archivo_bd_exec("Datos.SQLITE"));
    assert!(es_archivo_bd_exec("a.b.sqlite3"));
    assert!(es_archivo_bd_exec(".x.db"));
    assert!(!es_archivo_bd_exec(".db"));
    assert!(!es_archivo_bd_exec("db"));
    assert!(!es_archivo_bd_exec("datos.db.bak"));
    assert!(!es_archivo_bd_exec("datos."));
    assert!(!es_archivo_bd_exec(".."));
    assert!(!es_archivo_bd_exec(""));
}

#[test]
fn database_files_keep_the_folder_order() {
    let nombres = s(&["notas.txt", "b.sqlite", "a.db", "img.png", "c.SQLITE3"]);
    assert_eq!(db_paths_in(&nombres), s(&["b.sqlite", "a.db", "c.SQLITE3"]));
    assert_eq!(db_paths_in(&Vec::new()), Vec::<String>::new());
}

#[test]
fn default_database_is_the_first_file() {
    let nombres = s(&["leeme.md", "z.db", "a.db"]);
    assert_eq!(find_default_db(true, &nombres), Some("z.db".to_string()));
    assert_eq!(find_default_db(false, &nombres), None);
    assert_eq!(find_default_db(true, &s(&["leeme.md"])), None);
}

#[test]
fn slide_image_size() {
    let p = PptxConfig::default();
    assert_eq!(p.image_w_emu, 9_144_000);
    assert_eq!(p.image_h_emu, 6_858_000);
}

#[test]
fn unicode_spaces_around_items_are_trimmed() {
    assert_eq!(parsear_lista("\u{a0}uno\u{3000},\u{2009}dos\u{85}"), s(&["uno", "dos"]));
    assert_eq!(parsear_lista("\u{200b}x"), s(&["\u{200b}x"]));
}
