use reporte_contrataciones::orden::menor_lex_exec;
use reporte_contrataciones::texto::{
    anexar, aparece_en_exec, chars_de, contiene_exec, empieza_con_exec, parse_usize,
    reemplazar_car_exec, reemplazar_exec, texto_decimal, unir_textos,
};

fn v(s: &str) -> Vec<char> {
    s.chars().collect()
}

#[test]
fn chars_de_keeps_every_character() {
    assert_eq!(chars_de("año ✓"), vec!['a', 'ñ', 'o', ' ', '✓']);
    assert_eq!(chars_de(""), Vec::<char>::new());
}

#[test]
fn occurrence_checks() {
    assert!(aparece_en_exec(&v("hola mundo"), &v("mundo"), 5));
    assert!(!aparece_en_exec(&v("hola mundo"), &v("mundo"), 4));
    assert!(!aparece_en_exec(&v("hola"), &v("la"), 3));
    assert!(empieza_con_exec(&v("cat_area"), &v("cat_")));
    assert!(!empieza_con_exec(&v("ca"), &v("cat_")));
    assert!(contiene_exec(&v("vw_reporte"), &v("reporte")));
    assert!(!contiene_exec(&v("vw_report"), &v("reporte")));
    assert!(contiene_exec(&v("abc"), &v("")));
}

#[test]
fn append_and_replace_character() {
    let mut a = v("ab");
    anexar(&mut a, &v("cd"));
    assert_eq!(a, v("abcd"));
    assert_eq!(reemplazar_car_exec(&v("fecha_de_alta"), '_', &v(" ")), v("fecha de alta"));
    assert_eq!(reemplazar_car_exec(&v("a\"b"), '"', &v("\"\"")), v("a\"\"b"));
}

#[test]
fn replace_is_left_to_right_and_non_overlapping() {
    assert_eq!(reemplazar_exec(&v("aaa"), &v("aa"), &v("x")), v("xa"));
    assert_eq!(reemplazar_exec(&v("#total de #total"), &v("#total"), &v("12")), v("12 de 12"));
    assert_eq!(reemplazar_exec(&v("sin marcas"), &v("#x"), &v("y")), v("sin marcas"));
    assert_eq!(reemplazar_exec(&v(""), &v("#x"), &v("y")), v(""));
    // the same result as `str::replace`
    let s = "ab#ab#a#";
    assert_eq!(
        reemplazar_exec(&v(s), &v("#a"), &v("--")).into_iter().collect::<String>(),
        s.replace("#a", "--")
    );
}

#[test]
fn decimal_text_of_numbers() {
    assert_eq!(texto_decimal(0), "0");
    assert_eq!(texto_decimal(7), "7");
    assert_eq!(texto_decimal(1203), "1203");
    assert_eq!(texto_decimal(u64::MAX), u64::MAX.to_string());
}

#[test]
fn parse_usize_as_std_reads_it() {
    assert_eq!(parse_usize("42"), Some(42));
    assert_eq!(parse_usize("+7"), Some(7));
    assert_eq!(parse_usize("007"), Some(7));
    assert_eq!(parse_usize(""), None);
    assert_eq!(parse_usize("+"), None);
    assert_eq!(parse_usize("-1"), None);
    assert_eq!(parse_usize("1a"), None);
    assert_eq!(parse_usize(" 1"), None);
    assert_eq!(parse_usize(&usize::MAX.to_string()), Some(usize::MAX));
    assert_eq!(parse_usize("99999999999999999999999"), None);
}

#[test]
fn decimal_text_reads_back() {
    for n in [0usize, 1, 9, 10, 12345, usize::MAX] {
        assert_eq!(parse_usize(&texto_decimal(n as u64)), Some(n));
    }
}

#[test]
fn join_as_std_joins() {
    let items = vec!["a".to_string(), "b".to_string(), "c".to_string()];
    assert_eq!(unir_textos(&items, ", "), "a, b, c");
    assert_eq!(unir_textos(&vec!["solo".to_string()], " AND "), "solo");
    assert_eq!(unir_textos(&Vec::new(), ","), "");
}

#[test]
fn order_of_strings_as_std_orders_them() {
    let casos = [("a", "b"), ("b", "a"), ("ab", "a"), ("a", "ab"), ("", "a"), ("a", ""), ("x", "x"), ("Z", "a"), ("é", "z")];
    for (a, b) in casos {
        assert_eq!(menor_lex_exec(a, b), a < b, "{} < {}", a, b);
    }
}
