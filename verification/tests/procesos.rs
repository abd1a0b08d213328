use vasak_terminal::procesos::{parse_cmdline, parse_stat_pgrp_tpgid, unir_y_recortar, CMDLINE_MAX};

/// Una línea de `/proc/PID/stat` real, de una zsh.
const STAT_ZSH: &str =
    "1234 (zsh) S 1200 1234 1234 34816 1300 4194304 900 0 0 0 1 2 0 0 20 0 1 0 999 0 0";

#[test]
fn se_leen_el_grupo_y_el_primer_plano() {
    let (pgrp, tpgid) = parse_stat_pgrp_tpgid(STAT_ZSH).unwrap();
    assert_eq!(pgrp, 1234);
    assert_eq!(tpgid, 1300);
}

#[test]
fn un_nombre_de_proceso_con_espacios_no_corre_los_campos() {
    let stat = "77 (Web Content) S 70 77 77 0 -1 4194304 1 0 0 0 1 2 0 0 20 0 1 0 5 0 0";
    let (pgrp, tpgid) = parse_stat_pgrp_tpgid(stat).unwrap();
    assert_eq!(pgrp, 77);
    assert_eq!(tpgid, -1);
}

#[test]
fn un_nombre_con_parentesis_se_lee_por_el_ultimo() {
    let stat = "88 (raro) cosa) S 80 88 88 0 91 4194304 1 0 0 0 1 2 0 0 20 0 1 0 5 0 0";
    let (pgrp, tpgid) = parse_stat_pgrp_tpgid(stat).unwrap();
    assert_eq!(pgrp, 88);
    assert_eq!(tpgid, 91);
}

#[test]
fn una_linea_truncada_no_inventa_valores() {
    assert!(parse_stat_pgrp_tpgid("1 (init) S 0 1").is_none());
    assert!(parse_stat_pgrp_tpgid("basura sin parentesis").is_none());
    assert!(parse_stat_pgrp_tpgid("").is_none());
}

#[test]
fn los_argumentos_se_juntan_con_espacios() {
    let data = b"git\0commit\0-m\0mensaje\0";
    assert_eq!(parse_cmdline(data).unwrap(), "git commit -m mensaje");
}

#[test]
fn un_cmdline_vacio_no_da_comando() {
    assert!(parse_cmdline(b"").is_none());
    assert!(parse_cmdline(b"\0\0\0").is_none());
}

#[test]
fn un_comando_largo_con_acentos_no_paniquea() {
    let mut comando = "a".repeat(116);
    comando.push('ñ');
    comando.push_str(&"b".repeat(200));

    let resultado = parse_cmdline(comando.as_bytes()).expect("tiene que devolver algo");
    assert!(resultado.ends_with("..."));
    assert!(resultado.chars().count() <= CMDLINE_MAX);
}

#[test]
fn el_recorte_cuenta_caracteres_y_no_bytes() {
    let comando = "ñ".repeat(200);
    let resultado = parse_cmdline(comando.as_bytes()).unwrap();
    assert_eq!(resultado.chars().count(), CMDLINE_MAX);
    assert!(resultado.starts_with('ñ'));
}

#[test]
fn un_comando_corto_pasa_entero() {
    assert_eq!(parse_cmdline(b"ls\0-la\0").unwrap(), "ls -la");
    let justo = "a".repeat(CMDLINE_MAX);
    assert_eq!(parse_cmdline(justo.as_bytes()).unwrap(), justo);
}

#[test]
fn un_byte_invalido_se_cambia_por_el_de_reemplazo() {
    assert_eq!(parse_cmdline(b"ab\xffc\0d").unwrap(), "ab\u{fffd}c d");
}

#[test]
fn uno_de_mas_ya_se_recorta() {
    let largo = "x".repeat(CMDLINE_MAX + 1);
    let resultado = parse_cmdline(largo.as_bytes()).unwrap();
    assert_eq!(resultado, format!("{}...", "x".repeat(CMDLINE_MAX - 3)));
}

#[test]
fn unir_sin_partes_no_da_nada() {
    assert_eq!(unir_y_recortar(&[]), None);
    assert_eq!(
        unir_y_recortar(&["a".to_string(), "".to_string(), "b".to_string()]),
        Some("a  b".to_string())
    );
}

#[test]
fn los_enteros_se_leen_como_parse() {
    // Signo más, ceros a la izquierda y los extremos de i32.
    let stat = "1 (x) S 0 +0042 0 0 -2147483648 0";
    assert_eq!(parse_stat_pgrp_tpgid(stat), Some((42, -2147483648)));
    // Fuera de rango o sin cifras: nada.
    assert_eq!(parse_stat_pgrp_tpgid("1 (x) S 0 2147483648 0 0 1 0"), None);
    assert_eq!(parse_stat_pgrp_tpgid("1 (x) S 0 - 0 0 1 0"), None);
    assert_eq!(parse_stat_pgrp_tpgid("1 (x) S 0 99999999999999999999 0 0 1 0"), None);
}

#[test]
fn tras_el_parentesis_tiene_que_haber_un_byte_simple() {
    // El carácter que sigue al `)` ocupa dos bytes: no hay corte válido.
    assert_eq!(parse_stat_pgrp_tpgid("1 (x)ñS 0 5 0 0 7 0"), None);
    // Con un carácter de un byte, se lee desde el siguiente.
    assert_eq!(parse_stat_pgrp_tpgid("1 (x)_S 0 5 0 0 7 0"), Some((5, 7)));
    assert_eq!(parse_stat_pgrp_tpgid("1 (x)"), None);
}
