use vasak_terminal::guiones::{
    build_script_command, comando_para_directorio, fallback_interpreter_from_extension,
    is_probable_script, read_shebang_tokens,
};
use vasak_terminal::shell::{partir_como_shell, shell_escape_single_quoted};
use vasak_terminal::ventanas::{
    buscar_vista, elegir_salida, normalize, view_matches, vista_lista, GeometriaDeSalida, Salida,
    VistaDeVentana,
};

fn textos(args: &[&str]) -> Vec<String> {
    args.iter().map(|a| a.to_string()).collect()
}

#[test]
fn las_comillas_simples_se_escapan() {
    assert_eq!(shell_escape_single_quoted("a b"), "'a b'");
    assert_eq!(shell_escape_single_quoted("it's"), "'it'\\''s'");
    assert_eq!(shell_escape_single_quoted(""), "''");
}

#[test]
fn lo_escapado_vuelve_como_una_sola_palabra() {
    for valor in ["a b", "it's", "", "$HOME \"x\" \\ ;", "ñ'ñ"] {
        let citado = shell_escape_single_quoted(valor);
        assert_eq!(partir_como_shell(&citado), Some(textos(&[valor])));
    }
}

#[test]
fn un_directorio_da_un_cd() {
    assert_eq!(comando_para_directorio("/home/a b"), "cd '/home/a b'\n");
}

#[test]
fn el_interprete_sale_de_la_extension() {
    assert_eq!(fallback_interpreter_from_extension("/tmp/a.PY"), Some("python3".to_string()));
    assert_eq!(fallback_interpreter_from_extension("x.command"), Some("sh".to_string()));
    assert_eq!(fallback_interpreter_from_extension("x.txt"), None);
    assert_eq!(fallback_interpreter_from_extension("sin_extension"), None);
    assert_eq!(fallback_interpreter_from_extension(".bash"), None);
}

#[test]
fn un_guion_se_reconoce_por_extension_o_por_shebang() {
    assert!(is_probable_script("/tmp/x.Sh", None));
    assert!(is_probable_script("/tmp/x", Some((b'#', b'!'))));
    assert!(!is_probable_script("/tmp/x", Some((b'!', b'#'))));
    assert!(!is_probable_script("/tmp/x.py", None));
}

#[test]
fn el_shebang_se_parte_como_en_la_shell() {
    assert_eq!(read_shebang_tokens("#!/usr/bin/env python3\n"), Some(textos(&["/usr/bin/env", "python3"])));
    assert_eq!(read_shebang_tokens("#!#! /bin/sh \r\n"), Some(textos(&["/bin/sh"])));
    assert_eq!(read_shebang_tokens("#!\n"), None);
    assert_eq!(read_shebang_tokens(""), None);
    assert_eq!(read_shebang_tokens("echo hola\n"), None);
    assert_eq!(read_shebang_tokens("#! 'sin cerrar\n"), None);
    assert_eq!(read_shebang_tokens("#! # solo un comentario\n"), None);
}

#[test]
fn el_comando_del_guion_prefiere_el_shebang() {
    assert_eq!(
        build_script_command("/tmp/a b.sh", Some(textos(&["/bin/bash", "-e"])), true),
        Some("'/bin/bash' '-e' '/tmp/a b.sh'\n".to_string())
    );
    assert_eq!(
        build_script_command("/tmp/x.sh", None, true),
        Some("'/tmp/x.sh'\n".to_string())
    );
    assert_eq!(
        build_script_command("/tmp/x.rb", None, false),
        Some("ruby '/tmp/x.rb'\n".to_string())
    );
    assert_eq!(build_script_command("/tmp/x", None, false), None);
}

fn vista(id: i64, title: Option<&str>, app_id: Option<&str>, mapped: Option<bool>) -> VistaDeVentana {
    VistaDeVentana {
        id,
        title: title.map(|t| t.to_string()),
        app_id: app_id.map(|t| t.to_string()),
        mapped,
        role: None,
        layer: None,
        type_field: None,
    }
}

#[test]
fn los_titulos_se_normalizan() {
    assert_eq!(normalize("Vasak-Terminal_X"), "vasak terminal x");
}

#[test]
fn una_ventana_se_reconoce_por_titulo_o_app_id() {
    let titulo = normalize("vasak-terminal");
    assert!(view_matches(&vista(1, Some("Vasak Terminal"), None, None), &titulo));
    assert!(view_matches(&vista(1, None, Some("org.vasak_terminal.app"), None), &titulo));
    assert!(!view_matches(&vista(1, Some("otra"), Some("cosa"), None), &titulo));
}

#[test]
fn se_toma_la_primera_ventana_que_coincide() {
    let titulo = normalize("vasak-terminal");
    let vistas = vec![
        vista(1, Some("editor"), None, Some(true)),
        vista(2, Some("vasak terminal"), None, None),
        vista(3, Some("vasak terminal"), None, Some(true)),
    ];
    assert_eq!(buscar_vista(&vistas, &titulo), Some((2, false)));
    assert_eq!(buscar_vista(&vistas[..1], &titulo), None);
    assert!(!vista_lista(&vistas, 2));
    assert!(vista_lista(&vistas, 3));
    assert!(!vista_lista(&vistas, 9));
}

fn salida(id: i64, x: i64, width: i64) -> Salida {
    Salida {
        id,
        geometry: GeometriaDeSalida {
            x,
            y: 0,
            width,
            height: 1080,
        },
    }
}

#[test]
fn la_salida_es_la_que_abarca_la_columna() {
    let salidas = vec![salida(7, 0, 1920), salida(8, 1920, 1920)];
    assert_eq!(elegir_salida(&salidas, 2000), Some(8));
    assert_eq!(elegir_salida(&salidas, 0), Some(7));
    assert_eq!(elegir_salida(&salidas, -5), Some(7));
    assert_eq!(elegir_salida(&salidas, 5000), Some(7));
    assert_eq!(elegir_salida(&[], 5), None);
}
