use vasak_terminal::argumentos::{candidatos, esta_disponible, leer, pide_overlay, Invocacion};

fn leer_de(args: &[&str]) -> Invocacion {
    leer(&args.iter().map(|a| a.to_string()).collect::<Vec<_>>())
}

fn comando(args: &[&str]) -> Option<Vec<String>> {
    Some(args.iter().map(|a| a.to_string()).collect())
}

fn textos(args: &[&str]) -> Vec<String> {
    args.iter().map(|a| a.to_string()).collect()
}

#[test]
fn sin_argumentos_es_la_shell_de_siempre() {
    assert_eq!(leer_de(&[]), Invocacion::default());
}

#[test]
fn overlay_sigue_siendo_overlay() {
    assert_eq!(
        leer_de(&["--overlay"]),
        Invocacion {
            overlay: true,
            comando: None
        }
    );
}

#[test]
fn el_programa_va_despues_de_la_marca() {
    assert_eq!(
        leer_de(&["-e", "sudo", "limine-snapper-sync", "--restore"]).comando,
        comando(&["sudo", "limine-snapper-sync", "--restore"])
    );
}

#[test]
fn las_tres_marcas_valen_lo_mismo() {
    for marca in ["-e", "--command", "--"] {
        assert_eq!(
            leer_de(&[marca, "htop"]).comando,
            comando(&["htop"]),
            "la marca {marca} no empezó el comando"
        );
    }
}

#[test]
fn un_solo_token_con_espacios_se_parte_como_en_la_shell() {
    assert_eq!(
        leer_de(&["-e", "ls -la '/un directorio'"]).comando,
        comando(&["ls", "-la", "/un directorio"])
    );
}

#[test]
fn un_solo_token_sin_espacios_es_el_programa_entero() {
    assert_eq!(leer_de(&["-e", "htop"]).comando, comando(&["htop"]));
}

#[test]
fn los_argumentos_del_programa_no_son_opciones_nuestras() {
    let invocacion = leer_de(&["-e", "mi-programa", "--overlay"]);

    assert!(!invocacion.overlay);
    assert_eq!(invocacion.comando, comando(&["mi-programa", "--overlay"]));
}

#[test]
fn un_overlay_anterior_no_sobrevive_al_comando() {
    let invocacion = leer_de(&["--overlay", "-e", "htop"]);

    assert!(!invocacion.overlay);
    assert_eq!(invocacion.comando, comando(&["htop"]));
}

#[test]
fn la_marca_sola_no_es_un_comando() {
    assert_eq!(leer_de(&["-e"]).comando, None);
}

#[test]
fn un_programa_vacio_no_es_un_comando() {
    assert_eq!(leer_de(&["-e", ""]).comando, None);
    assert_eq!(leer_de(&["-e", "   "]).comando, None);
}

#[test]
fn una_comilla_sin_cerrar_no_es_un_comando() {
    assert_eq!(leer_de(&["-e", "echo 'sin cerrar"]).comando, None);
}

#[test]
fn una_ruta_suelta_no_es_un_comando() {
    assert_eq!(leer_de(&["/home/alguien/guion.sh"]).comando, None);
}

#[test]
fn solo_cuenta_la_primera_marca() {
    // La segunda marca es un argumento más del programa.
    assert_eq!(
        leer_de(&["--", "env", "-e", "x"]).comando,
        comando(&["env", "-e", "x"])
    );
}

#[test]
fn lo_anterior_a_la_marca_no_cambia_el_programa() {
    assert_eq!(
        leer_de(&["--overlay", "algo", "--command", "vim", "nota.txt"]),
        leer_de(&["--command", "vim", "nota.txt"])
    );
}

#[test]
fn varios_tokens_con_espacios_van_tal_cual() {
    assert_eq!(
        leer_de(&["-e", "mi programa", "un argumento"]).comando,
        comando(&["mi programa", "un argumento"])
    );
}

#[test]
fn varios_tokens_con_el_primero_vacio_no_son_un_comando() {
    assert_eq!(leer_de(&["-e", "", "x"]).comando, None);
}

#[test]
fn un_espacio_no_ascii_tambien_hace_partir() {
    // Un espacio duro cuenta como espacio para decidir si se parte, pero la
    // shell no lo usa para separar: queda una sola palabra.
    assert_eq!(
        leer_de(&["-e", "a\u{a0}b"]).comando,
        comando(&["a\u{a0}b"])
    );
}

#[test]
fn el_overlay_se_pide_con_cualquier_argumento() {
    assert!(pide_overlay(&textos(&["x", "--overlay"])));
    assert!(!pide_overlay(&textos(&["x", "--overlayy"])));
    assert!(!pide_overlay(&[]));
}

#[test]
fn los_candidatos_salen_del_path() {
    assert_eq!(
        candidatos("htop", &textos(&["/usr/bin", "/bin/"])),
        textos(&["/usr/bin/htop", "/bin/htop"])
    );
}

#[test]
fn con_barra_el_candidato_es_el_camino() {
    assert_eq!(
        candidatos("./correr.sh", &textos(&["/usr/bin"])),
        textos(&["./correr.sh"])
    );
}

#[test]
fn esta_disponible_pregunta_por_cada_candidato() {
    let rutas = textos(&["/usr/local/bin", "/usr/bin"]);
    assert!(esta_disponible("htop", &rutas, |camino: &str| camino == "/usr/bin/htop"));
    assert!(!esta_disponible("htop", &rutas, |camino: &str| camino == "/opt/htop"));
    assert!(!esta_disponible("htop", &[], |_camino: &str| true));
    assert!(esta_disponible("/opt/htop", &[], |camino: &str| camino == "/opt/htop"));
}
