use vasak_terminal::arranque::StartupCommandState;
use vasak_terminal::sesiones::Sesiones;
use vasak_terminal::terminal::{
    accion_del_lector, default_shell_status, dimensiones_pty, intento_fallido, mensaje_de_fallo,
    nombre_de_comm, paso_de_estado, primer_plano, shells_candidatas, AccionDelLector, Lectura,
    PasoDeEstado,
};

fn estado(command: Option<&str>) -> StartupCommandState {
    StartupCommandState {
        command: command.map(|c| c.to_string()),
        claim: None,
    }
}

#[test]
fn el_comando_de_arranque_va_a_una_sola_pestana() {
    let mut st = estado(Some("cd '/tmp'\n"));
    assert_eq!(st.take_startup_command("a"), Some("cd '/tmp'\n".to_string()));
    assert_eq!(st.take_startup_command("b"), None);
    // La misma pestaña lo vuelve a recibir al remontarse.
    assert_eq!(st.take_startup_command("a"), Some("cd '/tmp'\n".to_string()));
    assert_eq!(st.claim, Some("a".to_string()));
}

#[test]
fn confirmar_la_entrega_lo_borra() {
    let mut st = estado(Some("ls\n"));
    st.take_startup_command("a");
    st.confirm_startup_command_delivered("a", "ls\n");
    assert_eq!(st.command, None);
    assert_eq!(st.claim, None);
    assert_eq!(st.take_startup_command("a"), None);
    assert_eq!(st.take_startup_command("b"), None);
}

#[test]
fn una_confirmacion_ajena_no_cambia_nada() {
    let mut st = estado(Some("ls\n"));
    st.take_startup_command("a");
    st.confirm_startup_command_delivered("b", "ls\n");
    st.confirm_startup_command_delivered("a", "otro\n");
    assert_eq!(st.command, Some("ls\n".to_string()));
    assert_eq!(st.claim, Some("a".to_string()));
}

#[test]
fn sin_comando_nadie_recibe_nada() {
    let mut st = estado(None);
    assert_eq!(st.take_startup_command("a"), None);
    assert_eq!(st.claim, None);
}

#[test]
fn las_sesiones_se_guardan_y_se_cierran() {
    let mut sesiones: Sesiones<u32> = Sesiones::new();
    assert_eq!(sesiones.get("a"), None);
    sesiones.insert("a".to_string(), 1);
    sesiones.insert("b".to_string(), 2);
    assert_eq!(sesiones.get("a"), Some(&1));
    sesiones.insert("a".to_string(), 3);
    assert_eq!(sesiones.get("a"), Some(&3));
    assert_eq!(sesiones.get("b"), Some(&2));
    sesiones.remove("a");
    assert_eq!(sesiones.get("a"), None);
    assert_eq!(sesiones.get("b"), Some(&2));
    sesiones.remove("no-esta");
    assert_eq!(sesiones.get("b"), Some(&2));
}

#[test]
fn la_shell_del_entorno_va_primero_y_no_se_repite() {
    assert_eq!(
        shells_candidatas(Some("  /bin/zsh \n")),
        vec!["/bin/zsh", "/bin/bash", "/bin/sh", "bash", "sh"]
    );
    assert_eq!(
        shells_candidatas(Some("/bin/sh")),
        vec!["/bin/sh", "/bin/bash", "bash", "sh"]
    );
    assert_eq!(
        shells_candidatas(Some("   ")),
        vec!["/bin/bash", "/bin/sh", "bash", "sh"]
    );
    assert_eq!(shells_candidatas(None), vec!["/bin/bash", "/bin/sh", "bash", "sh"]);
}

#[test]
fn el_fallo_junta_los_intentos() {
    let intentos = vec![
        intento_fallido("/bin/bash", "no existe"),
        intento_fallido("sh", "permiso denegado"),
    ];
    assert_eq!(
        mensaje_de_fallo(&intentos),
        "No se pudo crear la shell. Intentos: /bin/bash: no existe | sh: permiso denegado"
    );
    assert_eq!(mensaje_de_fallo(&[]), "No se pudo crear la shell. Intentos: ");
}

#[test]
fn el_pty_tiene_al_menos_una_fila_y_una_columna() {
    assert_eq!(dimensiones_pty(0, 0), (1, 1));
    assert_eq!(dimensiones_pty(24, 80), (24, 80));
}

#[test]
fn el_lector_decide_por_cada_lectura() {
    assert_eq!(accion_del_lector(Lectura::Fin, true), AccionDelLector::Cortar);
    assert_eq!(accion_del_lector(Lectura::Datos(10), true), AccionDelLector::Enviar(10));
    assert_eq!(accion_del_lector(Lectura::Datos(10), false), AccionDelLector::Descartar);
    assert_eq!(accion_del_lector(Lectura::Interrumpida, false), AccionDelLector::Reintentar);
    assert_eq!(accion_del_lector(Lectura::Fallo, true), AccionDelLector::Cortar);
}

#[test]
fn el_primer_plano_es_otro_grupo() {
    assert_eq!(primer_plano(Some((1234, 1300))), Some(1300));
    assert_eq!(primer_plano(Some((1234, 1234))), None);
    assert_eq!(primer_plano(Some((77, -1))), None);
    assert_eq!(primer_plano(None), None);
}

#[test]
fn el_nombre_de_comm_se_limpia() {
    assert_eq!(nombre_de_comm("vim\n"), Some("vim".to_string()));
    assert_eq!(nombre_de_comm(" \n"), None);
}

#[test]
fn el_estado_depende_de_la_shell() {
    assert_eq!(paso_de_estado(None, false), PasoDeEstado::SinShell);
    assert_eq!(paso_de_estado(Some(5), false), PasoDeEstado::ShellTerminada);
    assert_eq!(paso_de_estado(Some(5), true), PasoDeEstado::Leer(5));
    let vacio = default_shell_status();
    assert_eq!(vacio.cwd, None);
    assert_eq!(vacio.running_command, None);
}
