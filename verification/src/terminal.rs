//! Las decisiones de cada pestaña: qué shell arrancar, qué hacer con lo que
//! se lee del PTY y qué contestar cuando la vista pide el estado de la shell.

use vstd::prelude::*;

use crate::texto::{caracteres, mismo_texto, recortado, recortar, texto_de, unir, unir_con};

verus! {

/// El directorio y el comando en primer plano de una pestaña.
#[derive(Debug, PartialEq, Eq)]
pub struct ShellStatus {
    pub cwd: Option<String>,
    pub running_command: Option<String>,
}

/// El estado cuando no se sabe nada de la shell.
pub fn default_shell_status() -> (r: ShellStatus)
    ensures
        r.cwd is None,
        r.running_command is None,
{
    ShellStatus { cwd: None, running_command: None }
}

/// El proceso en primer plano que hay que mirar, si no es la shell misma.
///
/// El grupo en primer plano de la terminal (`tpgid`) es el pid del líder de
/// ese grupo; si coincide con el grupo de la shell, la shell está en primer
/// plano y no corre ningún comando.
pub fn primer_plano(grupos: Option<(i32, i32)>) -> (r: Option<u32>)
    ensures
        r == (match grupos {
            Some((pgrp, tpgid)) => if tpgid > 0 && tpgid != pgrp {
                Some(tpgid as u32)
            } else {
                None
            },
            None => None,
        }),
{
    match grupos {
        Some((pgrp, tpgid)) => if tpgid > 0 && tpgid != pgrp {
            Some(tpgid as u32)
        } else {
            None
        },
        None => None,
    }
}

/// El nombre del proceso a partir de `/proc/PID/comm`: sin espacios a los
/// lados, y nada si queda vacío.
pub fn nombre_de_comm(contenido: &str) -> (r: Option<String>)
    ensures
        r.deep_view() == (if recortado(contenido@).len() > 0 {
            Some(recortado(contenido@))
        } else {
            None
        }),
{
    let cs = caracteres(contenido);
    let limpio = recortar(&cs);
    if limpio.len() > 0 {
        Some(texto_de(limpio.as_slice()))
    } else {
        None
    }
}

/// Qué hacer cuando la vista pide el estado de la shell.
#[derive(Debug, Clone, Copy, PartialEq, Eq)]
pub enum PasoDeEstado {
    /// La shell todavía no arrancó: el estado vacío.
    SinShell,
    /// La shell terminó: un error.
    ShellTerminada,
    /// Leer el estado de la shell con ese pid.
    Leer(u32),
}

/// Qué contestar según el pid de la shell y si ese proceso sigue vivo.
pub fn paso_de_estado(shell_pid: Option<u32>, viva: bool) -> (r: PasoDeEstado)
    ensures
        r == (match shell_pid {
            None => PasoDeEstado::SinShell,
            Some(pid) => if viva {
                PasoDeEstado::Leer(pid)
            } else {
                PasoDeEstado::ShellTerminada
            },
        }),
{
    match shell_pid {
        None => PasoDeEstado::SinShell,
        Some(pid) => if viva {
            PasoDeEstado::Leer(pid)
        } else {
            PasoDeEstado::ShellTerminada
        },
    }
}

/// El tamaño con que se abre el PTY: nunca menos de una fila ni de una
/// columna.
pub fn dimensiones_pty(rows: u16, cols: u16) -> (r: (u16, u16))
    ensures
        r.0 == (if rows >= 1 { rows } else { 1 }),
        r.1 == (if cols >= 1 { cols } else { 1 }),
{
    (if rows >= 1 { rows } else { 1 }, if cols >= 1 { cols } else { 1 })
}

/// Lo que devolvió una lectura del PTY.
#[derive(Debug, Clone, Copy, PartialEq, Eq)]
pub enum Lectura {
    /// Fin de archivo: la shell cerró el PTY.
    Fin,
    /// Llegaron tantos bytes.
    Datos(usize),
    /// La lectura se interrumpió por una señal.
    Interrumpida,
    /// Cualquier otro error.
    Fallo,
}

/// Qué hace el hilo lector después de una lectura.
#[derive(Debug, Clone, Copy, PartialEq, Eq)]
pub enum AccionDelLector {
    /// Dejar de leer y avisar que la shell terminó.
    Cortar,
    /// Volver a leer.
    Reintentar,
    /// Tirar los bytes leídos: nadie escucha.
    Descartar,
    /// Mandar tantos bytes por el canal.
    Enviar(usize),
}

/// Lo que hace el lector con una lectura: corta al final o ante un error,
/// reintenta si se interrumpió, y los bytes van al canal si hay alguien
/// escuchando; si no, se tiran en vez de acumularse.
pub fn accion_del_lector(lectura: Lectura, hay_canal: bool) -> (r: AccionDelLector)
    ensures
        r == (match lectura {
            Lectura::Fin => AccionDelLector::Cortar,
            Lectura::Datos(n) => if hay_canal {
                AccionDelLector::Enviar(n)
            } else {
                AccionDelLector::Descartar
            },
            Lectura::Interrumpida => AccionDelLector::Reintentar,
            Lectura::Fallo => AccionDelLector::Cortar,
        }),
{
    match lectura {
        Lectura::Fin => AccionDelLector::Cortar,
        Lectura::Datos(n) => if hay_canal {
            AccionDelLector::Enviar(n)
        } else {
            AccionDelLector::Descartar
        },
        Lectura::Interrumpida => AccionDelLector::Reintentar,
        Lectura::Fallo => AccionDelLector::Cortar,
    }
}

/// `l` con `c` al final, si no estaba.
pub open spec fn agregar_si_falta(l: Seq<Seq<char>>, c: Seq<char>) -> Seq<Seq<char>> {
    if l.contains(c) {
        l
    } else {
        l.push(c)
    }
}

/// Las shells que se prueban, en orden: la de `$SHELL` (sin espacios a los
/// lados, si no queda vacía) y después `/bin/bash`, `/bin/sh`, `bash` y `sh`,
/// cada una si no estaba ya.
pub open spec fn shells_a_probar(shell_env: Option<Seq<char>>) -> Seq<Seq<char>> {
    let base = match shell_env {
        Some(s) => if recortado(s).len() > 0 {
            seq![recortado(s)]
        } else {
            seq![]
        },
        None => seq![],
    };
    agregar_si_falta(
        agregar_si_falta(agregar_si_falta(agregar_si_falta(base, "/bin/bash"@), "/bin/sh"@), "bash"@),
        "sh"@,
    )
}

/// Agrega `c` a la lista si no estaba.
fn agregar_si_falta_exec(l: &mut Vec<String>, c: &str)
    ensures
        final(l).deep_view() == agregar_si_falta(old(l).deep_view(), c@),
{
    let ghost vista = l.deep_view();
    let mut i: usize = 0;
    while i < l.len()
        invariant
            i <= l.len(),
            vista == l.deep_view(),
            forall|j: int| 0 <= j < i ==> #[trigger] vista[j] != c@,
        decreases l.len() - i,
    {
        if mismo_texto(l[i].as_str(), c) {
            assert(vista[i as int] == c@);
            return;
        }
        i = i + 1;
    }
    l.push(c.to_owned());
    assert(l.deep_view() =~= vista.push(c@));
}

/// Las shells que se prueban, a partir del valor de `$SHELL` si lo hay.
pub fn shells_candidatas(shell_env: Option<&str>) -> (r: Vec<String>)
    ensures
        r.deep_view() == shells_a_probar(
            match shell_env {
                Some(s) => Some(s@),
                None => None,
            },
        ),
{
    let mut candidatas: Vec<String> = Vec::new();
    match shell_env {
        Some(s) => {
            let limpio = recortar(&caracteres(s));
            if limpio.len() > 0 {
                candidatas.push(texto_de(limpio.as_slice()));
            }
        },
        None => {},
    }
    assert(candidatas.deep_view() =~= (match shell_env {
        Some(s) => if recortado(s@).len() > 0 {
            seq![recortado(s@)]
        } else {
            seq![]
        },
        None => seq![],
    }));
    agregar_si_falta_exec(&mut candidatas, "/bin/bash");
    agregar_si_falta_exec(&mut candidatas, "/bin/sh");
    agregar_si_falta_exec(&mut candidatas, "bash");
    agregar_si_falta_exec(&mut candidatas, "sh");
    candidatas
}

/// Un intento fallido: la shell y el error, separados por `": "`.
pub fn intento_fallido(shell: &str, error: &str) -> (r: String)
    ensures
        r@ == shell@ + ": "@ + error@,
{
    let mut r = shell.to_owned();
    r.append(": ");
    r.append(error);
    r
}

/// El error cuando ninguna shell arrancó: todos los intentos, separados por
/// `" | "`.
pub fn mensaje_de_fallo(errores: &[String]) -> (r: String)
    ensures
        r@ == "No se pudo crear la shell. Intentos: "@ + unir(errores.deep_view(), " | "@),
{
    let sep = caracteres(" | ");
    let unidos = unir_con(errores, &sep);
    let mut r = "No se pudo crear la shell. Intentos: ".to_owned();
    r.append(texto_de(unidos.as_slice()).as_str());
    r
}


proof fn lema_agregar_si_falta(l: Seq<Seq<char>>, c: Seq<char>)
    requires
        l.no_duplicates(),
    ensures
        agregar_si_falta(l, c).no_duplicates(),
        agregar_si_falta(l, c).contains(c),
        forall|x: Seq<char>| l.contains(x) ==> #[trigger] agregar_si_falta(l, c).contains(x),
        l.len() > 0 ==> agregar_si_falta(l, c)[0] == l[0],
{
    if !l.contains(c) {
        let n = l.push(c);
        assert(n[l.len() as int] == c);
        assert forall|x: Seq<char>| l.contains(x) implies #[trigger] n.contains(x) by {
            let i = choose|i: int| 0 <= i < l.len() && l[i] == x;
            assert(n[i] == x);
        }
        assert forall|i: int, j: int| 0 <= i < n.len() && 0 <= j < n.len() && i != j implies n[i] != n[j] by {
            if i < l.len() && j < l.len() {
            } else if i < l.len() {
                assert(n[j] == c);
                assert(n[i] == l[i]);
            } else {
                assert(n[i] == c);
                assert(n[j] == l[j]);
            }
        }
    }
}

/// Las shells se prueban sin repetir ninguna: primero la de `$SHELL` si dice
/// algo, y siempre están `/bin/bash`, `/bin/sh`, `bash` y `sh`.
pub proof fn ley_shells_sin_repetir(shell_env: Option<Seq<char>>)
    ensures
        shells_a_probar(shell_env).no_duplicates(),
        shells_a_probar(shell_env).contains("/bin/bash"@),
        shells_a_probar(shell_env).contains("/bin/sh"@),
        shells_a_probar(shell_env).contains("bash"@),
        shells_a_probar(shell_env).contains("sh"@),
        shell_env is Some && recortado(shell_env->0).len() > 0 ==> shells_a_probar(shell_env)[0]
            == recortado(shell_env->0),
{
    let base: Seq<Seq<char>> = match shell_env {
        Some(s) => if recortado(s).len() > 0 {
            seq![recortado(s)]
        } else {
            seq![]
        },
        None => seq![],
    };
    assert(base.no_duplicates());
    let l1 = agregar_si_falta(base, "/bin/bash"@);
    let l2 = agregar_si_falta(l1, "/bin/sh"@);
    let l3 = agregar_si_falta(l2, "bash"@);
    lema_agregar_si_falta(base, "/bin/bash"@);
    lema_agregar_si_falta(l1, "/bin/sh"@);
    lema_agregar_si_falta(l2, "bash"@);
    lema_agregar_si_falta(l3, "sh"@);
}

} // verus!
