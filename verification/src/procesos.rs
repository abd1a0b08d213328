//! Lo que se lee de `/proc` sobre la shell de una pestaña: el grupo en primer
//! plano y el comando visible.

use vstd::prelude::*;

use crate::texto::{
    caracteres, entero, entero_de, palabras, partir_en_nulos, partir_en_palabras, texto_de,
    tramos_sin_nulos, unir, unir_con_espacios,
};

verus! {

/// Largo máximo, en caracteres, del comando que se muestra en la pestaña.
pub const CMDLINE_MAX: usize = 120;

/// La posición del último `c` en `s`.
pub open spec fn ultimo_indice(s: Seq<char>, c: char) -> Option<int>
    decreases s.len(),
{
    if s.len() == 0 {
        None
    } else if s.last() == c {
        Some(s.len() - 1)
    } else {
        ultimo_indice(s.drop_last(), c)
    }
}

/// Lo que sigue al nombre del ejecutable en `/proc/PID/stat`: desde dos bytes
/// después del último `)`, si esa posición existe y cae al principio de un
/// carácter (el que sigue al `)` ocupa un solo byte).
pub open spec fn tras_el_nombre(s: Seq<char>) -> Option<Seq<char>> {
    match ultimo_indice(s, ')') {
        None => None,
        Some(e) => if e + 1 < s.len() && (s[e + 1] as u32) < 128 {
            Some(s.skip(e + 2))
        } else {
            None
        },
    }
}

/// El grupo de procesos y el grupo en primer plano: el tercer y el sexto
/// campo tras el nombre, si hay al menos seis y los dos son enteros.
pub open spec fn grupos_de_stat(s: Seq<char>) -> Option<(i32, i32)> {
    match tras_el_nombre(s) {
        None => None,
        Some(resto) => {
            let campos = palabras(resto);
            if campos.len() < 6 {
                None
            } else {
                match (entero(campos[2]), entero(campos[5])) {
                    (Some(pgrp), Some(tpgid)) => Some((pgrp, tpgid)),
                    _ => None,
                }
            }
        },
    }
}

/// La posición del último `c` en `s`.
fn buscar_ultimo(s: &Vec<char>, c: char) -> (r: Option<usize>)
    ensures
        match r {
            None => ultimo_indice(s@, c) is None,
            Some(i) => i < s@.len() && ultimo_indice(s@, c) == Some(i as int),
        },
{
    let mut i = s.len();
    assert(s@.take(i as int) =~= s@);
    while i > 0
        invariant
            i <= s.len(),
            ultimo_indice(s@, c) == ultimo_indice(s@.take(i as int), c),
        decreases i,
    {
        assert(s@.take(i as int).drop_last() =~= s@.take(i - 1));
        if s[i - 1] == c {
            return Some(i - 1);
        }
        i = i - 1;
    }
    assert(s@.take(0).len() == 0);
    None
}

/// Saca el grupo de procesos y el grupo en primer plano de una línea de
/// `/proc/PID/stat`.
///
/// El nombre del ejecutable va entre paréntesis y puede tener espacios y
/// paréntesis, así que los campos se cuentan desde el **último** `)`.
pub fn parse_stat_pgrp_tpgid(stat: &str) -> (r: Option<(i32, i32)>)
    ensures
        r == grupos_de_stat(stat@),
{
    let cs = caracteres(stat);
    let buscado = buscar_ultimo(&cs, ')');
    if buscado.is_none() {
        return None;
    }
    let e = buscado.unwrap();
    assert(e < cs.len());
    if !(e + 1 < cs.len() && (cs[e + 1] as u32) < 128) {
        return None;
    }
    let mut resto: Vec<char> = Vec::new();
    let mut i = e + 2;
    while i < cs.len()
        invariant
            e + 2 <= i <= cs.len(),
            resto@ == cs@.subrange(e + 2, i as int),
        decreases cs.len() - i,
    {
        resto.push(cs[i]);
        i = i + 1;
        assert(resto@ =~= cs@.subrange(e + 2, i as int));
    }
    assert(resto@ =~= cs@.skip(e + 2));
    let campos = partir_en_palabras(&resto);
    if campos.len() < 6 {
        return None;
    }
    assert(campos.deep_view()[2] =~= campos[2]@);
    assert(campos.deep_view()[5] =~= campos[5]@);
    let pgrp = entero_de(&campos[2]);
    let tpgid = entero_de(&campos[5]);
    match (pgrp, tpgid) {
        (Some(p), Some(t)) => Some((p, t)),
        _ => None,
    }
}


/// El texto que `String::from_utf8_lossy` arma con unos bytes: las secuencias
/// UTF-8 válidas tal cual, y cada tramo inválido cambiado por U+FFFD.
pub uninterp spec fn texto_con_perdida(bytes: Seq<u8>) -> Seq<char>;

/// Llama a `String::from_utf8_lossy` y se queda con el texto.
///
/// Lo único que se afirma es que el resultado es el que esa función da para
/// esos bytes; las reglas del reemplazo no se repiten aquí.
#[verifier::external_body]
fn texto_de_bytes(bytes: &[u8]) -> (t: String)
    ensures
        t@ == texto_con_perdida(bytes@),
{
    String::from_utf8_lossy(bytes).into_owned()
}

/// Tres puntos, lo que se pone al final de un comando recortado.
pub open spec fn puntos_suspensivos() -> Seq<char> {
    seq!['.', '.', '.']
}

/// El comando a la medida de la pestaña: si pasa de `CMDLINE_MAX`
/// caracteres, los primeros `CMDLINE_MAX - 3` y tres puntos.
pub open spec fn recorte(t: Seq<char>) -> Seq<char> {
    if t.len() > CMDLINE_MAX {
        t.take(CMDLINE_MAX - 3) + puntos_suspensivos()
    } else {
        t
    }
}

/// Las partes unidas con espacios y recortadas; nada si no hay partes.
pub open spec fn comando_visible(partes: Seq<Seq<char>>) -> Option<Seq<char>> {
    if partes.len() == 0 {
        None
    } else {
        Some(recorte(unir(partes, seq![' '])))
    }
}

/// El comando visible que sale del contenido de `/proc/PID/cmdline`.
pub open spec fn comando_de_cmdline(datos: Seq<u8>) -> Option<Seq<char>> {
    if datos.len() == 0 {
        None
    } else {
        comando_visible(tramos_sin_nulos(datos).map_values(|t: Seq<u8>| texto_con_perdida(t)))
    }
}

/// Une los argumentos con espacios y recorta el resultado a
/// `CMDLINE_MAX` caracteres (contando caracteres, no bytes).
pub fn unir_y_recortar(partes: &[String]) -> (r: Option<String>)
    ensures
        r.deep_view() == comando_visible(partes.deep_view()),
{
    if partes.len() == 0 {
        return None;
    }
    let unido = unir_con_espacios(partes);
    if unido.len() > CMDLINE_MAX {
        let mut recortado: Vec<char> = Vec::new();
        let mut i: usize = 0;
        while i < CMDLINE_MAX - 3
            invariant
                i <= CMDLINE_MAX - 3,
                unido.len() > CMDLINE_MAX,
                recortado@ == unido@.take(i as int),
            decreases CMDLINE_MAX - 3 - i,
        {
            recortado.push(unido[i]);
            i = i + 1;
            assert(recortado@ =~= unido@.take(i as int));
        }
        recortado.push('.');
        recortado.push('.');
        recortado.push('.');
        assert(recortado@ =~= unido@.take(CMDLINE_MAX - 3) + puntos_suspensivos());
        Some(texto_de(recortado.as_slice()))
    } else {
        Some(texto_de(unido.as_slice()))
    }
}

/// Arma el comando visible a partir de `/proc/PID/cmdline`, que trae los
/// argumentos separados por bytes nulos.
pub fn parse_cmdline(data: &[u8]) -> (r: Option<String>)
    ensures
        r.deep_view() == comando_de_cmdline(data@),
{
    if data.len() == 0 {
        return None;
    }
    let tramos = partir_en_nulos(data);
    let ghost vistos = tramos.deep_view();
    let mut partes: Vec<String> = Vec::new();
    let n = tramos.len();
    for i in 0..n
        invariant
            n == tramos.len(),
            vistos == tramos.deep_view(),
            partes.deep_view() =~= vistos.take(i as int).map_values(
                |t: Seq<u8>| texto_con_perdida(t),
            ),
    {
        let parte = texto_de_bytes(tramos[i].as_slice());
        assert(vistos[i as int] == tramos[i as int]@);
        let ghost previas = partes.deep_view();
        let ghost nueva = parte@;
        partes.push(parte);
        assert(partes.deep_view() =~= previas.push(nueva));
        assert(vistos.take(i + 1) =~= vistos.take(i as int).push(vistos[i as int]));
        assert(vistos.take(i + 1).map_values(|t: Seq<u8>| texto_con_perdida(t)) =~= vistos.take(
            i as int,
        ).map_values(|t: Seq<u8>| texto_con_perdida(t)).push(nueva));
    }
    assert(vistos.take(n as int) =~= vistos);
    unir_y_recortar(partes.as_slice())
}


/// El comando visible nunca pasa de `CMDLINE_MAX` caracteres: uno corto pasa
/// entero, y uno largo conserva sus primeros `CMDLINE_MAX - 3` caracteres y
/// termina en tres puntos, justo en el límite.
pub proof fn ley_el_recorte_cabe(t: Seq<char>)
    ensures
        recorte(t).len() <= CMDLINE_MAX,
        t.len() <= CMDLINE_MAX ==> recorte(t) == t,
        t.len() > CMDLINE_MAX ==> recorte(t).len() == CMDLINE_MAX && recorte(t).take(
            CMDLINE_MAX - 3,
        ) == t.take(CMDLINE_MAX - 3) && recorte(t).skip(CMDLINE_MAX - 3) == puntos_suspensivos(),
{
    if t.len() > CMDLINE_MAX {
        assert(recorte(t).take(CMDLINE_MAX - 3) =~= t.take(CMDLINE_MAX - 3));
        assert(recorte(t).skip(CMDLINE_MAX - 3) =~= puntos_suspensivos());
    }
}

/// Tras el último `)`, el resto no tiene otro: ése es el último.
proof fn lema_ultimo_parentesis(antes: Seq<char>, despues: Seq<char>)
    requires
        !despues.contains(')'),
    ensures
        ultimo_indice(antes + seq![')'] + despues, ')') == Some(antes.len() as int),
    decreases despues.len(),
{
    let s = antes + seq![')'] + despues;
    if despues.len() == 0 {
        assert(s.last() == ')');
    } else {
        assert(s.last() == despues.last());
        assert(despues.drop_last().len() < despues.len());
        assert forall|i: int| 0 <= i < despues.drop_last().len() implies despues.drop_last()[i] != ')' by {
            assert(despues.drop_last()[i] == despues[i]);
        }
        lema_ultimo_parentesis(antes, despues.drop_last());
        assert(s.drop_last() =~= antes + seq![')'] + despues.drop_last());
    }
}

/// El nombre del ejecutable, con sus espacios y paréntesis, no corre los
/// campos: lo que se lee depende sólo de lo que sigue al último `)`.
pub proof fn ley_el_nombre_no_corre_los_campos(nombre: Seq<char>, despues: Seq<char>)
    requires
        !despues.contains(')'),
    ensures
        grupos_de_stat(nombre + seq![')'] + despues) == grupos_de_stat(seq![')'] + despues),
{
    let vacio: Seq<char> = seq![];
    lema_ultimo_parentesis(nombre, despues);
    lema_ultimo_parentesis(vacio, despues);
    assert(vacio + seq![')'] + despues =~= seq![')'] + despues);
    let s1 = nombre + seq![')'] + despues;
    let s2 = seq![')'] + despues;
    let e = nombre.len() as int;
    if despues.len() > 0 {
        assert(s1[e + 1] == despues[0]);
        assert(s2[1] == despues[0]);
        assert(s1.skip(e + 2) =~= despues.skip(1));
        assert(s2.skip(2) =~= despues.skip(1));
    }
}

} // verus!
