//! El comando de arranque que sale de un camino pasado por argumento: un `cd`
//! para un directorio, o cómo correr un guion.

use vstd::prelude::*;

use crate::shell::{entre_comillas, palabras_de_shell, partir_como_shell, shell_escape_single_quoted};
use crate::texto::{caracteres, mismo_texto, recortado, recortar, sin_final, texto_de, unir, unir_con};

verus! {

/// La extensión de un camino según `Path::extension`, como texto.
pub uninterp spec fn extension_de_ruta(ruta: Seq<char>) -> Option<Seq<char>>;

/// Llama a `Path::extension` y pasa la extensión a texto.
///
/// Sólo se afirma que el resultado es el que esa función da para ese camino;
/// cómo separa el nombre del archivo y su extensión no se repite aquí.
#[verifier::external_body]
fn extension(ruta: &str) -> (r: Option<String>)
    ensures
        r.deep_view() == extension_de_ruta(ruta@),
{
    match std::path::Path::new(ruta).extension() {
        Some(e) => match e.to_str() {
            Some(t) => Some(t.to_owned()),
            None => None,
        },
        None => None,
    }
}

/// Una letra ASCII mayúscula en minúscula; lo demás igual.
pub open spec fn minuscula_ascii(c: char) -> char {
    if 'A' <= c && c <= 'Z' {
        ((c as u32) + 32) as char
    } else {
        c
    }
}

/// `str::to_ascii_lowercase`.
pub open spec fn minusculas_ascii(s: Seq<char>) -> Seq<char> {
    s.map_values(|c: char| minuscula_ascii(c))
}

fn minusculas_ascii_exec(s: &str) -> (r: Vec<char>)
    ensures
        r@ == minusculas_ascii(s@),
{
    let cs = caracteres(s);
    let mut r: Vec<char> = Vec::new();
    let mut i: usize = 0;
    while i < cs.len()
        invariant
            i <= cs.len(),
            cs@ == s@,
            r@ =~= cs@.take(i as int).map_values(|c: char| minuscula_ascii(c)),
        decreases cs.len() - i,
    {
        let c = cs[i];
        let m = if 'A' <= c && c <= 'Z' {
            ((c as u8) + 32) as char
        } else {
            c
        };
        r.push(m);
        assert(cs@.take(i + 1) =~= cs@.take(i as int).push(c));
        i = i + 1;
    }
    assert(cs@.take(cs.len() as int) =~= cs@);
    r
}

/// Si una extensión, sin distinguir mayúsculas, es de un guion de shell.
pub open spec fn es_extension_de_guion(ext: Seq<char>) -> bool {
    let e = minusculas_ascii(ext);
    e == "sh"@ || e == "bash"@ || e == "zsh"@ || e == "ksh"@ || e == "fish"@ || e == "command"@
}

/// Si el archivo parece un guion: por su extensión, o porque empieza con
/// `#!` (los dos primeros bytes, si se pudieron leer).
pub open spec fn guion_probable(ruta: Seq<char>, primeros: Option<(u8, u8)>) -> bool {
    (match extension_de_ruta(ruta) {
        Some(e) => es_extension_de_guion(e),
        None => false,
    }) || primeros == Some((35u8, 33u8))
}

/// Si una extensión es de un guion de shell.
fn es_extension_de_guion_exec(ext: &str) -> (r: bool)
    ensures
        r == es_extension_de_guion(ext@),
{
    let e = texto_de(minusculas_ascii_exec(ext).as_slice());
    let e = e.as_str();
    mismo_texto(e, "sh") || mismo_texto(e, "bash") || mismo_texto(e, "zsh") || mismo_texto(e, "ksh")
        || mismo_texto(e, "fish") || mismo_texto(e, "command")
}

/// Si el archivo parece un guion. `primeros` son sus dos primeros bytes, si
/// tiene al menos dos y se pudieron leer.
pub fn is_probable_script(ruta: &str, primeros: Option<(u8, u8)>) -> (r: bool)
    ensures
        r == guion_probable(ruta@, primeros),
{
    let por_extension = match extension(ruta) {
        Some(e) => es_extension_de_guion_exec(e.as_str()),
        None => false,
    };
    if por_extension {
        return true;
    }
    match primeros {
        Some((a, b)) => a == 35u8 && b == 33u8,
        None => false,
    }
}

/// El intérprete que corresponde a una extensión, sin distinguir mayúsculas.
pub open spec fn interprete_de_extension(ext: Seq<char>) -> Option<Seq<char>> {
    let e = minusculas_ascii(ext);
    if e == "sh"@ || e == "command"@ {
        Some("sh"@)
    } else if e == "bash"@ {
        Some("bash"@)
    } else if e == "zsh"@ {
        Some("zsh"@)
    } else if e == "ksh"@ {
        Some("ksh"@)
    } else if e == "fish"@ {
        Some("fish"@)
    } else if e == "py"@ {
        Some("python3"@)
    } else if e == "rb"@ {
        Some("ruby"@)
    } else if e == "pl"@ {
        Some("perl"@)
    } else {
        None
    }
}

/// El intérprete que corresponde a una extensión.
pub fn interprete_para(ext: &str) -> (r: Option<String>)
    ensures
        r.deep_view() == interprete_de_extension(ext@),
{
    let e = texto_de(minusculas_ascii_exec(ext).as_slice());
    let e = e.as_str();
    if mismo_texto(e, "sh") || mismo_texto(e, "command") {
        Some("sh".to_owned())
    } else if mismo_texto(e, "bash") {
        Some("bash".to_owned())
    } else if mismo_texto(e, "zsh") {
        Some("zsh".to_owned())
    } else if mismo_texto(e, "ksh") {
        Some("ksh".to_owned())
    } else if mismo_texto(e, "fish") {
        Some("fish".to_owned())
    } else if mismo_texto(e, "py") {
        Some("python3".to_owned())
    } else if mismo_texto(e, "rb") {
        Some("ruby".to_owned())
    } else if mismo_texto(e, "pl") {
        Some("perl".to_owned())
    } else {
        None
    }
}

/// El intérprete que corresponde a la extensión de un camino.
pub open spec fn interprete_de_ruta(ruta: Seq<char>) -> Option<Seq<char>> {
    match extension_de_ruta(ruta) {
        Some(e) => interprete_de_extension(e),
        None => None,
    }
}

/// El intérprete que corresponde a la extensión del camino, si la tiene.
pub fn fallback_interpreter_from_extension(ruta: &str) -> (r: Option<String>)
    ensures
        r.deep_view() == interprete_de_ruta(ruta@),
{
    match extension(ruta) {
        Some(e) => interprete_para(e.as_str()),
        None => None,
    }
}

/// `s` sin las repeticiones iniciales de `#!` (`trim_start_matches("#!")`).
pub open spec fn sin_almohadillas(s: Seq<char>) -> Seq<char>
    decreases s.len(),
{
    if s.len() >= 2 && s[0] == '#' && s[1] == '!' {
        sin_almohadillas(s.skip(2))
    } else {
        s
    }
}

/// Si un carácter es un fin de línea (`\n` o `\r`).
pub open spec fn es_fin_de_linea(c: char) -> bool {
    c == '\n' || c == '\r'
}

/// El intérprete que declara la primera línea de un guion: lo que sigue a
/// `#!`, sin fin de línea ni espacios a los lados, partido como en la shell;
/// nada si la línea no empieza con `#!`, si no queda nada, si no se puede
/// partir o si no da ninguna palabra.
pub open spec fn tokens_de_shebang(linea: Seq<char>) -> Option<Seq<Seq<char>>> {
    if !(linea.len() >= 2 && linea[0] == '#' && linea[1] == '!') {
        None
    } else {
        let shebang = recortado(
            sin_almohadillas(sin_final(linea, |c: char| es_fin_de_linea(c))),
        );
        if shebang.len() == 0 {
            None
        } else {
            match palabras_de_shell(shebang) {
                None => None,
                Some(palabras) => if palabras.len() == 0 {
                    None
                } else {
                    Some(palabras)
                },
            }
        }
    }
}

proof fn lema_sin_final_paso(s: Seq<char>, b: int)
    requires
        0 < b <= s.len(),
        es_fin_de_linea(s[b - 1]),
    ensures
        sin_final(s.take(b), |c: char| es_fin_de_linea(c)) == sin_final(
            s.take(b - 1),
            |c: char| es_fin_de_linea(c),
        ),
{
    assert(s.take(b).drop_last() =~= s.take(b - 1));
}

/// Lee el intérprete de la primera línea de un guion (la línea tal como se
/// leyó, con su fin de línea si lo tiene).
pub fn read_shebang_tokens(primera_linea: &str) -> (r: Option<Vec<String>>)
    ensures
        r.deep_view() == tokens_de_shebang(primera_linea@),
{
    let cs = caracteres(primera_linea);
    if !(cs.len() >= 2 && cs[0] == '#' && cs[1] == '!') {
        return None;
    }
    let mut b: usize = cs.len();
    assert(cs@.take(b as int) =~= cs@);
    while b > 0 && (cs[b - 1] == '\n' || cs[b - 1] == '\r')
        invariant
            b <= cs.len(),
            cs@ == primera_linea@,
            sin_final(cs@, |c: char| es_fin_de_linea(c)) == sin_final(
                cs@.take(b as int),
                |c: char| es_fin_de_linea(c),
            ),
        decreases b,
    {
        proof {
            lema_sin_final_paso(cs@, b as int);
        }
        b = b - 1;
    }
    let ghost sin_fin = cs@.take(b as int);
    assert(sin_final(sin_fin, |c: char| es_fin_de_linea(c)) == sin_fin) by {
        if sin_fin.len() > 0 {
            assert(sin_fin.last() == cs@[b - 1]);
        }
    }
    let mut a: usize = 0;
    assert(sin_fin.subrange(0, b as int) =~= sin_fin);
    while b - a >= 2 && cs[a] == '#' && cs[a + 1] == '!'
        invariant
            a <= b,
            b <= cs.len(),
            sin_fin == cs@.take(b as int),
            sin_almohadillas(sin_fin) == sin_almohadillas(cs@.subrange(a as int, b as int)),
        decreases b - a,
    {
        assert(cs@.subrange(a as int, b as int).skip(2) =~= cs@.subrange(a + 2, b as int));
        a = a + 2;
    }
    let ghost resto = cs@.subrange(a as int, b as int);
    assert(sin_almohadillas(resto) == resto);
    let mut medio: Vec<char> = Vec::new();
    let mut i: usize = a;
    while i < b
        invariant
            a <= i <= b,
            b <= cs.len(),
            medio@ == cs@.subrange(a as int, i as int),
        decreases b - i,
    {
        medio.push(cs[i]);
        i = i + 1;
        assert(medio@ =~= cs@.subrange(a as int, i as int));
    }
    let shebang = recortar(&medio);
    if shebang.len() == 0 {
        return None;
    }
    let texto = texto_de(shebang.as_slice());
    match partir_como_shell(texto.as_str()) {
        None => None,
        Some(palabras) => if palabras.len() == 0 {
            None
        } else {
            Some(palabras)
        },
    }
}

/// Cómo se corre un guion: con el intérprete de su `#!` (cada palabra entre
/// comillas), directamente si es ejecutable, o con el intérprete de su
/// extensión; el camino va entre comillas y la línea termina en `\n`.
pub open spec fn comando_de_guion(
    ruta: Seq<char>,
    tokens: Option<Seq<Seq<char>>>,
    ejecutable: bool,
) -> Option<Seq<char>> {
    let archivo = entre_comillas(ruta);
    match tokens {
        Some(t) => Some(
            unir(t.map_values(|p: Seq<char>| entre_comillas(p)), " "@) + " "@ + archivo + "\n"@,
        ),
        None => if ejecutable {
            Some(archivo + "\n"@)
        } else {
            match interprete_de_ruta(ruta) {
                Some(i) => Some(i + " "@ + archivo + "\n"@),
                None => None,
            }
        },
    }
}

/// La línea que corre el guion `ruta`. `tokens_shebang` es lo que declara su
/// `#!` y `ejecutable` si tiene permiso de ejecución.
pub fn build_script_command(
    ruta: &str,
    tokens_shebang: Option<Vec<String>>,
    ejecutable: bool,
) -> (r: Option<String>)
    ensures
        r.deep_view() == comando_de_guion(ruta@, tokens_shebang.deep_view(), ejecutable),
{
    let archivo = shell_escape_single_quoted(ruta);
    match tokens_shebang {
        Some(tokens) => {
            let ghost vistos = tokens.deep_view();
            let mut citados: Vec<String> = Vec::new();
            let mut i: usize = 0;
            while i < tokens.len()
                invariant
                    i <= tokens.len(),
                    vistos == tokens.deep_view(),
                    citados.deep_view() =~= vistos.take(i as int).map_values(
                        |p: Seq<char>| entre_comillas(p),
                    ),
                decreases tokens.len() - i,
            {
                let ghost previo = citados.deep_view();
                let citado = shell_escape_single_quoted(tokens[i].as_str());
                assert(vistos[i as int] == tokens[i as int]@);
                citados.push(citado);
                assert(citados.deep_view() =~= previo.push(entre_comillas(vistos[i as int])));
                assert(vistos.take(i + 1) =~= vistos.take(i as int).push(vistos[i as int]));
                i = i + 1;
            }
            assert(vistos.take(tokens.len() as int) =~= vistos);
            let sep = caracteres(" ");
            let unidos = unir_con(citados.as_slice(), &sep);
            let mut r = texto_de(unidos.as_slice());
            r.append(" ");
            r.append(archivo.as_str());
            r.append("\n");
            Some(r)
        },
        None => {
            if ejecutable {
                let mut r = archivo;
                r.append("\n");
                return Some(r);
            }
            match fallback_interpreter_from_extension(ruta) {
                Some(interprete) => {
                    let mut r = interprete;
                    r.append(" ");
                    r.append(archivo.as_str());
                    r.append("\n");
                    Some(r)
                },
                None => None,
            }
        },
    }
}

/// La línea que entra al directorio `ruta`: `cd`, el camino entre comillas y
/// `\n`.
pub fn comando_para_directorio(ruta: &str) -> (r: String)
    ensures
        r@ == "cd "@ + entre_comillas(ruta@) + "\n"@,
{
    let mut r = "cd ".to_owned();
    r.append(shell_escape_single_quoted(ruta).as_str());
    r.append("\n");
    r
}


/// Un guion con `#!` se corre siempre con el intérprete que declara: la
/// línea es cada palabra del `#!` entre comillas, unidas por espacios, un
/// espacio, el camino entre comillas y `\n`, tenga o no permiso de ejecución
/// y sea cual sea su extensión. El permiso y la extensión sólo deciden cuando
/// no hay `#!`.
pub proof fn ley_el_shebang_manda(ruta: Seq<char>, tokens: Seq<Seq<char>>, ejecutable: bool)
    ensures
        comando_de_guion(ruta, Some(tokens), ejecutable) == Some(
            unir(tokens.map_values(|p: Seq<char>| entre_comillas(p)), " "@) + " "@ + entre_comillas(
                ruta,
            ) + "\n"@,
        ),
        comando_de_guion(ruta, Some(tokens), true) == comando_de_guion(ruta, Some(tokens), false),
{
}

/// Sin `#!`: un guion ejecutable se corre por su camino; uno que no lo es,
/// con el intérprete de su extensión, y si no hay intérprete, no se corre.
pub proof fn ley_sin_shebang(ruta: Seq<char>)
    ensures
        comando_de_guion(ruta, None, true) == Some(entre_comillas(ruta) + "\n"@),
        interprete_de_ruta(ruta) matches Some(i) ==> comando_de_guion(ruta, None, false) == Some(
            i + " "@ + entre_comillas(ruta) + "\n"@,
        ),
        interprete_de_ruta(ruta) is None ==> comando_de_guion(ruta, None, false) is None,
{
}

/// Un archivo cuya extensión, en minúsculas ASCII, es `sh`, `bash`, `zsh`,
/// `ksh`, `fish` o `command` es un guion, empiece como empiece; y uno que
/// empieza con `#!` lo es, tenga la extensión que tenga.
pub proof fn ley_extensiones_de_guion(ruta: Seq<char>, primeros: Option<(u8, u8)>)
    ensures
        (extension_de_ruta(ruta) matches Some(e) && {
            let m = minusculas_ascii(e);
            m == "sh"@ || m == "bash"@ || m == "zsh"@ || m == "ksh"@ || m == "fish"@ || m
                == "command"@
        }) ==> guion_probable(ruta, primeros),
        guion_probable(ruta, Some((35u8, 33u8))),
{
}

/// El intérprete de cada extensión (sin distinguir mayúsculas) es el que la
/// extensión nombra: `bash` corre con `bash`, `zsh` con `zsh`, `ksh` con
/// `ksh`, `fish` con `fish`, `sh` y `command` con `sh`, `py` con `python3`,
/// `rb` con `ruby` y `pl` con `perl`.
pub proof fn ley_cada_extension_su_interprete(e: Seq<char>)
    ensures
        minusculas_ascii(e) == "bash"@ ==> interprete_de_extension(e) == Some("bash"@),
        minusculas_ascii(e) == "zsh"@ ==> interprete_de_extension(e) == Some("zsh"@),
        minusculas_ascii(e) == "ksh"@ ==> interprete_de_extension(e) == Some("ksh"@),
        minusculas_ascii(e) == "fish"@ ==> interprete_de_extension(e) == Some("fish"@),
        minusculas_ascii(e) == "sh"@ ==> interprete_de_extension(e) == Some("sh"@),
        minusculas_ascii(e) == "command"@ ==> interprete_de_extension(e) == Some("sh"@),
        minusculas_ascii(e) == "py"@ ==> interprete_de_extension(e) == Some("python3"@),
        minusculas_ascii(e) == "rb"@ ==> interprete_de_extension(e) == Some("ruby"@),
        minusculas_ascii(e) == "pl"@ ==> interprete_de_extension(e) == Some("perl"@),
{
    reveal_strlit("sh");
    reveal_strlit("command");
    reveal_strlit("bash");
    reveal_strlit("zsh");
    reveal_strlit("ksh");
    reveal_strlit("fish");
    reveal_strlit("py");
    reveal_strlit("rb");
    reveal_strlit("pl");
    assert("py"@[0] != "sh"@[0]);
    assert("rb"@[0] != "sh"@[0]);
    assert("rb"@[0] != "py"@[0]);
    assert("pl"@[1] != "sh"@[1]);
    assert("pl"@[1] != "py"@[1]);
    assert("pl"@[0] != "rb"@[0]);
    assert("zsh"@[0] != "ksh"@[0]);
}

/// Lo mismo visto desde el camino: el intérprete de un camino es el de su
/// extensión.
pub proof fn ley_interprete_de_la_ruta(ruta: Seq<char>, e: Seq<char>)
    requires
        extension_de_ruta(ruta) == Some(e),
    ensures
        interprete_de_ruta(ruta) == interprete_de_extension(e),
        minusculas_ascii(e) == "bash"@ ==> comando_de_guion(ruta, None, false) == Some(
            "bash"@ + " "@ + entre_comillas(ruta) + "\n"@,
        ),
{
    ley_cada_extension_su_interprete(e);
}

} // verus!
