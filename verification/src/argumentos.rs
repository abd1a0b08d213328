//! Qué pidió la línea de comandos.
//!
//! `-e`, `--command` y `--` marcan dónde empieza el programa a correr. Lo que
//! va después de la marca es del programa, nunca una opción de la terminal:
//! `-e algo --overlay` corre `algo --overlay` y no abre la ventana
//! desplegable. Un solo token con espacios (`-e "ls -la"`) se parte con las
//! reglas de la shell.

use vstd::prelude::*;

use crate::shell::{palabras_de_shell, partir_como_shell};
use crate::texto::{caracteres, es_espacio, es_espacio_exec};

verus! {

/// Lo que la línea de comandos pidió.
#[derive(Debug, Default, PartialEq, Eq)]
pub struct Invocacion {
    /// La ventana desplegable.
    pub overlay: bool,
    /// El programa a correr, ya separado en argumentos. `None` es la shell de
    /// siempre.
    pub comando: Option<Vec<String>>,
}

/// `-e`
pub open spec fn marca_corta() -> Seq<char> {
    seq!['-', 'e']
}

/// `--command`
pub open spec fn marca_larga() -> Seq<char> {
    seq!['-', '-', 'c', 'o', 'm', 'm', 'a', 'n', 'd']
}

/// `--`
pub open spec fn marca_doble() -> Seq<char> {
    seq!['-', '-']
}

/// `--overlay`
pub open spec fn opcion_overlay() -> Seq<char> {
    seq!['-', '-', 'o', 'v', 'e', 'r', 'l', 'a', 'y']
}

/// Si un argumento marca dónde empieza el programa.
pub open spec fn es_marca(a: Seq<char>) -> bool {
    a == marca_corta() || a == marca_larga() || a == marca_doble()
}

/// La posición de la primera marca.
pub open spec fn primera_marca(args: Seq<Seq<char>>) -> Option<int>
    decreases args.len(),
{
    if args.len() == 0 {
        None
    } else {
        match primera_marca(args.drop_last()) {
            Some(p) => Some(p),
            None => if es_marca(args.last()) {
                Some(args.len() - 1)
            } else {
                None
            },
        }
    }
}

/// Si entre los argumentos está `--overlay`.
pub open spec fn nombra_overlay(args: Seq<Seq<char>>) -> bool {
    exists|i: int| 0 <= i < args.len() && #[trigger] args[i] == opcion_overlay()
}

/// Si el texto tiene algún espacio (`char::is_whitespace`).
pub open spec fn tiene_espacio(s: Seq<char>) -> bool {
    exists|i: int| 0 <= i < s.len() && es_espacio(#[trigger] s[i])
}

/// Un programa con sus argumentos, si hay programa y su nombre no es vacío.
pub open spec fn programa_valido(argv: Seq<Seq<char>>) -> Option<Seq<Seq<char>>> {
    if argv.len() == 0 || argv[0].len() == 0 {
        None
    } else {
        Some(argv)
    }
}

/// El programa que sigue a la marca: nada si no hay nada; un solo token con
/// espacios se parte como en la shell; varios tokens van tal cual.
pub open spec fn comando_tras_marca(resto: Seq<Seq<char>>) -> Option<Seq<Seq<char>>> {
    if resto.len() == 0 {
        None
    } else if resto.len() == 1 && tiene_espacio(resto[0]) {
        match palabras_de_shell(resto[0]) {
            None => None,
            Some(argv) => programa_valido(argv),
        }
    } else {
        programa_valido(resto)
    }
}

/// Si la línea pide la ventana desplegable: `--overlay` sin marca alguna.
pub open spec fn overlay_pedido(args: Seq<Seq<char>>) -> bool {
    primera_marca(args) is None && nombra_overlay(args)
}

/// El programa que pide la línea: lo que sigue a la primera marca.
pub open spec fn comando_pedido(args: Seq<Seq<char>>) -> Option<Seq<Seq<char>>> {
    match primera_marca(args) {
        None => None,
        Some(p) => comando_tras_marca(args.skip(p + 1)),
    }
}

/// Si una marca encontrada en un prefijo sigue siendo la primera en el todo.
proof fn lema_marca_en_prefijo(args: Seq<Seq<char>>, k: int)
    requires
        0 <= k <= args.len(),
        primera_marca(args.take(k)) is Some,
    ensures
        primera_marca(args) == primera_marca(args.take(k)),
    decreases args.len() - k,
{
    if k < args.len() {
        assert(args.take(k + 1).drop_last() =~= args.take(k));
        lema_marca_en_prefijo(args, k + 1);
    } else {
        assert(args.take(k) =~= args);
    }
}

/// Si los caracteres son exactamente los de `esperado`.
fn iguales(cs: &Vec<char>, esperado: &[char]) -> (r: bool)
    ensures
        r == (cs@ == esperado@),
{
    if cs.len() != esperado.len() {
        return false;
    }
    let mut i: usize = 0;
    while i < cs.len()
        invariant
            i <= cs.len(),
            cs.len() == esperado.len(),
            forall|j: int| 0 <= j < i ==> cs@[j] == esperado@[j],
        decreases cs.len() - i,
    {
        if cs[i] != esperado[i] {
            return false;
        }
        i = i + 1;
    }
    assert(cs@ =~= esperado@);
    true
}

fn es_marca_exec(cs: &Vec<char>) -> (r: bool)
    ensures
        r == es_marca(cs@),
{
    let corta = ['-', 'e'];
    let larga = ['-', '-', 'c', 'o', 'm', 'm', 'a', 'n', 'd'];
    let doble = ['-', '-'];
    assert(corta@ =~= marca_corta());
    assert(larga@ =~= marca_larga());
    assert(doble@ =~= marca_doble());
    iguales(cs, &corta) || iguales(cs, &larga) || iguales(cs, &doble)
}

fn es_overlay_exec(cs: &Vec<char>) -> (r: bool)
    ensures
        r == (cs@ == opcion_overlay()),
{
    let overlay = ['-', '-', 'o', 'v', 'e', 'r', 'l', 'a', 'y'];
    assert(overlay@ =~= opcion_overlay());
    iguales(cs, &overlay)
}

/// Si el texto tiene algún espacio.
fn tiene_espacio_exec(s: &str) -> (r: bool)
    ensures
        r == tiene_espacio(s@),
{
    let cs = caracteres(s);
    let mut i: usize = 0;
    while i < cs.len()
        invariant
            i <= cs.len(),
            cs@ == s@,
            forall|j: int| 0 <= j < i ==> !es_espacio(#[trigger] cs@[j]),
        decreases cs.len() - i,
    {
        if es_espacio_exec(cs[i]) {
            return true;
        }
        i = i + 1;
    }
    false
}

/// Una copia de los textos.
fn copiar(textos: &[String]) -> (r: Vec<String>)
    ensures
        r.deep_view() == textos.deep_view(),
{
    let mut r: Vec<String> = Vec::new();
    let mut i: usize = 0;
    while i < textos.len()
        invariant
            i <= textos.len(),
            r.deep_view() =~= textos.deep_view().take(i as int),
        decreases textos.len() - i,
    {
        let ghost previo = r.deep_view();
        r.push(textos[i].clone());
        assert(r.deep_view() =~= previo.push(textos[i as int]@));
        i = i + 1;
    }
    assert(textos.deep_view().take(textos.len() as int) =~= textos.deep_view());
    r
}

/// El programa con sus argumentos, si hay programa y su nombre no es vacío:
/// un programa vacío no se puede ejecutar.
pub fn programa_de(argv: Vec<String>) -> (r: Option<Vec<String>>)
    ensures
        r.deep_view() == programa_valido(argv.deep_view()),
{
    if argv.len() == 0 {
        return None;
    }
    assert(argv.deep_view()[0] == argv[0]@);
    if argv[0].as_str().is_empty() {
        return None;
    }
    Some(argv)
}

/// El programa que sigue a la marca.
fn comando_de(resto: &[String]) -> (r: Option<Vec<String>>)
    ensures
        r.deep_view() == comando_tras_marca(resto.deep_view()),
{
    if resto.len() == 0 {
        return None;
    }
    assert(resto.deep_view()[0] == resto[0]@);
    if resto.len() == 1 && tiene_espacio_exec(resto[0].as_str()) {
        match partir_como_shell(resto[0].as_str()) {
            None => None,
            Some(argv) => programa_de(argv),
        }
    } else {
        programa_de(copiar(resto))
    }
}

/// Lee la línea de comandos, sin el nombre del programa.
///
/// Lo que va después de la primera marca es el programa; sin marca, sólo se
/// mira si está `--overlay`. Con un comando, la ventana es común: un
/// `--overlay` anterior no sobrevive.
pub fn leer(args: &[String]) -> (r: Invocacion)
    ensures
        r.overlay == overlay_pedido(args.deep_view()),
        r.comando.deep_view() == comando_pedido(args.deep_view()),
{
    let ghost todos = args.deep_view();
    let mut overlay = false;
    let mut i: usize = 0;
    while i < args.len()
        invariant
            i <= args.len(),
            todos == args.deep_view(),
            primera_marca(todos.take(i as int)) is None,
            overlay == nombra_overlay(todos.take(i as int)),
        decreases args.len() - i,
    {
        let cs = caracteres(args[i].as_str());
        assert(todos[i as int] == cs@);
        let ghost t1 = todos.take(i + 1);
        assert(t1.drop_last() =~= todos.take(i as int));
        if es_marca_exec(&cs) {
            proof {
                lema_marca_en_prefijo(todos, i + 1);
            }
            let mut resto: Vec<String> = Vec::new();
            let mut j: usize = i + 1;
            while j < args.len()
                invariant
                    i + 1 <= j <= args.len(),
                    todos == args.deep_view(),
                    resto.deep_view() =~= todos.subrange(i + 1, j as int),
                decreases args.len() - j,
            {
                let ghost previo = resto.deep_view();
                resto.push(args[j].clone());
                assert(resto.deep_view() =~= previo.push(todos[j as int]));
                j = j + 1;
            }
            assert(todos.subrange(i + 1, args.len() as int) =~= todos.skip(i + 1));
            return Invocacion { overlay: false, comando: comando_de(resto.as_slice()) };
        }
        if es_overlay_exec(&cs) {
            overlay = true;
            assert(t1[i as int] == opcion_overlay());
        }
        proof {
            if nombra_overlay(t1) && !(cs@ == opcion_overlay()) {
                let k = choose|k: int| 0 <= k < t1.len() && #[trigger] t1[k] == opcion_overlay();
                assert(todos.take(i as int)[k] == opcion_overlay());
            }
            if nombra_overlay(todos.take(i as int)) {
                let k = choose|k: int|
                    0 <= k < todos.take(i as int).len() && #[trigger] todos.take(i as int)[k]
                        == opcion_overlay();
                assert(t1[k] == opcion_overlay());
            }
        }
        i = i + 1;
    }
    assert(todos.take(args.len() as int) =~= todos);
    Invocacion { overlay, comando: None }
}


/// El camino que da `Path::join`: `nombre` agregado a `base` como un
/// componente más.
pub uninterp spec fn ruta_unida(base: Seq<char>, nombre: Seq<char>) -> Seq<char>;

/// Llama a `Path::join` sobre dos textos y devuelve el camino como texto.
///
/// Sólo se afirma que el resultado es el que esa función da para esos dos
/// textos; cuándo agrega una barra no se repite aquí.
#[verifier::external_body]
fn unir_ruta(base: &str, nombre: &str) -> (r: String)
    ensures
        r@ == ruta_unida(base@, nombre@),
{
    std::path::Path::new(base).join(nombre).to_string_lossy().into_owned()
}

/// Si el texto tiene una barra.
pub open spec fn tiene_barra(s: Seq<char>) -> bool {
    exists|i: int| 0 <= i < s.len() && #[trigger] s[i] == '/'
}

/// Los caminos donde se busca el programa, en orden: con una barra es un
/// camino y el PATH no interviene; sin barra, el programa en cada directorio
/// del PATH.
pub open spec fn caminos_a_probar(programa: Seq<char>, rutas: Seq<Seq<char>>) -> Seq<Seq<char>> {
    if tiene_barra(programa) {
        seq![programa]
    } else {
        rutas.map_values(|ruta: Seq<char>| ruta_unida(ruta, programa))
    }
}

/// Los caminos donde se busca el programa, en el orden en que se prueban.
pub fn candidatos(programa: &str, rutas: &[String]) -> (r: Vec<String>)
    ensures
        r.deep_view() == caminos_a_probar(programa@, rutas.deep_view()),
{
    let cs = caracteres(programa);
    let mut i: usize = 0;
    while i < cs.len()
        invariant
            i <= cs.len(),
            cs@ == programa@,
            forall|j: int| 0 <= j < i ==> #[trigger] cs@[j] != '/',
        decreases cs.len() - i,
    {
        if cs[i] == '/' {
            let mut unico: Vec<String> = Vec::new();
            unico.push(programa.to_owned());
            assert(unico.deep_view() =~= seq![programa@]);
            return unico;
        }
        i = i + 1;
    }
    let ghost todas = rutas.deep_view();
    let mut r: Vec<String> = Vec::new();
    let mut j: usize = 0;
    while j < rutas.len()
        invariant
            j <= rutas.len(),
            todas == rutas.deep_view(),
            !tiene_barra(programa@),
            r.deep_view() =~= todas.take(j as int).map_values(
                |ruta: Seq<char>| ruta_unida(ruta, programa@),
            ),
        decreases rutas.len() - j,
    {
        let ghost previo = r.deep_view();
        let camino = unir_ruta(rutas[j].as_str(), programa);
        assert(todas[j as int] == rutas[j as int]@);
        r.push(camino);
        assert(r.deep_view() =~= previo.push(ruta_unida(todas[j as int], programa@)));
        assert(todas.take(j + 1) =~= todas.take(j as int).push(todas[j as int]));
        j = j + 1;
    }
    assert(todas.take(rutas.len() as int) =~= todas);
    r
}

/// Si el programa existe y se puede ejecutar: si alguno de sus caminos
/// candidatos lo es, probándolos en orden y parando en el primero que sirve.
///
/// `es_ejecutable` mira el disco; lo que conteste sobre cada camino decide.
pub fn esta_disponible<F: Fn(&str) -> bool>(programa: &str, rutas: &[String], es_ejecutable: F) -> (r: bool)
    requires
        forall|p: &str| es_ejecutable.requires((p,)),
    ensures
        r ==> exists|p: &str|
            caminos_a_probar(programa@, rutas.deep_view()).contains(p@)
                && #[trigger] es_ejecutable.ensures((p,), true),
        !r ==> forall|c: Seq<char>|
            #[trigger] caminos_a_probar(programa@, rutas.deep_view()).contains(c) ==> exists|p: &str|
                p@ == c && #[trigger] es_ejecutable.ensures((p,), false),
{
    let caminos = candidatos(programa, rutas);
    let ghost todos = caminos.deep_view();
    let mut i: usize = 0;
    while i < caminos.len()
        invariant
            i <= caminos.len(),
            todos == caminos.deep_view(),
            todos == caminos_a_probar(programa@, rutas.deep_view()),
            forall|p: &str| es_ejecutable.requires((p,)),
            forall|k: int|
                #![trigger todos[k]]
                0 <= k < i ==> exists|p: &str|
                    p@ == todos[k] && #[trigger] es_ejecutable.ensures((p,), false),
        decreases caminos.len() - i,
    {
        let camino = caminos[i].as_str();
        assert(camino@ == todos[i as int]);
        let sirve = es_ejecutable(camino);
        if sirve {
            assert(todos.contains(camino@));
            return true;
        }
        assert(es_ejecutable.ensures((camino,), false));
        i = i + 1;
    }
    assert forall|c: Seq<char>| #[trigger] todos.contains(c) implies exists|p: &str|
        p@ == c && #[trigger] es_ejecutable.ensures((p,), false) by {
        let k = choose|k: int| 0 <= k < todos.len() && todos[k] == c;
        assert(todos[k] == c);
    }
    false
}


/// Si alguno de los argumentos es `--overlay`: la instancia que ya corre
/// muestra la ventana desplegable cuando otra la pide así.
pub fn pide_overlay(argv: &[String]) -> (r: bool)
    ensures
        r == nombra_overlay(argv.deep_view()),
{
    let ghost todos = argv.deep_view();
    let mut i: usize = 0;
    while i < argv.len()
        invariant
            i <= argv.len(),
            todos == argv.deep_view(),
            forall|j: int| 0 <= j < i ==> #[trigger] todos[j] != opcion_overlay(),
        decreases argv.len() - i,
    {
        let cs = caracteres(argv[i].as_str());
        assert(todos[i as int] == cs@);
        if es_overlay_exec(&cs) {
            return true;
        }
        i = i + 1;
    }
    false
}

/// Sin marcas, `primera_marca` no encuentra nada.
proof fn lema_sin_marcas(args: Seq<Seq<char>>)
    requires
        forall|i: int| 0 <= i < args.len() ==> !es_marca(#[trigger] args[i]),
    ensures
        primera_marca(args) is None,
    decreases args.len(),
{
    if args.len() > 0 {
        lema_sin_marcas(args.drop_last());
    }
}

/// Con un prefijo sin marcas, la primera marca es la que sigue al prefijo.
proof fn lema_marca_tras_prefijo(previos: Seq<Seq<char>>, marca: Seq<char>, resto: Seq<Seq<char>>)
    requires
        forall|i: int| 0 <= i < previos.len() ==> !es_marca(#[trigger] previos[i]),
        es_marca(marca),
    ensures
        primera_marca(previos + seq![marca] + resto) == Some(previos.len() as int),
{
    let todos = previos + seq![marca] + resto;
    let k: int = previos.len() as int + 1;
    assert(todos.take(k).drop_last() =~= previos);
    lema_sin_marcas(previos);
    assert(todos.take(k).last() == marca);
    assert(primera_marca(todos.take(k)) == Some(previos.len() as int));
    lema_marca_en_prefijo(todos, k);
}

/// Lo que va después de la marca es del programa, nunca una opción de la
/// terminal: con una marca no se abre la desplegable (aunque antes o después
/// diga `--overlay`), y el programa es exactamente lo que sigue a la marca,
/// sin importar lo que la precede.
pub proof fn ley_tras_la_marca_nada_es_nuestro(
    previos: Seq<Seq<char>>,
    marca: Seq<char>,
    resto: Seq<Seq<char>>,
)
    requires
        forall|i: int| 0 <= i < previos.len() ==> !es_marca(#[trigger] previos[i]),
        es_marca(marca),
    ensures
        !overlay_pedido(previos + seq![marca] + resto),
        comando_pedido(previos + seq![marca] + resto) == comando_tras_marca(resto),
{
    lema_marca_tras_prefijo(previos, marca, resto);
    assert((previos + seq![marca] + resto).skip(previos.len() as int + 1) =~= resto);
}

/// `-e`, `--command` y `--` valen lo mismo.
pub proof fn ley_las_marcas_valen_lo_mismo(m1: Seq<char>, m2: Seq<char>, resto: Seq<Seq<char>>)
    requires
        es_marca(m1),
        es_marca(m2),
    ensures
        comando_pedido(seq![m1] + resto) == comando_pedido(seq![m2] + resto),
        overlay_pedido(seq![m1] + resto) == overlay_pedido(seq![m2] + resto),
{
    let vacio: Seq<Seq<char>> = seq![];
    assert(vacio + seq![m1] + resto =~= seq![m1] + resto);
    assert(vacio + seq![m2] + resto =~= seq![m2] + resto);
    ley_tras_la_marca_nada_es_nuestro(vacio, m1, resto);
    ley_tras_la_marca_nada_es_nuestro(vacio, m2, resto);
}

/// Sin marca no hay programa: se abre la shell de siempre, y la desplegable
/// sólo si algún argumento es `--overlay` (un camino suelto no es un
/// comando).
pub proof fn ley_sin_marca_no_hay_programa(args: Seq<Seq<char>>)
    requires
        forall|i: int| 0 <= i < args.len() ==> !es_marca(#[trigger] args[i]),
    ensures
        comando_pedido(args) is None,
        overlay_pedido(args) == nombra_overlay(args),
{
    lema_sin_marcas(args);
}

/// Varios tokens tras la marca van tal cual, uno por argumento; un solo token
/// sin espacios es el programa entero.
pub proof fn ley_los_tokens_van_tal_cual(resto: Seq<Seq<char>>)
    requires
        resto.len() >= 2 || (resto.len() == 1 && !tiene_espacio(resto[0])),
        resto[0].len() > 0,
    ensures
        comando_tras_marca(resto) == Some(resto),
{
}

/// Un comando nunca es vacío ni tiene un programa de nombre vacío.
pub proof fn ley_ningun_programa_vacio(args: Seq<Seq<char>>)
    ensures
        comando_pedido(args) matches Some(argv) ==> argv.len() > 0 && argv[0].len() > 0,
{
}

/// Con una barra, el programa es un camino y los directorios del PATH no
/// intervienen.
pub proof fn ley_con_barra_no_se_mira_el_path(
    programa: Seq<char>,
    rutas1: Seq<Seq<char>>,
    rutas2: Seq<Seq<char>>,
)
    requires
        tiene_barra(programa),
    ensures
        caminos_a_probar(programa, rutas1) == seq![programa],
        caminos_a_probar(programa, rutas1) == caminos_a_probar(programa, rutas2),
{
}

} // verus!
