//! Qué ventana del compositor es la nuestra y en qué salida va.

use vstd::prelude::*;

use crate::texto::{caracteres, mismo_texto, texto_de};

verus! {

/// Una ventana que lista el compositor.
pub struct VistaDeVentana {
    pub id: i64,
    pub title: Option<String>,
    pub app_id: Option<String>,
    pub mapped: Option<bool>,
    pub role: Option<String>,
    pub layer: Option<String>,
    pub type_field: Option<String>,
}

/// El rectángulo de una salida (un monitor).
pub struct GeometriaDeSalida {
    pub x: i64,
    pub y: i64,
    pub width: i64,
    pub height: i64,
}

/// Una salida del compositor.
pub struct Salida {
    pub id: i64,
    pub geometry: GeometriaDeSalida,
}

/// El texto que da `str::to_lowercase`: cada carácter en su forma minúscula
/// de Unicode.
pub uninterp spec fn minusculas(s: Seq<char>) -> Seq<char>;

/// Llama a `str::to_lowercase`.
///
/// Sólo se afirma que el resultado es el que esa función da para ese texto;
/// la tabla de minúsculas de Unicode no se repite aquí.
#[verifier::external_body]
fn a_minusculas(s: &str) -> (r: String)
    ensures
        r@ == minusculas(s@),
{
    s.to_lowercase()
}

/// `-` y `_` valen como espacios.
pub open spec fn sin_guiones(c: char) -> char {
    if c == '-' || c == '_' {
        ' '
    } else {
        c
    }
}

/// Un título en minúsculas, con guiones y guiones bajos como espacios.
pub open spec fn normalizado(s: Seq<char>) -> Seq<char> {
    minusculas(s).map_values(|c: char| sin_guiones(c))
}

/// Pasa un título a minúsculas y cambia `-` y `_` por espacios.
pub fn normalize(s: &str) -> (r: String)
    ensures
        r@ == normalizado(s@),
{
    let bajo = a_minusculas(s);
    let cs = caracteres(bajo.as_str());
    let mut salida: Vec<char> = Vec::new();
    let mut i: usize = 0;
    while i < cs.len()
        invariant
            i <= cs.len(),
            cs@ == minusculas(s@),
            salida@ =~= cs@.take(i as int).map_values(|c: char| sin_guiones(c)),
        decreases cs.len() - i,
    {
        let c = cs[i];
        if c == '-' || c == '_' {
            salida.push(' ');
        } else {
            salida.push(c);
        }
        assert(cs@.take(i + 1) =~= cs@.take(i as int).push(c));
        i = i + 1;
    }
    assert(cs@.take(cs.len() as int) =~= cs@);
    texto_de(salida.as_slice())
}

/// Si `patron` aparece en `s` (`str::contains`).
pub open spec fn contiene(s: Seq<char>, patron: Seq<char>) -> bool {
    exists|i: int| 0 <= i && i + patron.len() <= s.len() && #[trigger] s.subrange(i, i + patron.len()) == patron
}

/// Si `patron` aparece en `s` a partir de la posición `i`.
fn aparece_en(s: &Vec<char>, patron: &Vec<char>, i: usize) -> (r: bool)
    requires
        i + patron.len() <= s.len(),
    ensures
        r == (s@.subrange(i as int, i + patron@.len()) == patron@),
{
    let m = patron.len();
    let mut j: usize = 0;
    while j < m
        invariant
            j <= m,
            m == patron.len(),
            i + m <= s.len(),
            forall|t: int| 0 <= t < j ==> s@[i + t] == patron@[t],
        decreases m - j,
    {
        if s[i + j] != patron[j] {
            assert(s@.subrange(i as int, i + m)[j as int] == s@[i + j]);
            return false;
        }
        j = j + 1;
    }
    assert(s@.subrange(i as int, i + m) =~= patron@);
    true
}

/// Si `patron` aparece en `s`.
pub fn contiene_exec(s: &Vec<char>, patron: &Vec<char>) -> (r: bool)
    ensures
        r == contiene(s@, patron@),
{
    if patron.len() > s.len() {
        return false;
    }
    let m = patron.len();
    let ultimo = s.len() - m;
    let mut i: usize = 0;
    while i < ultimo
        invariant
            i <= ultimo,
            m == patron.len(),
            ultimo + m == s.len(),
            forall|k: int| 0 <= k < i ==> #[trigger] s@.subrange(k, k + m) != patron@,
        decreases ultimo - i,
    {
        if aparece_en(s, patron, i) {
            return true;
        }
        i = i + 1;
    }
    let r = aparece_en(s, patron, ultimo);
    proof {
        if !r && contiene(s@, patron@) {
            let k = choose|k: int| 0 <= k && k + m <= s@.len() && #[trigger] s@.subrange(k, k + m) == patron@;
            assert(s@.subrange(k, k + m) != patron@);
        }
    }
    r
}

/// El texto de un campo opcional, vacío si no está.
pub open spec fn o_vacio(o: Option<Seq<char>>) -> Seq<char> {
    match o {
        Some(s) => s,
        None => seq![],
    }
}

/// Si un campo (ya normalizado) es el título buscado o lo contiene.
pub open spec fn campo_coincide(campo: Seq<char>, titulo: Seq<char>) -> bool {
    campo == titulo || contiene(campo, titulo)
}

/// Si la ventana es la buscada: su título, su `app-id` o su rol, normalizados,
/// son el título buscado o lo contienen.
pub open spec fn ventana_coincide(
    title: Option<Seq<char>>,
    app_id: Option<Seq<char>>,
    role: Option<Seq<char>>,
    titulo: Seq<char>,
) -> bool {
    campo_coincide(normalizado(o_vacio(title)), titulo) || campo_coincide(
        normalizado(o_vacio(app_id)),
        titulo,
    ) || campo_coincide(normalizado(o_vacio(role)), titulo)
}

fn o_vacio_exec(o: &Option<String>) -> (r: String)
    ensures
        r@ == o_vacio(o.deep_view()),
{
    match o {
        Some(s) => s.clone(),
        None => String::new(),
    }
}

fn coincide_campo(campo: &Option<String>, titulo: &Vec<char>) -> (r: bool)
    ensures
        r == campo_coincide(normalizado(o_vacio(campo.deep_view())), titulo@),
{
    let texto = normalize(o_vacio_exec(campo).as_str());
    let cs = caracteres(texto.as_str());
    let titulo_texto = texto_de(titulo.as_slice());
    mismo_texto(texto.as_str(), titulo_texto.as_str()) || contiene_exec(&cs, titulo)
}

/// Si la ventana es la buscada (`lower_title` ya normalizado).
pub fn view_matches(view: &VistaDeVentana, lower_title: &str) -> (r: bool)
    ensures
        r == ventana_coincide(
            view.title.deep_view(),
            view.app_id.deep_view(),
            view.role.deep_view(),
            lower_title@,
        ),
{
    let titulo = caracteres(lower_title);
    coincide_campo(&view.title, &titulo) || coincide_campo(&view.app_id, &titulo) || coincide_campo(
        &view.role,
        &titulo,
    )
}


/// Si la ventana `v` es la buscada.
pub open spec fn es_la_buscada(v: VistaDeVentana, titulo: Seq<char>) -> bool {
    ventana_coincide(v.title.deep_view(), v.app_id.deep_view(), v.role.deep_view(), titulo)
}

/// La primera ventana que es la buscada: su identificador y si ya está
/// mapeada (`mapped` ausente cuenta como no mapeada).
pub fn buscar_vista(vistas: &[VistaDeVentana], lower_title: &str) -> (r: Option<(u64, bool)>)
    ensures
        r is None <==> forall|i: int| 0 <= i < vistas@.len() ==> !es_la_buscada(#[trigger] vistas@[i], lower_title@),
        r matches Some((id, mapeada)) ==> exists|i: int|
            0 <= i < vistas@.len() && es_la_buscada(#[trigger] vistas@[i], lower_title@)
                && (forall|j: int| 0 <= j < i ==> !es_la_buscada(#[trigger] vistas@[j], lower_title@))
                && id == vistas@[i].id as u64 && mapeada == (vistas@[i].mapped == Some(true)),
{
    let mut i: usize = 0;
    while i < vistas.len()
        invariant
            i <= vistas@.len(),
            forall|j: int| 0 <= j < i ==> !es_la_buscada(#[trigger] vistas@[j], lower_title@),
        decreases vistas.len() - i,
    {
        let v = &vistas[i];
        if view_matches(v, lower_title) {
            let mapeada = match v.mapped {
                Some(m) => m,
                None => false,
            };
            assert(es_la_buscada(vistas@[i as int], lower_title@));
            return Some((v.id as u64, mapeada));
        }
        i = i + 1;
    }
    None
}

/// Si la salida abarca la columna `x`.
pub open spec fn abarca(o: Salida, x: int) -> bool {
    o.geometry.x <= x && x < o.geometry.x + o.geometry.width
}

/// Si sumar `x` y `width` de la salida `i` no se sale de un `i64` cada vez
/// que hace falta calcularlo: para las salidas que se miran (las anteriores no
/// abarcan `x`) y cuyo borde izquierdo no pasa de `x`.
pub open spec fn sumas_en_rango(salidas: Seq<Salida>, x: int) -> bool {
    forall|i: int|
        0 <= i < salidas.len() && (forall|j: int| 0 <= j < i ==> !abarca(#[trigger] salidas[j], x))
            && salidas[i].geometry.x <= x ==> i64::MIN <= #[trigger] salidas[i].geometry.x
            + salidas[i].geometry.width <= i64::MAX
}

/// La salida donde va la ventana: la primera que abarca la columna `x`; si
/// ninguna la abarca, la primera; ninguna si no hay salidas.
pub fn elegir_salida(salidas: &[Salida], x: i32) -> (r: Option<u64>)
    requires
        sumas_en_rango(salidas@, x as int),
    ensures
        (exists|i: int| 0 <= i < salidas@.len() && abarca(#[trigger] salidas@[i], x as int)) ==> exists|i: int|
            0 <= i < salidas@.len() && abarca(#[trigger] salidas@[i], x as int) && (forall|j: int|
                0 <= j < i ==> !abarca(#[trigger] salidas@[j], x as int)) && r == Some(
                salidas@[i].id as u64,
            ),
        (forall|i: int| 0 <= i < salidas@.len() ==> !abarca(#[trigger] salidas@[i], x as int)) ==> r == (
        if salidas@.len() > 0 {
            Some(salidas@[0].id as u64)
        } else {
            None
        }),
{
    let columna = x as i64;
    let mut i: usize = 0;
    while i < salidas.len()
        invariant
            i <= salidas@.len(),
            columna == x,
            sumas_en_rango(salidas@, x as int),
            forall|j: int| 0 <= j < i ==> !abarca(#[trigger] salidas@[j], x as int),
        decreases salidas.len() - i,
    {
        let g = &salidas[i].geometry;
        if columna >= g.x {
            assert(salidas@[i as int].geometry.x <= x);
            if columna < g.x + g.width {
                assert(abarca(salidas@[i as int], x as int));
                return Some(salidas[i].id as u64);
            }
        }
        i = i + 1;
    }
    if salidas.len() > 0 {
        Some(salidas[0].id as u64)
    } else {
        None
    }
}

/// Si la primera ventana con identificador `id` ya está mapeada.
pub open spec fn lista(vistas: Seq<VistaDeVentana>, id: u64) -> bool {
    exists|i: int|
        0 <= i < vistas.len() && (#[trigger] vistas[i]).id == id as i64 && (forall|j: int|
            0 <= j < i ==> (#[trigger] vistas[j]).id != id as i64) && vistas[i].mapped == Some(true)
}

/// Si la ventana `view_id` ya está mapeada, según la primera de la lista con
/// ese identificador.
pub fn vista_lista(vistas: &[VistaDeVentana], view_id: u64) -> (r: bool)
    ensures
        r == lista(vistas@, view_id),
{
    let buscado = view_id as i64;
    let mut i: usize = 0;
    while i < vistas.len()
        invariant
            i <= vistas@.len(),
            buscado == view_id as i64,
            forall|j: int| 0 <= j < i ==> (#[trigger] vistas@[j]).id != buscado,
        decreases vistas.len() - i,
    {
        if vistas[i].id == buscado {
            let r = match vistas[i].mapped {
                Some(m) => m,
                None => false,
            };
            proof {
                if lista(vistas@, view_id) {
                    let k = choose|k: int|
                        0 <= k < vistas@.len() && (#[trigger] vistas@[k]).id == view_id as i64 && (forall|j: int|
                            0 <= j < k ==> (#[trigger] vistas@[j]).id != view_id as i64) && vistas@[k].mapped == Some(true);
                    assert(k == i);
                }
            }
            return r;
        }
        i = i + 1;
    }
    false
}


/// Si un campo normalizado es el título buscado o lo contiene.
pub open spec fn es_o_contiene(campo: Seq<char>, titulo: Seq<char>) -> bool {
    campo == titulo || exists|i: int|
        0 <= i && i + titulo.len() <= campo.len() && #[trigger] campo.subrange(i, i + titulo.len())
            == titulo
}

/// Cada campo decide por sí solo: la ventana es la buscada en cuanto su
/// título, su `app-id` o su rol (normalizados, y vacíos si faltan) es el
/// título buscado o lo contiene, sea lo que sea que digan los otros dos; y
/// sólo entonces.
pub proof fn ley_cada_campo_decide_solo(
    title: Option<Seq<char>>,
    app_id: Option<Seq<char>>,
    role: Option<Seq<char>>,
    titulo: Seq<char>,
)
    ensures
        es_o_contiene(normalizado(o_vacio(title)), titulo) ==> ventana_coincide(
            title,
            app_id,
            role,
            titulo,
        ),
        es_o_contiene(normalizado(o_vacio(app_id)), titulo) ==> ventana_coincide(
            title,
            app_id,
            role,
            titulo,
        ),
        es_o_contiene(normalizado(o_vacio(role)), titulo) ==> ventana_coincide(
            title,
            app_id,
            role,
            titulo,
        ),
        ventana_coincide(title, app_id, role, titulo) ==> es_o_contiene(
            normalizado(o_vacio(title)),
            titulo,
        ) || es_o_contiene(normalizado(o_vacio(app_id)), titulo) || es_o_contiene(
            normalizado(o_vacio(role)),
            titulo,
        ),
{
}

} // verus!
