//! Herramientas de texto sobre secuencias de caracteres.

use vstd::prelude::*;

verus! {

/// `char::is_whitespace`: la propiedad `White_Space` de Unicode.
pub open spec fn es_espacio(c: char) -> bool {
    ||| ('\u{9}' <= c && c <= '\u{d}')
    ||| c == ' '
    ||| c == '\u{85}'
    ||| c == '\u{a0}'
    ||| c == '\u{1680}'
    ||| ('\u{2000}' <= c && c <= '\u{200a}')
    ||| c == '\u{2028}'
    ||| c == '\u{2029}'
    ||| c == '\u{202f}'
    ||| c == '\u{205f}'
    ||| c == '\u{3000}'
}

/// Si `c` es un espacio en el sentido de `char::is_whitespace`.
pub fn es_espacio_exec(c: char) -> (r: bool)
    ensures
        r == es_espacio(c),
{
    ('\u{9}' <= c && c <= '\u{d}') || c == ' ' || c == '\u{85}' || c == '\u{a0}' || c
        == '\u{1680}' || ('\u{2000}' <= c && c <= '\u{200a}') || c == '\u{2028}' || c
        == '\u{2029}' || c == '\u{202f}' || c == '\u{205f}' || c == '\u{3000}'
}

/// Los caracteres de un texto, en orden.
pub fn caracteres(s: &str) -> (v: Vec<char>)
    ensures
        v@ == s@,
{
    broadcast use vstd::string::group_string_axioms;
    let mut v: Vec<char> = Vec::new();
    for c in it: s.chars()
        invariant
            it.seq() == s@,
            v@ == it.seq().take(it.index() as int),
    {
        v.push(c);
    }
    v
}


/// Los tramos máximos de `s` sin separadores, en orden: lo que dan
/// `split(sep).filter(no vacío)` y `split_whitespace`.
///
/// Se arma leyendo de izquierda a derecha: un separador cierra el tramo
/// abierto, y cualquier otro elemento extiende el tramo abierto o abre uno.
pub open spec fn trozos<T>(s: Seq<T>, sep: spec_fn(T) -> bool) -> Seq<Seq<T>>
    decreases s.len(),
{
    if s.len() == 0 {
        seq![]
    } else {
        let previos = trozos(s.drop_last(), sep);
        let c = s.last();
        if sep(c) {
            previos
        } else if s.len() >= 2 && !sep(s[s.len() - 2]) {
            previos.update(previos.len() - 1, previos.last().push(c))
        } else {
            previos.push(seq![c])
        }
    }
}

/// Las palabras de un texto separadas por espacios (`split_whitespace`).
pub open spec fn palabras(s: Seq<char>) -> Seq<Seq<char>> {
    trozos(s, |c: char| es_espacio(c))
}

/// Los tramos de bytes entre bytes nulos, sin los vacíos.
pub open spec fn tramos_sin_nulos(s: Seq<u8>) -> Seq<Seq<u8>> {
    trozos(s, |b: u8| b == 0)
}

/// Las palabras de `s`, separadas por espacios.
pub fn partir_en_palabras(s: &Vec<char>) -> (r: Vec<Vec<char>>)
    ensures
        r.deep_view() == palabras(s@),
{
    let mut hechas: Vec<Vec<char>> = Vec::new();
    let mut actual: Vec<char> = Vec::new();
    let mut i: usize = 0;
    assert(s@.take(0) =~= Seq::<char>::empty());
    while i < s.len()
        invariant
            i <= s.len(),
            actual.len() > 0 <==> (i > 0 && !es_espacio(s@[i - 1])),
            palabras(s@.take(i as int)) == (if actual.len() > 0 {
                hechas.deep_view().push(actual@)
            } else {
                hechas.deep_view()
            }),
        decreases s.len() - i,
    {
        let c = s[i];
        let ghost previo = s@.take(i as int);
        let ghost t1 = s@.take(i + 1);
        assert(t1.drop_last() =~= previo);
        assert(t1.last() == c);
        if es_espacio_exec(c) {
            if actual.len() > 0 {
                let ghost h = hechas.deep_view();
                let ghost a = actual@;
                assert(actual.deep_view() =~= a);
                hechas.push(actual);
                assert(hechas.deep_view() =~= h.push(a));
                actual = Vec::new();
            }
        } else {
            let ghost h = hechas.deep_view();
            let ghost a = actual@;
            if actual.len() > 0 {
                assert(s@.take(i + 1)[i - 1] == s@[i - 1]);
            }
            actual.push(c);
            proof {
                if a.len() > 0 {
                    assert(t1.len() >= 2 && !es_espacio(t1[t1.len() - 2]));
                    assert(palabras(t1) == palabras(previo).update(palabras(previo).len() - 1, palabras(previo).last().push(c)));
                    assert(h.push(a).update(h.len() as int, a.push(c)) =~= h.push(actual@));
                } else {
                    assert(palabras(t1) == palabras(previo).push(seq![c]));
                    assert(actual@ =~= seq![c]);
                }
            }
        }
        i = i + 1;
    }
    assert(s@.take(s.len() as int) =~= s@);
    if actual.len() > 0 {
        let ghost h = hechas.deep_view();
        let ghost a = actual@;
        assert(actual.deep_view() =~= a);
        hechas.push(actual);
        assert(hechas.deep_view() =~= h.push(a));
    }
    hechas
}

/// Los tramos de `s` entre bytes nulos, sin los vacíos.
pub fn partir_en_nulos(s: &[u8]) -> (r: Vec<Vec<u8>>)
    ensures
        r.deep_view() == tramos_sin_nulos(s@),
{
    let mut hechas: Vec<Vec<u8>> = Vec::new();
    let mut actual: Vec<u8> = Vec::new();
    let mut i: usize = 0;
    assert(s@.take(0) =~= Seq::<u8>::empty());
    while i < s.len()
        invariant
            i <= s.len(),
            actual.len() > 0 <==> (i > 0 && s@[i - 1] != 0),
            tramos_sin_nulos(s@.take(i as int)) == (if actual.len() > 0 {
                hechas.deep_view().push(actual@)
            } else {
                hechas.deep_view()
            }),
        decreases s.len() - i,
    {
        let b = s[i];
        let ghost previo = s@.take(i as int);
        let ghost t1 = s@.take(i + 1);
        assert(t1.drop_last() =~= previo);
        assert(t1.last() == b);
        if b == 0 {
            if actual.len() > 0 {
                let ghost h = hechas.deep_view();
                let ghost a = actual@;
                assert(actual.deep_view() =~= a);
                hechas.push(actual);
                assert(hechas.deep_view() =~= h.push(a));
                actual = Vec::new();
            }
        } else {
            let ghost h = hechas.deep_view();
            let ghost a = actual@;
            if actual.len() > 0 {
                assert(s@.take(i + 1)[i - 1] == s@[i - 1]);
            }
            actual.push(b);
            proof {
                if a.len() > 0 {
                    assert(t1.len() >= 2 && t1[t1.len() - 2] != 0);
                    assert(tramos_sin_nulos(t1) == tramos_sin_nulos(previo).update(
                        tramos_sin_nulos(previo).len() - 1,
                        tramos_sin_nulos(previo).last().push(b),
                    ));
                    assert(h.push(a).update(h.len() as int, a.push(b)) =~= h.push(actual@));
                } else {
                    assert(tramos_sin_nulos(t1) == tramos_sin_nulos(previo).push(seq![b]));
                    assert(actual@ =~= seq![b]);
                }
            }
        }
        i = i + 1;
    }
    assert(s@.take(s.len() as int) =~= s@);
    if actual.len() > 0 {
        let ghost h = hechas.deep_view();
        let ghost a = actual@;
        assert(actual.deep_view() =~= a);
        hechas.push(actual);
        assert(hechas.deep_view() =~= h.push(a));
    }
    hechas
}


/// Si dos textos tienen los mismos caracteres.
pub fn mismo_texto(a: &str, b: &str) -> (r: bool)
    ensures
        r == (a@ == b@),
{
    let x = caracteres(a);
    let y = caracteres(b);
    if x.len() != y.len() {
        return false;
    }
    let mut i: usize = 0;
    while i < x.len()
        invariant
            i <= x.len(),
            x.len() == y.len(),
            x@ == a@,
            y@ == b@,
            forall|j: int| 0 <= j < i ==> x@[j] == y@[j],
        decreases x.len() - i,
    {
        if x[i] != y[i] {
            return false;
        }
        i = i + 1;
    }
    assert(x@ =~= y@);
    true
}

/// `s` sin los elementos iniciales que cumplen `p` (`trim_start_matches`).
pub open spec fn sin_inicio<T>(s: Seq<T>, p: spec_fn(T) -> bool) -> Seq<T>
    decreases s.len(),
{
    if s.len() > 0 && p(s[0]) {
        sin_inicio(s.drop_first(), p)
    } else {
        s
    }
}

/// `s` sin los elementos finales que cumplen `p` (`trim_end_matches`).
pub open spec fn sin_final<T>(s: Seq<T>, p: spec_fn(T) -> bool) -> Seq<T>
    decreases s.len(),
{
    if s.len() > 0 && p(s.last()) {
        sin_final(s.drop_last(), p)
    } else {
        s
    }
}

/// `s` sin espacios al principio ni al final (`str::trim`).
pub open spec fn recortado(s: Seq<char>) -> Seq<char> {
    sin_final(sin_inicio(s, |c: char| es_espacio(c)), |c: char| es_espacio(c))
}

/// Quitar un elemento inicial que cumple `p` no cambia el resultado.
proof fn lema_sin_inicio_avanza<T>(s: Seq<T>, p: spec_fn(T) -> bool, a: int)
    requires
        0 <= a < s.len(),
        p(s[a]),
    ensures
        sin_inicio(s.skip(a), p) == sin_inicio(s.skip(a + 1), p),
{
    assert(s.skip(a).drop_first() =~= s.skip(a + 1));
}

/// Quitar un elemento final que cumple `p` no cambia el resultado.
proof fn lema_sin_final_retrocede<T>(s: Seq<T>, p: spec_fn(T) -> bool, b: int)
    requires
        0 < b <= s.len(),
        p(s[b - 1]),
    ensures
        sin_final(s.take(b), p) == sin_final(s.take(b - 1), p),
{
    assert(s.take(b).drop_last() =~= s.take(b - 1));
}

/// Los caracteres de `s` sin espacios al principio ni al final.
pub fn recortar(s: &Vec<char>) -> (r: Vec<char>)
    ensures
        r@ == recortado(s@),
{
    let mut a: usize = 0;
    assert(s@.skip(0) =~= s@);
    while a < s.len() && es_espacio_exec(s[a])
        invariant
            a <= s.len(),
            sin_inicio(s@, |c: char| es_espacio(c)) == sin_inicio(s@.skip(a as int), |c: char| es_espacio(c)),
        decreases s.len() - a,
    {
        proof {
            lema_sin_inicio_avanza(s@, |c: char| es_espacio(c), a as int);
        }
        a = a + 1;
    }
    let ghost medio = s@.skip(a as int);
    assert(sin_inicio(medio, |c: char| es_espacio(c)) == medio);
    let mut b: usize = s.len();
    assert(medio.take(medio.len() as int) =~= medio);
    while b > a && es_espacio_exec(s[b - 1])
        invariant
            a <= b <= s.len(),
            medio == s@.skip(a as int),
            sin_final(medio, |c: char| es_espacio(c)) == sin_final(medio.take(b - a), |c: char| es_espacio(c)),
        decreases b,
    {
        proof {
            assert(medio[b - a - 1] == s@[b - 1]);
            lema_sin_final_retrocede(medio, |c: char| es_espacio(c), b - a);
        }
        b = b - 1;
    }
    let ghost fin = medio.take(b - a);
    assert(sin_final(fin, |c: char| es_espacio(c)) == fin) by {
        if fin.len() > 0 {
            assert(fin.last() == s@[b - 1]);
        }
    }
    let mut r: Vec<char> = Vec::new();
    let mut i: usize = a;
    while i < b
        invariant
            a <= i <= b,
            b <= s.len(),
            r@ == s@.subrange(a as int, i as int),
        decreases b - i,
    {
        r.push(s[i]);
        i = i + 1;
        assert(r@ =~= s@.subrange(a as int, i as int));
    }
    assert(fin =~= s@.subrange(a as int, b as int));
    r
}

/// Las partes unidas con `sep` entre cada dos (`join`).
pub open spec fn unir(partes: Seq<Seq<char>>, sep: Seq<char>) -> Seq<char>
    decreases partes.len(),
{
    if partes.len() == 0 {
        seq![]
    } else if partes.len() == 1 {
        partes[0]
    } else {
        unir(partes.drop_last(), sep) + sep + partes.last()
    }
}

/// Un texto con los caracteres dados, en orden.
///
/// Confía en `FromIterator<char>` de `String`: el texto que junta tiene
/// exactamente los caracteres que recibe, en el mismo orden.
#[verifier::external_body]
pub(crate) fn texto_de(cs: &[char]) -> (t: String)
    ensures
        t@ == cs@,
{
    cs.iter().collect()
}

/// Las partes unidas con `sep` entre cada dos.
pub fn unir_con(partes: &[String], sep: &Vec<char>) -> (v: Vec<char>)
    ensures
        v@ == unir(partes.deep_view(), sep@),
{
    let mut v: Vec<char> = Vec::new();
    let n = partes.len();
    let ghost todas = partes.deep_view();
    for i in 0..n
        invariant
            n == partes.len(),
            todas == partes.deep_view(),
            v@ == unir(todas.take(i as int), sep@),
    {
        let mut cs = caracteres(partes[i].as_str());
        assert(todas[i as int] == partes[i as int]@);
        assert(todas.take(i + 1).drop_last() =~= todas.take(i as int));
        if i > 0 {
            let mut s = sep.clone();
            v.append(&mut s);
        }
        v.append(&mut cs);
        proof {
            if i == 0 {
                assert(v@ =~= todas.take(1)[0]);
            } else {
                assert(v@ =~= unir(todas.take(i as int), sep@) + sep@ + todas.take(i + 1).last());
            }
        }
    }
    assert(todas.take(n as int) =~= todas);
    v
}

/// Las partes unidas con un espacio entre cada dos.
pub fn unir_con_espacios(partes: &[String]) -> (v: Vec<char>)
    ensures
        v@ == unir(partes.deep_view(), seq![' ']),
{
    let mut sep: Vec<char> = Vec::new();
    sep.push(' ');
    assert(sep@ =~= seq![' ']);
    unir_con(partes, &sep)
}

/// Si `c` es una cifra decimal ASCII.
pub open spec fn es_cifra(c: char) -> bool {
    '0' <= c && c <= '9'
}

/// El valor de una cifra decimal.
pub open spec fn valor_cifra(c: char) -> int {
    (c as int) - ('0' as int)
}

/// El valor de una ristra de cifras decimales, leída de izquierda a derecha.
pub open spec fn valor_decimal(d: Seq<char>) -> int
    decreases d.len(),
{
    if d.len() == 0 {
        0
    } else {
        valor_decimal(d.drop_last()) * 10 + valor_cifra(d.last())
    }
}

/// Lo que sigue al signo, si lo hay.
pub open spec fn sin_signo(w: Seq<char>) -> Seq<char> {
    if w.len() > 0 && (w[0] == '-' || w[0] == '+') {
        w.drop_first()
    } else {
        w
    }
}

/// Si todos los caracteres son cifras decimales.
pub open spec fn solo_cifras(d: Seq<char>) -> bool {
    forall|i: int| 0 <= i < d.len() ==> es_cifra(#[trigger] d[i])
}

/// Lo que da `str::parse::<i32>`: un signo opcional (`+` o `-`), al menos
/// una cifra, sólo cifras después, y un valor que quepa en un `i32`.
pub open spec fn entero(w: Seq<char>) -> Option<i32> {
    let cifras = sin_signo(w);
    let v = if w.len() > 0 && w[0] == '-' {
        -valor_decimal(cifras)
    } else {
        valor_decimal(cifras)
    };
    if cifras.len() == 0 || !solo_cifras(cifras) {
        None
    } else if i32::MIN <= v && v <= i32::MAX {
        Some(v as i32)
    } else {
        None
    }
}

proof fn lema_valor_creciente(d: Seq<char>, k: int)
    requires
        0 <= k <= d.len(),
        forall|i: int| 0 <= i < d.len() ==> es_cifra(#[trigger] d[i]),
    ensures
        valor_decimal(d.take(k)) <= valor_decimal(d),
        0 <= valor_decimal(d.take(k)),
    decreases d.len(),
{
    if d.len() > 0 {
        if k < d.len() {
            assert(d.drop_last().take(k) =~= d.take(k));
            lema_valor_creciente(d.drop_last(), k);
        } else {
            assert(d.take(k) =~= d);
            assert(d.drop_last().take(k - 1) =~= d.drop_last());
            lema_valor_creciente(d.drop_last(), k - 1);
        }
    } else {
        assert(d.take(k) =~= d);
    }
}

/// `str::parse::<i32>` sobre los caracteres de `w`.
pub fn entero_de(w: &Vec<char>) -> (r: Option<i32>)
    ensures
        r == entero(w@),
{
    let n = w.len();
    let negativo = n > 0 && w[0] == '-';
    let inicio: usize = if n > 0 && (w[0] == '-' || w[0] == '+') {
        1
    } else {
        0
    };
    let ghost cifras = w@.skip(inicio as int);
    assert(cifras =~= sin_signo(w@));
    if inicio == n {
        return None;
    }
    let mut acumulado: i64 = 0;
    let mut i: usize = inicio;
    while i < n
        invariant
            inicio <= i <= n,
            n == w@.len(),
            cifras == w@.skip(inicio as int),
            cifras == sin_signo(w@),
            inicio < n,
            negativo == (w@.len() > 0 && w@[0] == '-'),
            forall|j: int| 0 <= j < i - inicio ==> es_cifra(#[trigger] cifras[j]),
            acumulado == valor_decimal(cifras.take(i - inicio)),
            0 <= acumulado <= 2147483648,
        decreases n - i,
    {
        let c = w[i];
        assert(cifras[i - inicio] == c);
        if !('0' <= c && c <= '9') {
            assert(!es_cifra(cifras[i - inicio]));
            return None;
        }
        assert(cifras.take(i + 1 - inicio).drop_last() =~= cifras.take(i - inicio));
        let cifra = (c as u32 - '0' as u32) as i64;
        acumulado = acumulado * 10 + cifra;
        i = i + 1;
        if acumulado > 2147483648 {
            proof {
                if solo_cifras(cifras) {
                    lema_valor_creciente(cifras, i - inicio);
                    assert(valor_decimal(cifras) > 2147483648);
                    assert(entero(w@) is None);
                } else {
                    let k = choose|j: int| 0 <= j < cifras.len() && !es_cifra(#[trigger] cifras[j]);
                    assert(!es_cifra(cifras[k]));
                }
            }
            return None;
        }
    }
    assert(cifras.take(n - inicio) =~= cifras);
    if negativo {
        let valor = -acumulado;
        if valor < -2147483648 {
            None
        } else {
            Some(valor as i32)
        }
    } else {
        if acumulado > 2147483647 {
            None
        } else {
            Some(acumulado as i32)
        }
    }
}

} // verus!
