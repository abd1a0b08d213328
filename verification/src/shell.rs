//! Las reglas de la shell: partir una línea en palabras y citar un valor.

use vstd::prelude::*;

verus! {

/// Las palabras en que `shell_words::split` parte una línea, o nada si la
/// línea deja una comilla sin cerrar.
pub uninterp spec fn palabras_de_shell(linea: Seq<char>) -> Option<Seq<Seq<char>>>;

/// El error de `shell_words::split`: una comilla sin cerrar.
#[verifier::external_type_specification]
#[verifier::external_body]
pub struct ExErrorDeShell(shell_words::ParseError);

/// Llama a `shell_words::split`.
///
/// Sólo se afirma que el resultado es el que esa función da para esa línea:
/// las reglas de comillas, barras y comentarios no se repiten aquí.
#[verifier::external_body]
fn partir_linea(linea: &str) -> (r: Result<Vec<String>, shell_words::ParseError>)
    ensures
        match r {
            Ok(palabras) => palabras_de_shell(linea@) == Some(palabras.deep_view()),
            Err(_) => palabras_de_shell(linea@) is None,
        },
{
    shell_words::split(linea)
}

/// Parte una línea como lo haría la shell; nada si queda una comilla abierta.
pub fn partir_como_shell(linea: &str) -> (r: Option<Vec<String>>)
    ensures
        r.deep_view() == palabras_de_shell(linea@),
{
    match partir_linea(linea) {
        Ok(palabras) => Some(palabras),
        Err(_) => None,
    }
}

/// Los caracteres de `v` con cada comilla simple cambiada por `'\''`.
pub open spec fn escapado(v: Seq<char>) -> Seq<char>
    decreases v.len(),
{
    if v.len() == 0 {
        seq![]
    } else if v.last() == '\'' {
        escapado(v.drop_last()) + seq!['\'', '\\', '\'', '\'']
    } else {
        escapado(v.drop_last()).push(v.last())
    }
}

/// `v` entre comillas simples, listo para una línea de shell.
pub open spec fn entre_comillas(v: Seq<char>) -> Seq<char> {
    seq!['\''] + escapado(v) + seq!['\'']
}

/// Pone `value` entre comillas simples, cambiando cada comilla simple de
/// adentro por `'\''`, de modo que la shell lo lea como una sola palabra.
pub fn shell_escape_single_quoted(value: &str) -> (r: String)
    ensures
        r@ == entre_comillas(value@),
{
    let cs = crate::texto::caracteres(value);
    let mut salida: Vec<char> = Vec::new();
    salida.push('\'');
    let mut i: usize = 0;
    while i < cs.len()
        invariant
            i <= cs.len(),
            salida@ == seq!['\''] + escapado(cs@.take(i as int)),
        decreases cs.len() - i,
    {
        let c = cs[i];
        assert(cs@.take(i + 1).drop_last() =~= cs@.take(i as int));
        if c == '\'' {
            salida.push('\'');
            salida.push('\\');
            salida.push('\'');
            salida.push('\'');
        } else {
            salida.push(c);
        }
        i = i + 1;
        assert(salida@ =~= seq!['\''] + escapado(cs@.take(i as int)));
    }
    assert(cs@.take(cs.len() as int) =~= cs@);
    salida.push('\'');
    crate::texto::texto_de(salida.as_slice())
}


/// Lo que cada carácter aporta al texto citado: una comilla simple se vuelve
/// `'\''` (cerrar, comilla escapada, abrir) y todo lo demás queda igual.
pub open spec fn citado_de(c: char) -> Seq<char> {
    if c == '\'' {
        seq!['\'', '\\', '\'', '\'']
    } else {
        seq![c]
    }
}

/// Citar es carácter por carácter: el texto vacío no aporta nada, un solo
/// carácter aporta lo suyo, y citar dos textos seguidos da lo mismo que
/// citarlos por separado y juntarlos. Así, **cada** comilla simple del valor
/// (no sólo la primera ni la última) se vuelve `'\''`, y el resultado queda
/// entre comillas simples.
pub proof fn ley_cada_comilla_se_escapa(a: Seq<char>, b: Seq<char>, c: char)
    ensures
        escapado(seq![]) == Seq::<char>::empty(),
        escapado(seq![c]) == citado_de(c),
        escapado(a + b) == escapado(a) + escapado(b),
        entre_comillas(a) == seq!['\''] + escapado(a) + seq!['\''],
    decreases b.len(),
{
    let vacio: Seq<char> = seq![];
    assert(escapado(vacio) == vacio);
    assert(seq![c].drop_last() =~= vacio);
    assert(seq![c].last() == c);
    assert(escapado(seq![c]) =~= escapado(vacio) + citado_de(c));
    assert(escapado(seq![c]) =~= citado_de(c));
    if b.len() == 0 {
        assert(a + b =~= a);
        assert(escapado(a) + escapado(b) =~= escapado(a));
    } else {
        ley_cada_comilla_se_escapa(a, b.drop_last(), c);
        assert((a + b).drop_last() =~= a + b.drop_last());
        assert((a + b).last() == b.last());
        assert(escapado(a + b) =~= escapado(a) + escapado(b));
    }
}

} // verus!
