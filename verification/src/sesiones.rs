//! Las sesiones abiertas, una por pestaña, buscadas por su identificador.

use vstd::prelude::*;

use crate::texto::mismo_texto;

verus! {

/// Las sesiones abiertas: a cada identificador de pestaña, su sesión.
///
/// Un identificador aparece a lo sumo una vez.
pub struct Sesiones<S> {
    entradas: Vec<(String, S)>,
}

/// La posición de la entrada con identificador `k`.
pub open spec fn posicion_de<S>(entradas: Seq<(String, S)>, k: Seq<char>) -> int {
    choose|i: int| 0 <= i < entradas.len() && (#[trigger] entradas[i]).0@ == k
}

/// Si hay una entrada con identificador `k`.
pub open spec fn tiene_clave<S>(entradas: Seq<(String, S)>, k: Seq<char>) -> bool {
    exists|i: int| 0 <= i < entradas.len() && (#[trigger] entradas[i]).0@ == k
}

/// Si los identificadores son distintos dos a dos.
pub open spec fn sin_repetidos<S>(entradas: Seq<(String, S)>) -> bool {
    forall|i: int, j: int|
        0 <= i < entradas.len() && 0 <= j < entradas.len() && i != j ==> (#[trigger] entradas[i]).0@
            != (#[trigger] entradas[j]).0@
}

/// Las entradas vistas como un mapa de identificador a sesión.
pub open spec fn como_mapa<S>(entradas: Seq<(String, S)>) -> Map<Seq<char>, S> {
    Map::new(|k: Seq<char>| tiene_clave(entradas, k), |k: Seq<char>| entradas[posicion_de(entradas, k)].1)
}

impl<S> Sesiones<S> {
    #[verifier::type_invariant]
    spec fn sin_claves_repetidas(&self) -> bool {
        sin_repetidos(self.entradas@)
    }

    /// Las sesiones como un mapa de identificador a sesión.
    pub closed spec fn mapa(&self) -> Map<Seq<char>, S> {
        como_mapa(self.entradas@)
    }
}

impl<S> View for Sesiones<S> {
    type V = Map<Seq<char>, S>;

    open spec fn view(&self) -> Map<Seq<char>, S> {
        self.mapa()
    }
}

/// Con identificadores distintos, la entrada `i` es la que se encuentra por su
/// identificador.
proof fn lema_posicion<S>(entradas: Seq<(String, S)>, i: int)
    requires
        sin_repetidos(entradas),
        0 <= i < entradas.len(),
    ensures
        tiene_clave(entradas, entradas[i].0@),
        posicion_de(entradas, entradas[i].0@) == i,
{
    let k = entradas[i].0@;
    assert(tiene_clave(entradas, k));
    let p = posicion_de(entradas, k);
    assert(entradas[p].0@ == k);
}

impl<S> Sesiones<S> {
    /// Ninguna sesión.
    pub fn new() -> (r: Self)
        ensures
            r@ == Map::<Seq<char>, S>::empty(),
    {
        let r = Sesiones { entradas: Vec::new() };
        assert(r.mapa() =~= Map::<Seq<char>, S>::empty());
        r
    }

    /// Dónde está la sesión `id`, si está.
    fn buscar(&self, id: &str) -> (r: Option<usize>)
        ensures
            match r {
                None => !self@.contains_key(id@),
                Some(i) => i < self.entradas@.len() && self.entradas@[i as int].0@ == id@
                    && self@.contains_key(id@) && self@[id@] == self.entradas@[i as int].1,
            },
    {
        proof {
            use_type_invariant(self);
        }
        let mut i: usize = 0;
        while i < self.entradas.len()
            invariant
                i <= self.entradas@.len(),
                sin_repetidos(self.entradas@),
                forall|j: int| 0 <= j < i ==> (#[trigger] self.entradas@[j]).0@ != id@,
            decreases self.entradas.len() - i,
        {
            if mismo_texto(self.entradas[i].0.as_str(), id) {
                proof {
                    lema_posicion(self.entradas@, i as int);
                }
                return Some(i);
            }
            i = i + 1;
        }
        None
    }

    /// La sesión `id`, si está.
    pub fn get(&self, id: &str) -> (r: Option<&S>)
        ensures
            match r {
                None => !self@.contains_key(id@),
                Some(s) => self@.contains_key(id@) && *s == self@[id@],
            },
    {
        match self.buscar(id) {
            None => None,
            Some(i) => Some(&self.entradas[i].1),
        }
    }

    /// Guarda la sesión `valor` bajo `id`, en lugar de la que hubiera.
    pub fn insert(&mut self, id: String, valor: S)
        ensures
            final(self)@ == old(self)@.insert(id@, valor),
    {
        proof {
            use_type_invariant(&*self);
        }
        let ghost viejas = self.entradas@;
        let ghost k = id@;
        match self.buscar(id.as_str()) {
            Some(i) => {
                let ghost nuevas = viejas.update(i as int, (id, valor));
                assert forall|a: int, b: int|
                    0 <= a < nuevas.len() && 0 <= b < nuevas.len() && a != b implies (
                    #[trigger] nuevas[a]).0@ != (#[trigger] nuevas[b]).0@ by {
                    if a != i && b != i {
                        assert(viejas[a].0@ != viejas[b].0@);
                    } else if a == i {
                        assert(viejas[i as int].0@ != viejas[b].0@);
                    } else {
                        assert(viejas[i as int].0@ != viejas[a].0@);
                    }
                }
                proof {
                    assert forall|kk: Seq<char>| #[trigger] tiene_clave(nuevas, kk) == tiene_clave(viejas, kk) by {
                        if tiene_clave(viejas, kk) {
                            let p = choose|p: int| 0 <= p < viejas.len() && (#[trigger] viejas[p]).0@ == kk;
                            assert(nuevas[p].0@ == kk);
                        }
                        if tiene_clave(nuevas, kk) {
                            let p = choose|p: int| 0 <= p < nuevas.len() && (#[trigger] nuevas[p]).0@ == kk;
                            assert(viejas[p].0@ == kk);
                        }
                    }
                    assert forall|kk: Seq<char>| tiene_clave(nuevas, kk) implies #[trigger] como_mapa(nuevas)[kk] == (
                    if kk == k {
                        valor
                    } else {
                        como_mapa(viejas)[kk]
                    }) by {
                        let p = choose|p: int| 0 <= p < nuevas.len() && (#[trigger] nuevas[p]).0@ == kk;
                        lema_posicion(nuevas, p);
                        lema_posicion(viejas, p);
                    }
                    assert(como_mapa(nuevas) =~= como_mapa(viejas).insert(k, valor));
                }
                let mut entradas: Vec<(String, S)> = Vec::new();
                std::mem::swap(&mut entradas, &mut self.entradas);
                entradas.set(i, (id, valor));
                assert(entradas@ == nuevas);
                self.entradas = entradas;
            },
            None => {
                let ghost nuevas = viejas.push((id, valor));
                assert forall|a: int, b: int|
                    0 <= a < nuevas.len() && 0 <= b < nuevas.len() && a != b implies (
                    #[trigger] nuevas[a]).0@ != (#[trigger] nuevas[b]).0@ by {
                    if a < viejas.len() && b < viejas.len() {
                        assert(viejas[a].0@ != viejas[b].0@);
                    } else if a < viejas.len() {
                        assert(viejas[a] == nuevas[a]);
                        assert(!tiene_clave(viejas, k));
                    } else {
                        assert(viejas[b] == nuevas[b]);
                        assert(!tiene_clave(viejas, k));
                    }
                }
                proof {
                    assert forall|kk: Seq<char>| #[trigger] tiene_clave(nuevas, kk) == (tiene_clave(viejas, kk) || kk == k) by {
                        if tiene_clave(viejas, kk) {
                            let p = choose|p: int| 0 <= p < viejas.len() && (#[trigger] viejas[p]).0@ == kk;
                            assert(nuevas[p].0@ == kk);
                        }
                        if kk == k {
                            assert(nuevas[viejas.len() as int].0@ == kk);
                        }
                        if tiene_clave(nuevas, kk) && kk != k {
                            let p = choose|p: int| 0 <= p < nuevas.len() && (#[trigger] nuevas[p]).0@ == kk;
                            assert(viejas[p].0@ == kk);
                        }
                    }
                    assert forall|kk: Seq<char>| tiene_clave(nuevas, kk) implies #[trigger] como_mapa(nuevas)[kk] == (
                    if kk == k {
                        valor
                    } else {
                        como_mapa(viejas)[kk]
                    }) by {
                        let p = choose|p: int| 0 <= p < nuevas.len() && (#[trigger] nuevas[p]).0@ == kk;
                        lema_posicion(nuevas, p);
                        if p < viejas.len() {
                            lema_posicion(viejas, p);
                        }
                    }
                    assert(como_mapa(nuevas) =~= como_mapa(viejas).insert(k, valor));
                }
                let mut entradas: Vec<(String, S)> = Vec::new();
                std::mem::swap(&mut entradas, &mut self.entradas);
                entradas.push((id, valor));
                self.entradas = entradas;
            },
        }
    }

    /// Quita la sesión `id`, si estaba.
    pub fn remove(&mut self, id: &str)
        ensures
            final(self)@ == old(self)@.remove(id@),
    {
        proof {
            use_type_invariant(&*self);
        }
        let ghost viejas = self.entradas@;
        let ghost k = id@;
        match self.buscar(id) {
            None => {
                assert(como_mapa(viejas) =~= como_mapa(viejas).remove(k));
            },
            Some(i) => {
                let ghost nuevas = viejas.remove(i as int);
                assert forall|a: int, b: int|
                    0 <= a < nuevas.len() && 0 <= b < nuevas.len() && a != b implies (
                    #[trigger] nuevas[a]).0@ != (#[trigger] nuevas[b]).0@ by {
                    let a2 = if a < i { a } else { a + 1 };
                    let b2 = if b < i { b } else { b + 1 };
                    assert(nuevas[a] == viejas[a2]);
                    assert(nuevas[b] == viejas[b2]);
                    assert(viejas[a2].0@ != viejas[b2].0@);
                }
                proof {
                    assert forall|kk: Seq<char>| #[trigger] tiene_clave(nuevas, kk) == (tiene_clave(viejas, kk) && kk != k) by {
                        if tiene_clave(viejas, kk) && kk != k {
                            let p = choose|p: int| 0 <= p < viejas.len() && (#[trigger] viejas[p]).0@ == kk;
                            let p2 = if p < i { p } else { p - 1 };
                            assert(p != i);
                            assert(nuevas[p2].0@ == kk);
                        }
                        if tiene_clave(nuevas, kk) {
                            let p = choose|p: int| 0 <= p < nuevas.len() && (#[trigger] nuevas[p]).0@ == kk;
                            let p2 = if p < i { p } else { p + 1 };
                            assert(viejas[p2].0@ == kk);
                            assert(p2 != i);
                            assert(viejas[p2].0@ != viejas[i as int].0@);
                        }
                    }
                    assert forall|kk: Seq<char>| tiene_clave(nuevas, kk) implies #[trigger] como_mapa(nuevas)[kk]
                        == como_mapa(viejas)[kk] by {
                        let p = choose|p: int| 0 <= p < nuevas.len() && (#[trigger] nuevas[p]).0@ == kk;
                        let p2 = if p < i { p } else { p + 1 };
                        assert(viejas[p2] == nuevas[p]);
                        lema_posicion(nuevas, p);
                        lema_posicion(viejas, p2);
                    }
                    assert(como_mapa(nuevas) =~= como_mapa(viejas).remove(k));
                }
                let mut entradas: Vec<(String, S)> = Vec::new();
                std::mem::swap(&mut entradas, &mut self.entradas);
                let _quitada = entradas.remove(i);
                self.entradas = entradas;
            },
        }
    }
}


/// Lo guardado se lee: tras guardar `v` bajo `id`, buscar `id` da `v`, y las
/// demás sesiones siguen como estaban.
pub proof fn ley_se_lee_lo_guardado<S>(m: Map<Seq<char>, S>, id: Seq<char>, v: S, otro: Seq<char>)
    ensures
        m.insert(id, v).contains_key(id),
        m.insert(id, v)[id] == v,
        otro != id ==> m.insert(id, v).contains_key(otro) == m.contains_key(otro),
        otro != id && m.contains_key(otro) ==> m.insert(id, v)[otro] == m[otro],
{
}

/// Una pestaña cerrada ya no se encuentra, y las demás siguen como estaban.
pub proof fn ley_la_cerrada_no_esta<S>(m: Map<Seq<char>, S>, id: Seq<char>, otro: Seq<char>)
    ensures
        !m.remove(id).contains_key(id),
        otro != id ==> m.remove(id).contains_key(otro) == m.contains_key(otro),
        otro != id && m.contains_key(otro) ==> m.remove(id)[otro] == m[otro],
{
}

} // verus!
