//! El comando de arranque: lo que la terminal tiene que escribir en la primera
//! shell que lo pida (un `cd` a un directorio, un guion a correr).
//!
//! Lo reclama la primera pestaña que lo pide; desde entonces sólo esa pestaña
//! lo recibe, tantas veces como lo pida, hasta que confirma que lo entregó.
//! Entonces deja de estar para todas.

use vstd::prelude::*;

use crate::texto::mismo_texto;

verus! {

/// El comando de arranque pendiente y la pestaña que lo reclamó.
pub struct StartupCommandState {
    pub command: Option<String>,
    pub claim: Option<String>,
}

/// El estado visto como valores: el comando pendiente y quién lo reclamó.
pub struct EstadoArranque {
    pub comando: Option<Seq<char>>,
    pub reclamo: Option<Seq<char>>,
}

impl View for StartupCommandState {
    type V = EstadoArranque;

    open spec fn view(&self) -> EstadoArranque {
        EstadoArranque { comando: self.command.deep_view(), reclamo: self.claim.deep_view() }
    }
}

/// Lo que responde un pedido de la pestaña `id`: el comando, si hay uno y
/// nadie más lo reclamó.
pub open spec fn respuesta(e: EstadoArranque, id: Seq<char>) -> Option<Seq<char>> {
    match e.comando {
        None => None,
        Some(c) => match e.reclamo {
            None => Some(c),
            Some(quien) => if quien == id {
                Some(c)
            } else {
                None
            },
        },
    }
}

/// Cómo queda el estado tras un pedido de la pestaña `id`: si había comando
/// y nadie lo había reclamado, queda reclamado por `id`.
pub open spec fn tras_pedido(e: EstadoArranque, id: Seq<char>) -> EstadoArranque {
    if e.comando is Some && e.reclamo is None {
        EstadoArranque { comando: e.comando, reclamo: Some(id) }
    } else {
        e
    }
}

/// Cómo queda el estado tras la confirmación de `id` de haber entregado
/// `entregado`: vacío si `id` lo había reclamado y es ese mismo comando; igual
/// en otro caso.
pub open spec fn tras_confirmacion(
    e: EstadoArranque,
    id: Seq<char>,
    entregado: Seq<char>,
) -> EstadoArranque {
    if e.reclamo == Some(id) && e.comando == Some(entregado) {
        EstadoArranque { comando: None, reclamo: None }
    } else {
        e
    }
}

impl StartupCommandState {
    /// El comando de arranque para la pestaña `session_id`, si le toca.
    ///
    /// La primera pestaña que lo pide lo reclama; la misma pestaña lo vuelve
    /// a recibir si lo pide otra vez (la vista se remonta), y cualquier otra
    /// recibe `None`.
    pub fn take_startup_command(&mut self, session_id: &str) -> (r: Option<String>)
        ensures
            r.deep_view() == respuesta(old(self)@, session_id@),
            final(self)@ == tras_pedido(old(self)@, session_id@),
    {
        let command = match &self.command {
            None => {
                return None;
            },
            Some(c) => c.clone(),
        };
        match &self.claim {
            None => {
                self.claim = Some(session_id.to_owned());
                Some(command)
            },
            Some(claimed_by) => {
                if mismo_texto(claimed_by.as_str(), session_id) {
                    Some(command)
                } else {
                    None
                }
            },
        }
    }

    /// La pestaña `session_id` confirma que escribió `delivered_command`.
    ///
    /// Si es la pestaña que lo reclamó y es el comando pendiente, el comando
    /// se da por entregado y deja de estar; si no, nada cambia.
    pub fn confirm_startup_command_delivered(&mut self, session_id: &str, delivered_command: &str)
        ensures
            final(self)@ == tras_confirmacion(old(self)@, session_id@, delivered_command@),
    {
        let claim_matches = match &self.claim {
            None => false,
            Some(claimed_by) => mismo_texto(claimed_by.as_str(), session_id),
        };
        let command_matches = match &self.command {
            None => false,
            Some(value) => mismo_texto(value.as_str(), delivered_command),
        };
        if claim_matches && command_matches {
            self.command = None;
            self.claim = None;
        }
    }
}


/// Un comando de arranque llega a una sola pestaña: si la pestaña `a` lo
/// recibe, otra pestaña `b` que lo pide después no lo recibe.
pub proof fn ley_un_solo_destinatario(e: EstadoArranque, a: Seq<char>, b: Seq<char>)
    requires
        a != b,
        respuesta(e, a) is Some,
    ensures
        respuesta(tras_pedido(e, a), b) is None,
        tras_pedido(tras_pedido(e, a), b) == tras_pedido(e, a),
{
}

/// Pedir otra vez desde la misma pestaña da lo mismo y no cambia nada: la
/// vista que se remonta vuelve a recibir el comando.
pub proof fn ley_pedido_repetido(e: EstadoArranque, a: Seq<char>)
    ensures
        respuesta(tras_pedido(e, a), a) == respuesta(e, a),
        tras_pedido(tras_pedido(e, a), a) == tras_pedido(e, a),
{
}

/// Cuando la pestaña que recibió el comando confirma haberlo entregado, el
/// comando deja de estar: ningún pedido posterior lo recibe.
pub proof fn ley_entrega_confirmada(e: EstadoArranque, a: Seq<char>, otra: Seq<char>)
    requires
        respuesta(e, a) is Some,
    ensures
        tras_confirmacion(tras_pedido(e, a), a, respuesta(e, a)->0).comando is None,
        respuesta(tras_confirmacion(tras_pedido(e, a), a, respuesta(e, a)->0), otra) is None,
{
}

/// La confirmación de una pestaña que no reclamó el comando, o de otro
/// comando, no cambia nada.
pub proof fn ley_confirmacion_ajena(e: EstadoArranque, a: Seq<char>, entregado: Seq<char>)
    requires
        e.reclamo != Some(a) || e.comando != Some(entregado),
    ensures
        tras_confirmacion(e, a, entregado) == e,
{
}

/// Sin comando pendiente nadie recibe nada y los pedidos no cambian el
/// estado.
pub proof fn ley_sin_comando(e: EstadoArranque, a: Seq<char>)
    requires
        e.comando is None,
    ensures
        respuesta(e, a) is None,
        tras_pedido(e, a) == e,
{
}

} // verus!
