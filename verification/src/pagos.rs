use vstd::prelude::*;

use crate::contrato::Contract;
use crate::errores::Error;

verus! {

/// A transfer order for the collaborator token ledger: move
/// `cantidad` tokens from the account `de` to the account `hacia`.
/// Account addresses are opaque text, as wallet identifiers are.
#[derive(Debug)]
pub struct Transferencia {
    pub de: String,
    pub hacia: String,
    pub cantidad: i128,
}

/// A payment order: the transfer, plus the documentation note the caller
/// records on the ledger after the transfer succeeds (best-effort, outside
/// the transfer's atomicity).
#[derive(Debug)]
pub struct Pago {
    pub transferencia: Transferencia,
    pub nota: String,
}

/// Outcome of the authenticity review of an uploaded content item.
#[derive(Clone, Copy, Debug, PartialEq, Eq, Structural)]
pub enum ResultadoValidacion {
    /// The metadata store has no such content.
    NoEncontrado,
    /// The originality verifier approved the data: mark the content valid.
    Aceptado,
    /// The originality verifier refused the data: reject the content.
    Rechazado,
}

impl Contract {
    /// Decides a compensation. The caller reads the consumer's balance from
    /// the authoritative token ledger, hands it in, and performs the
    /// returned transfer: it fails with `InsufficientFunds` iff the balance
    /// does not cover the amount, and otherwise orders exactly
    /// `(consumidor, creador, cantidad_tokens)`. No local bookkeeping is
    /// kept.
    pub fn compensar_creador(
        consumidor: String,
        creador: String,
        cantidad_tokens: i128,
        saldo_consumidor: i128,
    ) -> (r: Result<Transferencia, Error>)
        ensures
            r is Err <==> saldo_consumidor < cantidad_tokens,
            (r is Err ==> r == Err::<Transferencia, Error>(Error::InsufficientFunds)),
            (r matches Ok(t) ==> t.de@ == consumidor@ && t.hacia@ == creador@ && t.cantidad
                == cantidad_tokens),
    {
        if saldo_consumidor < cantidad_tokens {
            Err(Error::InsufficientFunds)
        } else {
            Ok(Transferencia { de: consumidor, hacia: creador, cantidad: cantidad_tokens })
        }
    }

    /// The extended payment: the same balance-checked decision, and on
    /// success the payment carries the fixed note the caller records on the
    /// ledger after the transfer.
    pub fn realizar_pago_tokens(
        consumidor: String,
        creador: String,
        cantidad_tokens: i128,
        saldo_consumidor: i128,
    ) -> (r: Result<Pago, Error>)
        ensures
            r is Err <==> saldo_consumidor < cantidad_tokens,
            (r is Err ==> r == Err::<Pago, Error>(Error::InsufficientFunds)),
            (r matches Ok(p) ==> p.transferencia.de@ == consumidor@ && p.transferencia.hacia@
                == creador@ && p.transferencia.cantidad == cantidad_tokens && p.nota@
                == "Pago por contenido consumido"@),
    {
        if saldo_consumidor < cantidad_tokens {
            Err(Error::InsufficientFunds)
        } else {
            Ok(
                Pago {
                    transferencia: Transferencia {
                        de: consumidor,
                        hacia: creador,
                        cantidad: cantidad_tokens,
                    },
                    nota: "Pago por contenido consumido".to_owned(),
                },
            )
        }
    }

    /// Decides the authenticity flow from the two collaborator readings:
    /// whether the metadata store holds the content at all, and whether the
    /// originality verifier approved its data. The caller performs the
    /// marking or rejection that the decision names.
    pub fn validar_autenticidad_contenido(hay_contenido: bool, es_original: bool) -> (r:
        ResultadoValidacion)
        ensures
            r == (if !hay_contenido {
                ResultadoValidacion::NoEncontrado
            } else if es_original {
                ResultadoValidacion::Aceptado
            } else {
                ResultadoValidacion::Rechazado
            }),
    {
        if !hay_contenido {
            ResultadoValidacion::NoEncontrado
        } else if es_original {
            ResultadoValidacion::Aceptado
        } else {
            ResultadoValidacion::Rechazado
        }
    }
}

} // verus!
