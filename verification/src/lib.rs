//! A verified creator/content registry: creators register under a wallet
//! identifier, publish content items, edit or retract them (with append-only
//! version and deletion history), run descriptions through a moderation
//! filter, and receive balance-checked compensation decisions.
//!
//! The persistent collections are held in [`Contract`]; collaborators that
//! live outside the registry (the clock and the token ledger) hand their
//! readings in as plain values, so every rule of the registry is stated in a
//! contract and proved.

mod almacen;
mod contrato;
mod errores;
mod estado;
mod leyes;
mod pagos;
mod texto;
mod tipos;

pub use contrato::Contract;
pub use errores::Error;
pub use pagos::Pago;
pub use pagos::ResultadoValidacion;
pub use pagos::Transferencia;
pub use tipos::Contenido;
pub use tipos::Creador;
pub use tipos::HistorialEliminacion;
pub use tipos::VersionContenido;
