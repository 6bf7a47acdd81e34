use vstd::prelude::*;

use crate::errores::Error;
use crate::estado::lema_primer_indice;
use crate::estado::lista_o;
use crate::estado::paso_alta;
use crate::estado::paso_baja;
use crate::estado::paso_modificar;
use crate::estado::paso_registrar;
use crate::estado::primer_indice;
use crate::estado::tiene_titulo;
use crate::estado::Estado;
use crate::estado::LARGO_MINIMO_URL;
use crate::tipos::VistaContenido;
use crate::tipos::VistaVersion;

verus! {

// The laws of the registry, stated over the step functions that the methods
// of `Contract` are proved to implement.

/// Once a registration of a wallet has succeeded, a second registration of
/// the same wallet — whatever profile it offers — fails with
/// `DuplicateCreator` and leaves the state untouched.
pub proof fn ley_registro_duplicado(
    e: Estado,
    nombre1: Seq<char>,
    correo1: Seq<char>,
    nombre2: Seq<char>,
    correo2: Seq<char>,
    w: Seq<char>,
)
    requires
        paso_registrar(e, nombre1, correo1, w).0 is Ok,
    ensures
        ({
            let despues = paso_registrar(e, nombre1, correo1, w).1;
            &&& paso_registrar(despues, nombre2, correo2, w).0 == Err::<(), Error>(
                Error::DuplicateCreator,
            )
            &&& paso_registrar(despues, nombre2, correo2, w).1 == despues
        }),
{
}

/// Publishing under a wallet that is not registered fails with
/// `CreatorNotFound`, whatever the item, and changes nothing.
pub proof fn ley_alta_sin_creador(
    e: Estado,
    w: Seq<char>,
    titulo: Seq<char>,
    descripcion: Seq<char>,
    url: Seq<char>,
)
    requires
        !e.creadores.dom().contains(w),
    ensures
        paso_alta(e, w, titulo, descripcion, url).0 == Err::<(), Error>(Error::CreatorNotFound),
        paso_alta(e, w, titulo, descripcion, url).1 == e,
{
}

/// For a registered wallet, publishing fails with `InvalidUrl` exactly when
/// the URL is too short, and otherwise succeeds, appending an item stored
/// with `autenticado` true. (An unregistered wallet fails with
/// `CreatorNotFound` before the URL is looked at.)
pub proof fn ley_alta_url(
    e: Estado,
    w: Seq<char>,
    titulo: Seq<char>,
    descripcion: Seq<char>,
    url: Seq<char>,
)
    requires
        e.creadores.dom().contains(w),
    ensures
        url.len() <= LARGO_MINIMO_URL ==> paso_alta(e, w, titulo, descripcion, url).0 == Err::<
            (),
            Error,
        >(Error::InvalidUrl) && paso_alta(e, w, titulo, descripcion, url).1 == e,
        url.len() > LARGO_MINIMO_URL ==> ({
            let despues = paso_alta(e, w, titulo, descripcion, url).1;
            let l = lista_o(despues.contenidos, w);
            &&& paso_alta(e, w, titulo, descripcion, url).0 is Ok
            &&& l.len() == lista_o(e.contenidos, w).len() + 1
            &&& l.last() == (VistaContenido {
                titulo,
                descripcion,
                url_archivo: url,
                autenticado: true,
            })
            &&& l.last().autenticado
        }),
{
}

/// An unconfirmed retraction fails with `Unconfirmed` and changes nothing,
/// whether or not the title exists.
pub proof fn ley_baja_sin_confirmar(e: Estado, w: Seq<char>, titulo: Seq<char>, marca: u64)
    ensures
        paso_baja(e, w, titulo, false, marca).0 == Err::<(), Error>(Error::Unconfirmed),
        paso_baja(e, w, titulo, false, marca).1 == e,
{
}

/// A successful retraction shrinks the wallet's content list by exactly one
/// and grows its deletion history by exactly one, and the new history entry
/// carries the removed item's title and description, stamped with the clock
/// reading.
pub proof fn ley_baja_exitosa(e: Estado, w: Seq<char>, titulo: Seq<char>, marca: u64)
    requires
        paso_baja(e, w, titulo, true, marca).0 is Ok,
    ensures
        ({
            let despues = paso_baja(e, w, titulo, true, marca).1;
            let l = lista_o(e.contenidos, w);
            let i = primer_indice(l, titulo);
            &&& lista_o(despues.contenidos, w).len() + 1 == l.len()
            &&& lista_o(despues.historial, w).len() == lista_o(e.historial, w).len() + 1
            &&& lista_o(despues.historial, w).last().titulo == l[i].titulo
            &&& lista_o(despues.historial, w).last().descripcion == l[i].descripcion
            &&& lista_o(despues.historial, w).last().timestamp == marca
        }),
{
    let l = lista_o(e.contenidos, w);
    assert(tiene_titulo(l, titulo));
    lema_primer_indice(l, titulo);
}

/// A successful content update keeps the list's length, replaces the item at
/// its original position with the new fields, and appends exactly one
/// version record whose fields equal the pre-update item, stamped with the
/// clock reading.
pub proof fn ley_modificacion_exitosa(
    e: Estado,
    w: Seq<char>,
    titulo_antiguo: Seq<char>,
    nuevo_titulo: Seq<char>,
    nueva_descripcion: Seq<char>,
    nueva_url: Seq<char>,
    marca: u64,
)
    requires
        paso_modificar(
            e,
            w,
            titulo_antiguo,
            nuevo_titulo,
            nueva_descripcion,
            nueva_url,
            marca,
        ).0 is Ok,
    ensures
        ({
            let despues = paso_modificar(
                e,
                w,
                titulo_antiguo,
                nuevo_titulo,
                nueva_descripcion,
                nueva_url,
                marca,
            ).1;
            let l = lista_o(e.contenidos, w);
            let i = primer_indice(l, titulo_antiguo);
            &&& lista_o(despues.contenidos, w).len() == l.len()
            &&& lista_o(despues.contenidos, w) == l.update(
                i,
                VistaContenido {
                    titulo: nuevo_titulo,
                    descripcion: nueva_descripcion,
                    url_archivo: nueva_url,
                    autenticado: true,
                },
            )
            &&& lista_o(despues.versiones, w).len() == lista_o(e.versiones, w).len() + 1
            &&& lista_o(despues.versiones, w).last() == (VistaVersion {
                titulo: l[i].titulo,
                descripcion: l[i].descripcion,
                url_archivo: l[i].url_archivo,
                timestamp: marca,
            })
        }),
{
    let l = lista_o(e.contenidos, w);
    assert(tiene_titulo(l, titulo_antiguo));
    lema_primer_indice(l, titulo_antiguo);
}

} // verus!
