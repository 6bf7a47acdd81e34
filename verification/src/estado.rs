use vstd::prelude::*;

use crate::errores::Error;
use crate::texto::contiene;
use crate::texto::plegada;
use crate::tipos::VistaContenido;
use crate::tipos::VistaCreador;
use crate::tipos::VistaEliminacion;
use crate::tipos::VistaVersion;

verus! {

/// The abstract state of the registry: the four persisted collections, each
/// read as a partial map from wallet identifier to stored value. Every
/// operation of [`crate::Contract`] is specified as a pure step function on
/// this state.
#[verifier::ext_equal]
pub struct Estado {
    pub creadores: Map<Seq<char>, VistaCreador>,
    pub contenidos: Map<Seq<char>, Seq<VistaContenido>>,
    pub historial: Map<Seq<char>, Seq<VistaEliminacion>>,
    pub versiones: Map<Seq<char>, Seq<VistaVersion>>,
}

/// A wallet's list in a collection; a wallet without an entry has the empty
/// list (the store reads absent collections as their default).
pub open spec fn lista_o<V>(m: Map<Seq<char>, Seq<V>>, k: Seq<char>) -> Seq<V> {
    if m.dom().contains(k) {
        m[k]
    } else {
        Seq::empty()
    }
}

/// A file URL must be strictly longer than this to count as authenticated.
pub const LARGO_MINIMO_URL: usize = 10;

/// The authentication rule on file URLs. Length is counted in characters
/// (code points), the unit every contract of this crate measures text in: a
/// multi-byte character counts once.
pub open spec fn url_valida(url: Seq<char>) -> bool {
    url.len() > LARGO_MINIMO_URL
}

/// Some item of the list carries the given title.
pub open spec fn tiene_titulo(l: Seq<VistaContenido>, t: Seq<char>) -> bool {
    exists|i: int| 0 <= i < l.len() && l[i].titulo == t
}

/// The position of the first item carrying the given title (meaningful when
/// `tiene_titulo` holds): title-based operations resolve duplicates to the
/// first match, in list order.
pub open spec fn primer_indice(l: Seq<VistaContenido>, t: Seq<char>) -> int
    decreases l.len(),
{
    if l.len() == 0 {
        0
    } else if l[0].titulo == t {
        0
    } else {
        1 + primer_indice(l.drop_first(), t)
    }
}

/// `primer_indice` points at a matching item and nothing before it matches.
pub proof fn lema_primer_indice(l: Seq<VistaContenido>, t: Seq<char>)
    requires
        tiene_titulo(l, t),
    ensures
        ({
            let i = primer_indice(l, t);
            &&& 0 <= i < l.len()
            &&& l[i].titulo == t
            &&& forall|j: int| 0 <= j < i ==> l[j].titulo != t
        }),
    decreases l.len(),
{
    if l.len() == 0 {
    } else if l[0].titulo == t {
    } else {
        let l2 = l.drop_first();
        assert(tiene_titulo(l2, t)) by {
            let w = choose|i: int| 0 <= i < l.len() && l[i].titulo == t;
            assert(l2[w - 1] == l[w]);
        }
        lema_primer_indice(l2, t);
        let i2 = primer_indice(l2, t);
        assert(l[i2 + 1] == l2[i2]);
        assert forall|j: int| 0 <= j < i2 + 1 implies l[j].titulo != t by {
            if j > 0 {
                assert(l2[j - 1] == l[j]);
            }
        }
    }
}

/// An index that matches, with no match before it, is `primer_indice`.
pub proof fn lema_primer_indice_es(l: Seq<VistaContenido>, t: Seq<char>, i: int)
    requires
        0 <= i < l.len(),
        l[i].titulo == t,
        forall|j: int| 0 <= j < i ==> l[j].titulo != t,
    ensures
        tiene_titulo(l, t),
        primer_indice(l, t) == i,
{
    assert(tiene_titulo(l, t));
    lema_primer_indice(l, t);
    let p = primer_indice(l, t);
    if p < i {
        assert(l[p].titulo != t);
    }
    if i < p {
        assert(l[i].titulo != t);
    }
}

/// Registration: fails when the wallet is taken, otherwise inserts a profile
/// with empty social links.
pub open spec fn paso_registrar(
    e: Estado,
    nombre: Seq<char>,
    correo: Seq<char>,
    w: Seq<char>,
) -> (Result<(), Error>, Estado) {
    if e.creadores.dom().contains(w) {
        (Err(Error::DuplicateCreator), e)
    } else {
        (
            Ok(()),
            Estado {
                creadores: e.creadores.insert(
                    w,
                    VistaCreador { username: nombre, email: correo, redes: None },
                ),
                ..e
            },
        )
    }
}

/// Creator removal: confirmation is checked before existence; only the
/// creator entry goes, content and history stay addressable.
pub open spec fn paso_eliminar(e: Estado, w: Seq<char>, confirmar: bool) -> (Result<
    (),
    Error,
>, Estado) {
    if !confirmar {
        (Err(Error::Unconfirmed), e)
    } else if !e.creadores.dom().contains(w) {
        (Err(Error::CreatorNotFound), e)
    } else {
        (Ok(()), Estado { creadores: e.creadores.remove(w), ..e })
    }
}

/// Profile update: full replacement of the three profile fields.
pub open spec fn paso_actualizar(
    e: Estado,
    w: Seq<char>,
    nombre: Seq<char>,
    correo: Seq<char>,
    redes: Option<Seq<char>>,
) -> (Result<(), Error>, Estado) {
    if !e.creadores.dom().contains(w) {
        (Err(Error::CreatorNotFound), e)
    } else {
        (
            Ok(()),
            Estado {
                creadores: e.creadores.insert(
                    w,
                    VistaCreador { username: nombre, email: correo, redes },
                ),
                ..e
            },
        )
    }
}

/// Publication: the creator must exist and the URL must pass the
/// authentication rule; the new item lands at the end of the wallet's list,
/// with `autenticado` recomputed from the URL (hence true on success).
pub open spec fn paso_alta(
    e: Estado,
    w: Seq<char>,
    titulo: Seq<char>,
    descripcion: Seq<char>,
    url: Seq<char>,
) -> (Result<(), Error>, Estado) {
    if !e.creadores.dom().contains(w) {
        (Err(Error::CreatorNotFound), e)
    } else if !url_valida(url) {
        (Err(Error::InvalidUrl), e)
    } else {
        let item = VistaContenido { titulo, descripcion, url_archivo: url, autenticado: true };
        (
            Ok(()),
            Estado {
                contenidos: e.contenidos.insert(w, lista_o(e.contenidos, w).push(item)),
                ..e
            },
        )
    }
}

/// Retraction: confirmation first; the first item with the title is removed
/// (later items keep their order) and a deletion snapshot of it, stamped by
/// the collaborator clock, is appended to the wallet's history.
pub open spec fn paso_baja(
    e: Estado,
    w: Seq<char>,
    titulo: Seq<char>,
    confirmar: bool,
    marca: u64,
) -> (Result<(), Error>, Estado) {
    if !confirmar {
        (Err(Error::Unconfirmed), e)
    } else {
        let l = lista_o(e.contenidos, w);
        if !tiene_titulo(l, titulo) {
            (Err(Error::ContentNotFound), e)
        } else {
            let i = primer_indice(l, titulo);
            let registro = VistaEliminacion {
                titulo: l[i].titulo,
                descripcion: l[i].descripcion,
                timestamp: marca,
            };
            (
                Ok(()),
                Estado {
                    contenidos: e.contenidos.insert(w, l.remove(i)),
                    historial: e.historial.insert(w, lista_o(e.historial, w).push(registro)),
                    ..e
                },
            )
        }
    }
}

/// Content update: a version snapshot of the pre-update item is recorded
/// before the new URL is validated, so the snapshot persists even when the
/// operation then fails with `InvalidUrl` (deliberate audit-before-validate
/// ordering). On success the item is replaced in place at its position.
pub open spec fn paso_modificar(
    e: Estado,
    w: Seq<char>,
    titulo_antiguo: Seq<char>,
    nuevo_titulo: Seq<char>,
    nueva_descripcion: Seq<char>,
    nueva_url: Seq<char>,
    marca: u64,
) -> (Result<(), Error>, Estado) {
    let l = lista_o(e.contenidos, w);
    if !tiene_titulo(l, titulo_antiguo) {
        (Err(Error::ContentNotFound), e)
    } else {
        let i = primer_indice(l, titulo_antiguo);
        let version = VistaVersion {
            titulo: l[i].titulo,
            descripcion: l[i].descripcion,
            url_archivo: l[i].url_archivo,
            timestamp: marca,
        };
        let e1 = Estado {
            versiones: e.versiones.insert(w, lista_o(e.versiones, w).push(version)),
            ..e
        };
        if !url_valida(nueva_url) {
            (Err(Error::InvalidUrl), e1)
        } else {
            let nuevo = VistaContenido {
                titulo: nuevo_titulo,
                descripcion: nueva_descripcion,
                url_archivo: nueva_url,
                autenticado: true,
            };
            (
                Ok(()),
                Estado { contenidos: e1.contenidos.insert(w, l.update(i, nuevo)), ..e1 },
            )
        }
    }
}

/// One item matches a (folded) query when its folded title or folded
/// description contains the query as a substring.
pub open spec fn coincide_consulta(c: VistaContenido, qp: Seq<char>) -> bool {
    contiene(plegada(c.titulo), qp) || contiene(plegada(c.descripcion), qp)
}

/// The items of one creator's list that match the query, in list order.
pub open spec fn filtra(l: Seq<VistaContenido>, qp: Seq<char>) -> Seq<VistaContenido>
    decreases l.len(),
{
    if l.len() == 0 {
        Seq::empty()
    } else {
        filtra(l.drop_last(), qp) + if coincide_consulta(l.last(), qp) {
            seq![l.last()]
        } else {
            Seq::empty()
        }
    }
}

/// All matches across all creators, in encounter order: creator iteration
/// order, and list order within one creator.
pub open spec fn busqueda(listas: Seq<Seq<VistaContenido>>, qp: Seq<char>) -> Seq<
    VistaContenido,
>
    decreases listas.len(),
{
    if listas.len() == 0 {
        Seq::empty()
    } else {
        busqueda(listas.drop_last(), qp) + filtra(listas.last(), qp)
    }
}

/// All matches in the stored collection, read through its map together with
/// the publicly stated wallet iteration order: the lists are visited in
/// `orden` order, each taken from the map (empty for a wallet without an
/// entry), and filtered in list order.
pub open spec fn busqueda_ordenada(
    m: Map<Seq<char>, Seq<VistaContenido>>,
    orden: Seq<Seq<char>>,
    qp: Seq<char>,
) -> Seq<VistaContenido> {
    busqueda(orden.map_values(|w: Seq<char>| lista_o(m, w)), qp)
}

/// Extending a list prefix by one item extends its filtered matches by that
/// item exactly when it matches.
pub proof fn lema_filtra_paso(l: Seq<VistaContenido>, qp: Seq<char>, j: int)
    requires
        0 <= j < l.len(),
    ensures
        filtra(l.take(j + 1), qp) == filtra(l.take(j), qp) + (if coincide_consulta(l[j], qp) {
            seq![l[j]]
        } else {
            Seq::<VistaContenido>::empty()
        }),
{
    assert(l.take(j + 1).drop_last() =~= l.take(j));
    assert(l.take(j + 1).last() == l[j]);
}

/// Extending the prefix of creator lists by one list appends that list's
/// matches to the search result.
pub proof fn lema_busqueda_paso(ls: Seq<Seq<VistaContenido>>, qp: Seq<char>, i: int)
    requires
        0 <= i < ls.len(),
    ensures
        busqueda(ls.take(i + 1), qp) == busqueda(ls.take(i), qp) + filtra(ls[i], qp),
{
    assert(ls.take(i + 1).drop_last() =~= ls.take(i));
    assert(ls.take(i + 1).last() == ls[i]);
}

} // verus!
