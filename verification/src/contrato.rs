use vstd::prelude::*;

use crate::almacen::alist_mapa;
use crate::almacen::alist_tiene;
use crate::almacen::claves_unicas;
use crate::almacen::indice_clave;
use crate::almacen::lema_actualiza;
use crate::almacen::lema_inserta_nueva;
use crate::almacen::lema_quita;
use crate::almacen::lema_valor_en;
use crate::almacen::lema_vista_push;
use crate::errores::Error;
use crate::almacen::lema_vista_actualiza;
use crate::almacen::lema_vista_quita;
use crate::estado::busqueda;
use crate::estado::busqueda_ordenada;
use crate::estado::coincide_consulta;
use crate::estado::filtra;
use crate::estado::lema_busqueda_paso;
use crate::estado::lema_filtra_paso;
use crate::estado::lema_primer_indice_es;
use crate::estado::lista_o;
use crate::estado::paso_actualizar;
use crate::estado::paso_alta;
use crate::estado::paso_baja;
use crate::estado::paso_eliminar;
use crate::estado::paso_modificar;
use crate::estado::paso_registrar;
use crate::estado::primer_indice;
use crate::estado::tiene_titulo;
use crate::estado::Estado;
use crate::estado::LARGO_MINIMO_URL;
use crate::texto::a_caracteres;
use crate::texto::contiene_sub;
use crate::texto::descripcion_aprobada;
use crate::texto::plegada;
use crate::texto::plegar_str;
use crate::tipos::Contenido;
use crate::tipos::Creador;
use crate::tipos::HistorialEliminacion;
use crate::tipos::VersionContenido;
use crate::tipos::VistaContenido;
use crate::tipos::VistaCreador;
use crate::tipos::VistaEliminacion;
use crate::tipos::VistaVersion;

verus! {

/// Finds the position of the first item carrying the given title, scanning
/// in list order (duplicate titles resolve to the first match).
fn indice_titulo(v: &Vec<Contenido>, titulo: &String) -> (r: Option<usize>)
    ensures
        match r {
            Some(i) => {
                &&& i < v@.len()
                &&& tiene_titulo(v.deep_view(), titulo@)
                &&& primer_indice(v.deep_view(), titulo@) == i
            },
            None => !tiene_titulo(v.deep_view(), titulo@),
        },
{
    let mut i: usize = 0;
    while i < v.len()
        invariant
            i <= v@.len(),
            forall|j: int| 0 <= j < i ==> v.deep_view()[j].titulo != titulo@,
        decreases v@.len() - i,
    {
        if v[i].titulo == *titulo {
            proof {
                assert(v.deep_view()[i as int].titulo == titulo@);
                lema_primer_indice_es(v.deep_view(), titulo@, i as int);
            }
            return Some(i);
        }
        proof {
            assert(v.deep_view()[i as int].titulo != titulo@);
        }
        i += 1;
    }
    proof {
        assert(!tiene_titulo(v.deep_view(), titulo@));
    }
    None
}

/// Deep copy of a content list: the copy holds equal items in equal order.
fn clonar_contenidos(v: &Vec<Contenido>) -> (r: Vec<Contenido>)
    ensures
        r@ == v@,
{
    let mut r: Vec<Contenido> = Vec::new();
    let mut i: usize = 0;
    while i < v.len()
        invariant
            i <= v@.len(),
            r@ == v@.take(i as int),
        decreases v@.len() - i,
    {
        r.push(v[i].clonar());
        proof {
            assert(r@ =~= v@.take(i + 1));
        }
        i += 1;
    }
    proof {
        assert(v@.take(v@.len() as int) =~= v@);
    }
    r
}

/// Deep copy of a deletion-history list.
fn clonar_historial(v: &Vec<HistorialEliminacion>) -> (r: Vec<HistorialEliminacion>)
    ensures
        r@ == v@,
{
    let mut r: Vec<HistorialEliminacion> = Vec::new();
    let mut i: usize = 0;
    while i < v.len()
        invariant
            i <= v@.len(),
            r@ == v@.take(i as int),
        decreases v@.len() - i,
    {
        r.push(v[i].clonar());
        proof {
            assert(r@ =~= v@.take(i + 1));
        }
        i += 1;
    }
    proof {
        assert(v@.take(v@.len() as int) =~= v@);
    }
    r
}

/// Deep copy of a version-history list.
fn clonar_versiones(v: &Vec<VersionContenido>) -> (r: Vec<VersionContenido>)
    ensures
        r@ == v@,
{
    let mut r: Vec<VersionContenido> = Vec::new();
    let mut i: usize = 0;
    while i < v.len()
        invariant
            i <= v@.len(),
            r@ == v@.take(i as int),
        decreases v@.len() - i,
    {
        r.push(v[i].clonar());
        proof {
            assert(r@ =~= v@.take(i + 1));
        }
        i += 1;
    }
    proof {
        assert(v@.take(v@.len() as int) =~= v@);
    }
    r
}

/// The registry itself: the four persisted collections, owned as explicit
/// store handles. Each method mirrors one host entry point; readings of the
/// collaborator clock are handed in as plain values.
pub struct Contract {
    creadores: Vec<(String, Creador)>,
    contenidos: Vec<(String, Vec<Contenido>)>,
    historial: Vec<(String, Vec<HistorialEliminacion>)>,
    versiones: Vec<(String, Vec<VersionContenido>)>,
}

impl Contract {
    /// Well-formedness: each collection keys its entries by distinct wallets.
    pub closed spec fn wf(self) -> bool {
        &&& claves_unicas(self.creadores@)
        &&& claves_unicas(self.contenidos@)
        &&& claves_unicas(self.historial@)
        &&& claves_unicas(self.versiones@)
    }

    /// The abstract state that the step functions of [`crate::estado`] speak
    /// about.
    pub closed spec fn estado(self) -> Estado {
        Estado {
            creadores: alist_mapa(self.creadores@),
            contenidos: alist_mapa(self.contenidos@),
            historial: alist_mapa(self.historial@),
            versiones: alist_mapa(self.versiones@),
        }
    }

    /// An empty registry: no creators, no content, no history.
    pub fn nuevo() -> (r: Contract)
        ensures
            r.wf(),
            r.estado() == (Estado {
                creadores: Map::empty(),
                contenidos: Map::empty(),
                historial: Map::empty(),
                versiones: Map::empty(),
            }),
            r.orden_wallets() == Seq::<Seq<char>>::empty(),
    {
        let r = Contract {
            creadores: Vec::new(),
            contenidos: Vec::new(),
            historial: Vec::new(),
            versiones: Vec::new(),
        };
        proof {
            assert(r.estado().creadores =~= Map::<Seq<char>, VistaCreador>::empty());
            assert(r.estado().contenidos =~= Map::<Seq<char>, Seq<VistaContenido>>::empty());
            assert(r.estado().historial =~= Map::<Seq<char>, Seq<VistaEliminacion>>::empty());
            assert(r.estado().versiones =~= Map::<Seq<char>, Seq<VistaVersion>>::empty());
            assert(r.orden_wallets() =~= Seq::<Seq<char>>::empty());
        }
        r
    }

    /// Registers a creator under a wallet identifier: fails with
    /// `DuplicateCreator` iff the wallet is already registered, and otherwise
    /// stores the profile with empty social links.
    pub fn registrar_creador(
        &mut self,
        nombre: String,
        correo: String,
        direccion_wallet: String,
    ) -> (r: Result<(), Error>)
        requires
            old(self).wf(),
        ensures
            final(self).wf(),
            r == paso_registrar(old(self).estado(), nombre@, correo@, direccion_wallet@).0,
            final(self).estado() == paso_registrar(
                old(self).estado(),
                nombre@,
                correo@,
                direccion_wallet@,
            ).1,
            final(self).orden_wallets() == old(self).orden_wallets(),
    {
        match indice_clave(&self.creadores, &direccion_wallet) {
            Some(i) => {
                proof {
                    assert(alist_tiene(self.creadores@, direccion_wallet@));
                }
                Err(Error::DuplicateCreator)
            },
            None => {
                let nuevo = Creador { username: nombre, email: correo, redes: None };
                let ghost antes = self.creadores@;
                let ghost entrada = (direccion_wallet, nuevo);
                proof {
                    lema_inserta_nueva(antes, entrada);
                }
                self.creadores.push((direccion_wallet, nuevo));
                proof {
                    assert(self.estado() =~= paso_registrar(
                        old(self).estado(),
                        nombre@,
                        correo@,
                        direccion_wallet@,
                    ).1);
                }
                Ok(())
            },
        }
    }

    /// Removes a creator: confirmation is checked before existence, and only
    /// the creator entry is deleted — content and history stay addressable.
    pub fn eliminar_creador(&mut self, direccion_wallet: String, confirmar: bool) -> (r:
        Result<(), Error>)
        requires
            old(self).wf(),
        ensures
            final(self).wf(),
            r == paso_eliminar(old(self).estado(), direccion_wallet@, confirmar).0,
            final(self).estado() == paso_eliminar(
                old(self).estado(),
                direccion_wallet@,
                confirmar,
            ).1,
            final(self).orden_wallets() == old(self).orden_wallets(),
    {
        if !confirmar {
            return Err(Error::Unconfirmed);
        }
        match indice_clave(&self.creadores, &direccion_wallet) {
            None => Err(Error::CreatorNotFound),
            Some(i) => {
                let ghost antes = self.creadores@;
                proof {
                    assert(alist_tiene(antes, direccion_wallet@));
                    lema_quita(antes, i as int);
                }
                self.creadores.remove(i);
                proof {
                    assert(self.estado() =~= paso_eliminar(
                        old(self).estado(),
                        direccion_wallet@,
                        confirmar,
                    ).1);
                }
                Ok(())
            },
        }
    }

    /// Replaces the whole profile stored under a wallet; fails with
    /// `CreatorNotFound` iff the wallet is not registered.
    pub fn actualizar_perfil(
        &mut self,
        direccion_wallet: String,
        nuevo_nombre: String,
        nuevo_correo: String,
        nuevas_redes: Option<String>,
    ) -> (r: Result<(), Error>)
        requires
            old(self).wf(),
        ensures
            final(self).wf(),
            r == paso_actualizar(
                old(self).estado(),
                direccion_wallet@,
                nuevo_nombre@,
                nuevo_correo@,
                nuevas_redes.deep_view(),
            ).0,
            final(self).estado() == paso_actualizar(
                old(self).estado(),
                direccion_wallet@,
                nuevo_nombre@,
                nuevo_correo@,
                nuevas_redes.deep_view(),
            ).1,
            final(self).orden_wallets() == old(self).orden_wallets(),
    {
        match indice_clave(&self.creadores, &direccion_wallet) {
            None => Err(Error::CreatorNotFound),
            Some(i) => {
                proof {
                    assert(alist_tiene(self.creadores@, direccion_wallet@));
                }
                let ghost antes = self.creadores@;
                let actualizado = Creador {
                    username: nuevo_nombre,
                    email: nuevo_correo,
                    redes: nuevas_redes,
                };
                let entrada = self.creadores.remove(i);
                let clave = entrada.0;
                self.creadores.insert(i, (clave, actualizado));
                proof {
                    assert(self.creadores@ =~= antes.update(i as int, self.creadores@[i as int]));
                    lema_actualiza(antes, i as int, self.creadores@[i as int]);
                    assert(self.estado() =~= paso_actualizar(
                        old(self).estado(),
                        direccion_wallet@,
                        nuevo_nombre@,
                        nuevo_correo@,
                        nuevas_redes.deep_view(),
                    ).1);
                }
                Ok(())
            },
        }
    }

    /// Publishes a content item under a registered wallet. Fails with
    /// `CreatorNotFound` iff the wallet is not registered, then with
    /// `InvalidUrl` iff the URL does not pass the authentication rule; on
    /// success the item is appended to the wallet's list with `autenticado`
    /// recomputed from the URL.
    pub fn alta_contenido(
        &mut self,
        direccion_wallet: String,
        titulo: String,
        descripcion: String,
        url_archivo: String,
    ) -> (r: Result<(), Error>)
        requires
            old(self).wf(),
        ensures
            final(self).wf(),
            r == paso_alta(
                old(self).estado(),
                direccion_wallet@,
                titulo@,
                descripcion@,
                url_archivo@,
            ).0,
            final(self).estado() == paso_alta(
                old(self).estado(),
                direccion_wallet@,
                titulo@,
                descripcion@,
                url_archivo@,
            ).1,
            final(self).orden_wallets() == (if paso_alta(
                old(self).estado(),
                direccion_wallet@,
                titulo@,
                descripcion@,
                url_archivo@,
            ).0 is Ok && !old(self).estado().contenidos.dom().contains(direccion_wallet@) {
                old(self).orden_wallets().push(direccion_wallet@)
            } else {
                old(self).orden_wallets()
            }),
    {
        match indice_clave(&self.creadores, &direccion_wallet) {
            None => {
                return Err(Error::CreatorNotFound);
            },
            Some(i) => {
                proof {
                    assert(alist_tiene(self.creadores@, direccion_wallet@));
                }
            },
        }
        let letras_url = a_caracteres(url_archivo.as_str());
        if letras_url.len() <= LARGO_MINIMO_URL {
            return Err(Error::InvalidUrl);
        }
        let item = Contenido { titulo, descripcion, url_archivo, autenticado: true };
        let ghost item_g = item;
        match indice_clave(&self.contenidos, &direccion_wallet) {
            Some(i) => {
                let ghost antes = self.contenidos@;
                proof {
                    lema_valor_en(antes, i as int);
                }
                let entrada = self.contenidos.remove(i);
                let clave = entrada.0;
                let mut lista = entrada.1;
                let ghost lista_antes = lista;
                lista.push(item);
                let ghost lista_nueva = lista;
                self.contenidos.insert(i, (clave, lista));
                proof {
                    lema_vista_push(lista_antes, lista_nueva, item_g);
                    assert(self.contenidos@ =~= antes.update(i as int, (clave, lista_nueva)));
                    lema_actualiza(antes, i as int, (clave, lista_nueva));
                    assert(self.estado() =~= paso_alta(
                        old(self).estado(),
                        direccion_wallet@,
                        titulo@,
                        descripcion@,
                        url_archivo@,
                    ).1);
                    assert(self.orden_wallets() =~= old(self).orden_wallets());
                }
                Ok(())
            },
            None => {
                let mut lista: Vec<Contenido> = Vec::new();
                lista.push(item);
                let ghost lista_nueva = lista;
                let ghost antes = self.contenidos@;
                self.contenidos.push((direccion_wallet, lista));
                proof {
                    lema_inserta_nueva(antes, (self.contenidos@.last().0, lista_nueva));
                    assert(self.contenidos@ =~= antes.push(
                        (self.contenidos@.last().0, lista_nueva),
                    ));
                    assert(lista_nueva.deep_view() =~= Seq::<VistaContenido>::empty().push(
                        item_g.deep_view(),
                    ));
                    assert(self.estado() =~= paso_alta(
                        old(self).estado(),
                        direccion_wallet@,
                        titulo@,
                        descripcion@,
                        url_archivo@,
                    ).1);
                    assert(self.orden_wallets() =~= old(self).orden_wallets().push(
                        direccion_wallet@,
                    ));
                }
                Ok(())
            },
        }
    }

    /// Retracts the first content item carrying the title. Confirmation is
    /// checked first; on success the item leaves the list (later items keep
    /// their order) and a deletion snapshot, stamped with the collaborator
    /// clock's reading `marca_tiempo`, is appended to the wallet's history.
    pub fn baja_contenido(
        &mut self,
        direccion_wallet: String,
        titulo: String,
        confirmar: bool,
        marca_tiempo: u64,
    ) -> (r: Result<(), Error>)
        requires
            old(self).wf(),
        ensures
            final(self).wf(),
            r == paso_baja(
                old(self).estado(),
                direccion_wallet@,
                titulo@,
                confirmar,
                marca_tiempo,
            ).0,
            final(self).estado() == paso_baja(
                old(self).estado(),
                direccion_wallet@,
                titulo@,
                confirmar,
                marca_tiempo,
            ).1,
            final(self).orden_wallets() == old(self).orden_wallets(),
    {
        if !confirmar {
            return Err(Error::Unconfirmed);
        }
        let indice_entrada = match indice_clave(&self.contenidos, &direccion_wallet) {
            None => {
                return Err(Error::ContentNotFound);
            },
            Some(i) => i,
        };
        proof {
            assert(alist_tiene(self.contenidos@, direccion_wallet@));
            lema_valor_en(self.contenidos@, indice_entrada as int);
        }
        let pos = match indice_titulo(&self.contenidos[indice_entrada].1, &titulo) {
            None => {
                return Err(Error::ContentNotFound);
            },
            Some(j) => j,
        };
        let ghost antes = self.contenidos@;
        let entrada = self.contenidos.remove(indice_entrada);
        let clave = entrada.0;
        let mut lista = entrada.1;
        let ghost lista_antes = lista;
        let quitado = lista.remove(pos);
        let ghost lista_sin = lista;
        self.contenidos.insert(indice_entrada, (clave, lista));
        proof {
            lema_vista_quita(lista_antes, lista_sin, pos as int);
            assert(self.contenidos@ =~= antes.update(indice_entrada as int, (clave, lista_sin)));
            lema_actualiza(antes, indice_entrada as int, (clave, lista_sin));
        }
        let registro = HistorialEliminacion {
            titulo: quitado.titulo,
            descripcion: quitado.descripcion,
            timestamp: marca_tiempo,
        };
        let ghost registro_g = registro;
        match indice_clave(&self.historial, &direccion_wallet) {
            Some(h) => {
                let ghost antes_h = self.historial@;
                proof {
                    lema_valor_en(antes_h, h as int);
                }
                let entrada_h = self.historial.remove(h);
                let clave_h = entrada_h.0;
                let mut registros = entrada_h.1;
                let ghost registros_antes = registros;
                registros.push(registro);
                let ghost registros_nuevos = registros;
                self.historial.insert(h, (clave_h, registros));
                proof {
                    lema_vista_push(registros_antes, registros_nuevos, registro_g);
                    assert(self.historial@ =~= antes_h.update(
                        h as int,
                        (clave_h, registros_nuevos),
                    ));
                    lema_actualiza(antes_h, h as int, (clave_h, registros_nuevos));
                }
            },
            None => {
                let mut registros: Vec<HistorialEliminacion> = Vec::new();
                registros.push(registro);
                let ghost registros_nuevos = registros;
                let ghost antes_h = self.historial@;
                self.historial.push((direccion_wallet, registros));
                proof {
                    lema_inserta_nueva(antes_h, (self.historial@.last().0, registros_nuevos));
                    assert(self.historial@ =~= antes_h.push(
                        (self.historial@.last().0, registros_nuevos),
                    ));
                    assert(registros_nuevos.deep_view() =~= Seq::<VistaEliminacion>::empty().push(
                        registro_g.deep_view(),
                    ));
                }
            },
        }
        proof {
            assert(self.estado() =~= paso_baja(
                old(self).estado(),
                direccion_wallet@,
                titulo@,
                confirmar,
                marca_tiempo,
            ).1);
            assert(self.orden_wallets() =~= old(self).orden_wallets());
        }
        Ok(())
    }

    /// Updates the first content item carrying the old title. A version
    /// snapshot of the pre-update item, stamped with the collaborator clock's
    /// reading, is recorded before the new URL is validated, so the snapshot
    /// persists even when the call then fails with `InvalidUrl`; on success
    /// the item is replaced in place at its original position.
    pub fn modificar_contenido(
        &mut self,
        direccion_wallet: String,
        titulo_antiguo: String,
        nuevo_titulo: String,
        nueva_descripcion: String,
        nueva_url: String,
        marca_tiempo: u64,
    ) -> (r: Result<(), Error>)
        requires
            old(self).wf(),
        ensures
            final(self).wf(),
            r == paso_modificar(
                old(self).estado(),
                direccion_wallet@,
                titulo_antiguo@,
                nuevo_titulo@,
                nueva_descripcion@,
                nueva_url@,
                marca_tiempo,
            ).0,
            final(self).estado() == paso_modificar(
                old(self).estado(),
                direccion_wallet@,
                titulo_antiguo@,
                nuevo_titulo@,
                nueva_descripcion@,
                nueva_url@,
                marca_tiempo,
            ).1,
            final(self).orden_wallets() == old(self).orden_wallets(),
    {
        let indice_entrada = match indice_clave(&self.contenidos, &direccion_wallet) {
            None => {
                return Err(Error::ContentNotFound);
            },
            Some(i) => i,
        };
        proof {
            assert(alist_tiene(self.contenidos@, direccion_wallet@));
            lema_valor_en(self.contenidos@, indice_entrada as int);
        }
        let pos = match indice_titulo(&self.contenidos[indice_entrada].1, &titulo_antiguo) {
            None => {
                return Err(Error::ContentNotFound);
            },
            Some(j) => j,
        };
        let anterior = &self.contenidos[indice_entrada].1[pos];
        let version = VersionContenido {
            titulo: anterior.titulo.clone(),
            descripcion: anterior.descripcion.clone(),
            url_archivo: anterior.url_archivo.clone(),
            timestamp: marca_tiempo,
        };
        let ghost version_g = version;
        match indice_clave(&self.versiones, &direccion_wallet) {
            Some(h) => {
                let ghost antes_v = self.versiones@;
                proof {
                    lema_valor_en(antes_v, h as int);
                }
                let entrada_v = self.versiones.remove(h);
                let clave_v = entrada_v.0;
                let mut historia = entrada_v.1;
                let ghost historia_antes = historia;
                historia.push(version);
                let ghost historia_nueva = historia;
                self.versiones.insert(h, (clave_v, historia));
                proof {
                    lema_vista_push(historia_antes, historia_nueva, version_g);
                    assert(self.versiones@ =~= antes_v.update(
                        h as int,
                        (clave_v, historia_nueva),
                    ));
                    lema_actualiza(antes_v, h as int, (clave_v, historia_nueva));
                }
            },
            None => {
                let mut historia: Vec<VersionContenido> = Vec::new();
                historia.push(version);
                let ghost historia_nueva = historia;
                let ghost antes_v = self.versiones@;
                self.versiones.push((direccion_wallet.clone(), historia));
                proof {
                    lema_inserta_nueva(antes_v, (self.versiones@.last().0, historia_nueva));
                    assert(self.versiones@ =~= antes_v.push(
                        (self.versiones@.last().0, historia_nueva),
                    ));
                    assert(historia_nueva.deep_view() =~= Seq::<VistaVersion>::empty().push(
                        version_g.deep_view(),
                    ));
                }
            },
        }
        let letras_url = a_caracteres(nueva_url.as_str());
        if letras_url.len() <= LARGO_MINIMO_URL {
            proof {
                assert(self.estado() =~= paso_modificar(
                    old(self).estado(),
                    direccion_wallet@,
                    titulo_antiguo@,
                    nuevo_titulo@,
                    nueva_descripcion@,
                    nueva_url@,
                    marca_tiempo,
                ).1);
            }
            return Err(Error::InvalidUrl);
        }
        let nuevo = Contenido {
            titulo: nuevo_titulo,
            descripcion: nueva_descripcion,
            url_archivo: nueva_url,
            autenticado: true,
        };
        let ghost nuevo_g = nuevo;
        let ghost antes = self.contenidos@;
        let entrada = self.contenidos.remove(indice_entrada);
        let clave = entrada.0;
        let mut lista = entrada.1;
        let ghost lista_antes = lista;
        let _ = lista.remove(pos);
        lista.insert(pos, nuevo);
        let ghost lista_nueva = lista;
        self.contenidos.insert(indice_entrada, (clave, lista));
        proof {
            assert(lista_nueva@ =~= lista_antes@.update(pos as int, nuevo_g));
            lema_vista_actualiza(lista_antes, lista_nueva, pos as int, nuevo_g);
            assert(self.contenidos@ =~= antes.update(indice_entrada as int, (clave, lista_nueva)));
            lema_actualiza(antes, indice_entrada as int, (clave, lista_nueva));
            assert(self.estado() =~= paso_modificar(
                old(self).estado(),
                direccion_wallet@,
                titulo_antiguo@,
                nuevo_titulo@,
                nueva_descripcion@,
                nueva_url@,
                marca_tiempo,
            ).1);
            assert(self.orden_wallets() =~= old(self).orden_wallets());
        }
        Ok(())
    }

    /// The wallets of the content collection in creator iteration order: the
    /// order in which the search walks the store. Every operation's contract
    /// states how it changes this order, so search results follow from the
    /// contracts alone: publishing under a wallet without an entry appends
    /// the wallet, and nothing else moves or drops one.
    pub closed spec fn orden_wallets(self) -> Seq<Seq<char>> {
        self.contenidos@.map_values(|e: (String, Vec<Contenido>)| e.0@)
    }

    /// The content lists in creator iteration order, as the search walks
    /// them.
    spec fn listas_contenido(self) -> Seq<Seq<VistaContenido>> {
        self.contenidos@.map_values(|e: (String, Vec<Contenido>)| e.1.deep_view())
    }

    /// For a well-formed registry, the walked lists are exactly the stored
    /// map read along the wallet iteration order.
    proof fn lema_listas_ordenadas(self)
        requires
            self.wf(),
        ensures
            self.listas_contenido() == self.orden_wallets().map_values(
                |w: Seq<char>| lista_o(self.estado().contenidos, w),
            ),
    {
        let a = self.listas_contenido();
        let b = self.orden_wallets().map_values(
            |w: Seq<char>| lista_o(self.estado().contenidos, w),
        );
        assert forall|i: int| 0 <= i < a.len() implies a[i] == b[i] by {
            lema_valor_en(self.contenidos@, i);
        }
        assert(a =~= b);
    }

    /// Case-insensitive substring search over every creator's items, against
    /// title and description; matches come back in encounter order (creator
    /// iteration order, list order within a creator), without deduplication
    /// or ranking. The result is fixed by the stored map and the public
    /// wallet iteration order.
    pub fn consultar_contenido(&self, criterio: String) -> (r: Vec<Contenido>)
        requires
            self.wf(),
        ensures
            r.deep_view() == busqueda_ordenada(
                self.estado().contenidos,
                self.orden_wallets(),
                plegada(criterio@),
            ),
    {
        proof {
            self.lema_listas_ordenadas();
        }
        let consulta = plegar_str(criterio.as_str());
        let mut r: Vec<Contenido> = Vec::new();
        let mut i: usize = 0;
        proof {
            assert(self.listas_contenido().take(0) =~= Seq::<Seq<VistaContenido>>::empty());
        }
        while i < self.contenidos.len()
            invariant
                i <= self.contenidos@.len(),
                self.listas_contenido().len() == self.contenidos@.len(),
                consulta@ == plegada(criterio@),
                r.deep_view() == busqueda(self.listas_contenido().take(i as int), consulta@),
            decreases self.contenidos@.len() - i,
        {
            let lista = &self.contenidos[i].1;
            let mut j: usize = 0;
            proof {
                assert(lista.deep_view() == self.listas_contenido()[i as int]);
                assert(lista.deep_view().take(0) =~= Seq::<VistaContenido>::empty());
            }
            while j < lista.len()
                invariant
                    i < self.contenidos@.len(),
                    self.listas_contenido().len() == self.contenidos@.len(),
                    lista.deep_view() == self.listas_contenido()[i as int],
                    lista.deep_view().len() == lista@.len(),
                    j <= lista@.len(),
                    consulta@ == plegada(criterio@),
                    r.deep_view() == busqueda(self.listas_contenido().take(i as int), consulta@)
                        + filtra(lista.deep_view().take(j as int), consulta@),
                decreases lista@.len() - j,
            {
                let c = &lista[j];
                let ghost r_antes = r;
                proof {
                    assert(c.deep_view() == lista.deep_view()[j as int]);
                }
                let tp = plegar_str(c.titulo.as_str());
                let dp = plegar_str(c.descripcion.as_str());
                let pega = contiene_sub(&tp, &consulta) || contiene_sub(&dp, &consulta);
                proof {
                    assert(pega == coincide_consulta(lista.deep_view()[j as int], consulta@));
                }
                if pega {
                    r.push(c.clonar());
                    proof {
                        lema_vista_push(r_antes, r, *c);
                    }
                }
                proof {
                    lema_filtra_paso(lista.deep_view(), consulta@, j as int);
                    if pega {
                        assert(r.deep_view() =~= busqueda(
                            self.listas_contenido().take(i as int),
                            consulta@,
                        ) + filtra(lista.deep_view().take(j + 1), consulta@));
                    } else {
                        assert(filtra(lista.deep_view().take(j + 1), consulta@) =~= filtra(
                            lista.deep_view().take(j as int),
                            consulta@,
                        ));
                    }
                }
                j += 1;
            }
            proof {
                assert(lista.deep_view().take(lista@.len() as int) =~= lista.deep_view());
                lema_busqueda_paso(self.listas_contenido(), consulta@, i as int);
            }
            i += 1;
        }
        proof {
            assert(self.listas_contenido().take(self.contenidos@.len() as int)
                =~= self.listas_contenido());
        }
        r
    }

    /// The content list stored for a wallet, empty when it has none; a pure
    /// read.
    pub fn contenidos_de(&self, direccion_wallet: String) -> (r: Vec<Contenido>)
        requires
            self.wf(),
        ensures
            r.deep_view() == lista_o(self.estado().contenidos, direccion_wallet@),
    {
        match indice_clave(&self.contenidos, &direccion_wallet) {
            None => {
                let r: Vec<Contenido> = Vec::new();
                proof {
                    assert(r.deep_view() =~= Seq::<VistaContenido>::empty());
                }
                r
            },
            Some(i) => {
                proof {
                    lema_valor_en(self.contenidos@, i as int);
                }
                clonar_contenidos(&self.contenidos[i].1)
            },
        }
    }

    /// The deletion history recorded for a wallet, oldest first; a pure read.
    pub fn historial_de(&self, direccion_wallet: String) -> (r: Vec<HistorialEliminacion>)
        requires
            self.wf(),
        ensures
            r.deep_view() == lista_o(self.estado().historial, direccion_wallet@),
    {
        match indice_clave(&self.historial, &direccion_wallet) {
            None => {
                let r: Vec<HistorialEliminacion> = Vec::new();
                proof {
                    assert(r.deep_view() =~= Seq::<VistaEliminacion>::empty());
                }
                r
            },
            Some(i) => {
                proof {
                    lema_valor_en(self.historial@, i as int);
                }
                clonar_historial(&self.historial[i].1)
            },
        }
    }

    /// The version history recorded for a wallet, oldest first; a pure read.
    pub fn versiones_de(&self, direccion_wallet: String) -> (r: Vec<VersionContenido>)
        requires
            self.wf(),
        ensures
            r.deep_view() == lista_o(self.estado().versiones, direccion_wallet@),
    {
        match indice_clave(&self.versiones, &direccion_wallet) {
            None => {
                let r: Vec<VersionContenido> = Vec::new();
                proof {
                    assert(r.deep_view() =~= Seq::<VistaVersion>::empty());
                }
                r
            },
            Some(i) => {
                proof {
                    lema_valor_en(self.versiones@, i as int);
                }
                clonar_versiones(&self.versiones[i].1)
            },
        }
    }

    /// The moderation filter: a pure, stateless check. Returns true iff the
    /// item's description passes the banned-term rule.
    pub fn revisar_contenido(contenido: Contenido) -> (r: bool)
        ensures
            r == descripcion_aprobada(contenido.descripcion@),
    {
        let dp = plegar_str(contenido.descripcion.as_str());
        let t1 = a_caracteres("pornografía");
        let t2 = a_caracteres("violencia");
        let t3 = a_caracteres("odio");
        let rechazado = contiene_sub(&dp, &t1) || contiene_sub(&dp, &t2) || contiene_sub(
            &dp,
            &t3,
        );
        !rechazado
    }

    /// Looks a creator up; a pure read with no failure case.
    pub fn consultar_creador(&self, direccion_wallet: String) -> (r: Option<Creador>)
        requires
            self.wf(),
        ensures
            r is Some <==> self.estado().creadores.dom().contains(direccion_wallet@),
            r matches Some(c) ==> c.deep_view() == self.estado().creadores[direccion_wallet@],
    {
        match indice_clave(&self.creadores, &direccion_wallet) {
            None => None,
            Some(i) => {
                proof {
                    lema_valor_en(self.creadores@, i as int);
                }
                Some(self.creadores[i].1.clonar())
            },
        }
    }
}

} // verus!
