use vstd::prelude::*;

verus! {

/// A creator profile: the fields stored under a wallet identifier.
#[derive(Debug)]
pub struct Creador {
    pub username: String,
    pub email: String,
    pub redes: Option<String>,
}

/// Mathematical image of a [`Creador`].
#[verifier::ext_equal]
pub struct VistaCreador {
    pub username: Seq<char>,
    pub email: Seq<char>,
    pub redes: Option<Seq<char>>,
}

impl DeepView for Creador {
    type V = VistaCreador;

    open spec fn deep_view(&self) -> VistaCreador {
        VistaCreador {
            username: self.username@,
            email: self.email@,
            redes: self.redes.deep_view(),
        }
    }
}

impl Creador {
    /// Explicit deep copy: the copy equals the original.
    pub fn clonar(&self) -> (r: Creador)
        ensures
            r == *self,
    {
        Creador {
            username: self.username.clone(),
            email: self.email.clone(),
            redes: match &self.redes {
                Some(s) => Some(s.clone()),
                None => None,
            },
        }
    }
}

/// A published content item, held in its creator's ordered list.
#[derive(Debug)]
pub struct Contenido {
    pub titulo: String,
    pub descripcion: String,
    pub url_archivo: String,
    pub autenticado: bool,
}

/// Mathematical image of a [`Contenido`].
#[verifier::ext_equal]
pub struct VistaContenido {
    pub titulo: Seq<char>,
    pub descripcion: Seq<char>,
    pub url_archivo: Seq<char>,
    pub autenticado: bool,
}

impl DeepView for Contenido {
    type V = VistaContenido;

    open spec fn deep_view(&self) -> VistaContenido {
        VistaContenido {
            titulo: self.titulo@,
            descripcion: self.descripcion@,
            url_archivo: self.url_archivo@,
            autenticado: self.autenticado,
        }
    }
}

impl Contenido {
    /// Explicit deep copy: the copy equals the original.
    pub fn clonar(&self) -> (r: Contenido)
        ensures
            r == *self,
    {
        Contenido {
            titulo: self.titulo.clone(),
            descripcion: self.descripcion.clone(),
            url_archivo: self.url_archivo.clone(),
            autenticado: self.autenticado,
        }
    }
}

/// Immutable snapshot taken just before a content item is removed.
#[derive(Debug)]
pub struct HistorialEliminacion {
    pub titulo: String,
    pub descripcion: String,
    pub timestamp: u64,
}

/// Mathematical image of a [`HistorialEliminacion`].
#[verifier::ext_equal]
pub struct VistaEliminacion {
    pub titulo: Seq<char>,
    pub descripcion: Seq<char>,
    pub timestamp: u64,
}

impl DeepView for HistorialEliminacion {
    type V = VistaEliminacion;

    open spec fn deep_view(&self) -> VistaEliminacion {
        VistaEliminacion {
            titulo: self.titulo@,
            descripcion: self.descripcion@,
            timestamp: self.timestamp,
        }
    }
}

impl HistorialEliminacion {
    /// Explicit deep copy: the copy equals the original.
    pub fn clonar(&self) -> (r: HistorialEliminacion)
        ensures
            r == *self,
    {
        HistorialEliminacion {
            titulo: self.titulo.clone(),
            descripcion: self.descripcion.clone(),
            timestamp: self.timestamp,
        }
    }
}

/// Immutable snapshot of a content item taken just before an update.
#[derive(Debug)]
pub struct VersionContenido {
    pub titulo: String,
    pub descripcion: String,
    pub url_archivo: String,
    pub timestamp: u64,
}

/// Mathematical image of a [`VersionContenido`].
#[verifier::ext_equal]
pub struct VistaVersion {
    pub titulo: Seq<char>,
    pub descripcion: Seq<char>,
    pub url_archivo: Seq<char>,
    pub timestamp: u64,
}

impl DeepView for VersionContenido {
    type V = VistaVersion;

    open spec fn deep_view(&self) -> VistaVersion {
        VistaVersion {
            titulo: self.titulo@,
            descripcion: self.descripcion@,
            url_archivo: self.url_archivo@,
            timestamp: self.timestamp,
        }
    }
}

impl VersionContenido {
    /// Explicit deep copy: the copy equals the original.
    pub fn clonar(&self) -> (r: VersionContenido)
        ensures
            r == *self,
    {
        VersionContenido {
            titulo: self.titulo.clone(),
            descripcion: self.descripcion.clone(),
            url_archivo: self.url_archivo.clone(),
            timestamp: self.timestamp,
        }
    }
}

} // verus!
