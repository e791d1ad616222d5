//! Installing one library for `ump add` or `ump upgrade`, step by step.
//! Each step says what to fetch, run or ask next; what comes back drives
//! the next step, until the installation ends.
use vstd::prelude::*;
use crate::agregar::{version_a_instalar, version_agregado, Solicitud};
use crate::comun::{
    compatibilidad, descargar_paquete, es_plan, primer_umbral, umbral_de_version, url_tags,
    url_tags_github, urls_umbral, validar_compatibilidad_umbral, vista_opcion, BusquedaUmbral,
    PlanDescarga, TagGithub,
};
use crate::texto::copiar;
use crate::upgrade::{destino, destino_upgrade, DestinoUpgrade, SolicitudUpgrade};

verus! {

/// How the installation of a library ended.
pub enum Desenlace {
    /// Installed: the library's name and version.
    Instalada((String, String)),
    /// The user said no.
    Cancelada,
    /// Nothing to do: the project already has the version asked for.
    YaEnVersion,
    /// Nothing to do: the project already has the latest version.
    AlDia,
    /// Stopped by this error.
    Fallo(String),
}

/// Where an installation stands.
pub enum Fase {
    /// Waiting for the repository's tags.
    Tags,
    /// Reading the Umbral requirement that the chosen version declares.
    Umbral,
    /// Waiting for what the installed Umbral reports.
    Local,
    /// Waiting for the user's answer.
    Confirmar,
    /// Waiting for the download.
    Descarga,
    /// Ended.
    Fin,
}

/// What the installation needs next.
pub enum Paso {
    /// The tags listed at this GitHub API address.
    ConsultarTags(String),
    /// The `umbral` field of the `umpkg.yml` at this address.
    LeerUmbral(String),
    /// What `umbral --version` prints.
    ConsultarUmbralLocal,
    /// The user's answer to the question whether to go on.
    Confirmar,
    /// The outcome of this download.
    Descargar(PlanDescarga),
    /// Nothing: the installation ended.
    Terminado,
}

/// What an installation knows: the library, its repository, the index's
/// Umbral requirement for it, the project's Umbral version, the version
/// asked for and the one the project has (upgrades only), where it stands,
/// the tags read, the version chosen, what was read of its declared Umbral
/// requirement, the requirement that holds, what the installed Umbral
/// reported, the user's answer, and how it ended.
pub struct VistaInstalacion {
    pub nombre: Seq<char>,
    pub repositorio: Seq<char>,
    pub respaldo: Seq<char>,
    pub umbral_proyecto: Seq<char>,
    pub pedida: Option<Seq<char>>,
    pub actual: Option<Seq<char>>,
    pub fase: Fase,
    pub tags: Seq<TagGithub>,
    pub version: Seq<char>,
    pub lecturas: Seq<Option<Seq<char>>>,
    pub requerido: Seq<char>,
    pub salida: Option<Seq<char>>,
    pub confirmo: bool,
    pub desenlace: Option<Desenlace>,
}

/// What the tags decide: for `ump add` (no current version) the version to
/// install; for `ump upgrade` where the dependency goes. `Ok((Some(v), _))`
/// goes on with `v`; `Ok((None, true))` ends with the version asked for
/// already there, `Ok((None, false))` with the latest already there.
pub open spec fn eleccion(actual: Option<Seq<char>>, pedida: Option<Seq<char>>, repositorio: Seq<char>, tags: Seq<TagGithub>) -> Result<(Option<Seq<char>>, bool), Seq<char>> {
    match actual {
        None => match version_a_instalar(repositorio, pedida, tags) {
            Ok(v) => Ok((Some(v), false)),
            Err(e) => Err(e),
        },
        Some(a) => destino(a, pedida, repositorio, tags),
    }
}

/// The Umbral requirement that holds: the first one declared by the
/// version, else the index's.
pub open spec fn requerido_de(lecturas: Seq<Option<Seq<char>>>, respaldo: Seq<char>) -> Seq<char> {
    match primer_umbral(lecturas) {
        Some(u) => u,
        None => respaldo,
    }
}

/// The next address to read the declared Umbral requirement from, if the
/// lookup goes on.
pub open spec fn por_leer(v: VistaInstalacion) -> Option<Seq<char>> {
    let urls = urls_umbral(v.repositorio, v.version);
    if primer_umbral(v.lecturas) is None && v.lecturas.len() < urls.len() {
        Some(urls[v.lecturas.len() as int])
    } else {
        None
    }
}

/// The version was chosen from the tags read.
pub open spec fn version_elegida(v: VistaInstalacion) -> bool {
    eleccion(v.actual, v.pedida, v.repositorio, v.tags) == Ok::<
        (Option<Seq<char>>, bool),
        Seq<char>,
    >((Some(v.version), false))
}

/// The Umbral requirement of the chosen version was looked up to the end
/// and is met.
pub open spec fn umbral_aceptado(v: VistaInstalacion) -> bool {
    &&& por_leer(v) is None
    &&& v.requerido == requerido_de(v.lecturas, v.respaldo)
    &&& compatibilidad(v.umbral_proyecto, v.requerido, v.salida) is Ok
}

/// What holds of an installation at every step.
pub open spec fn coherente(v: VistaInstalacion) -> bool {
    &&& (v.fase is Fin <==> v.desenlace is Some)
    &&& (v.fase is Tags ==> url_tags(v.repositorio) is Ok && v.lecturas.len() == 0 && !v.confirmo)
    &&& (v.fase is Umbral ==> version_elegida(v) && por_leer(v) is Some && !v.confirmo)
    &&& (v.fase is Local ==> version_elegida(v) && por_leer(v) is None && v.requerido
        == requerido_de(v.lecturas, v.respaldo) && !v.confirmo)
    &&& (v.fase is Confirmar ==> version_elegida(v) && umbral_aceptado(v) && !v.confirmo)
    &&& (v.fase is Descarga ==> version_elegida(v) && umbral_aceptado(v) && v.confirmo)
    &&& (v.desenlace matches Some(Desenlace::Instalada((m, w))) ==> m@ == v.nombre && w@
        == v.version && version_elegida(v) && umbral_aceptado(v) && v.confirmo)
}

/// The parts of an installation that no step changes.
pub open spec fn mismos_datos(a: VistaInstalacion, b: VistaInstalacion) -> bool {
    &&& a.nombre == b.nombre
    &&& a.repositorio == b.repositorio
    &&& a.respaldo == b.respaldo
    &&& a.umbral_proyecto == b.umbral_proyecto
    &&& a.pedida == b.pedida
    &&& a.actual == b.actual
}

/// The installation of one library.
pub struct Instalacion {
    nombre: String,
    repositorio: String,
    respaldo: String,
    umbral_proyecto: String,
    pedida: Option<String>,
    actual: Option<String>,
    url: String,
    fase: Fase,
    tags: Ghost<Seq<TagGithub>>,
    version: String,
    busqueda: BusquedaUmbral,
    requerido: String,
    salida: Ghost<Option<Seq<char>>>,
    confirmo: bool,
    desenlace: Option<Desenlace>,
}

impl View for Instalacion {
    type V = VistaInstalacion;

    closed spec fn view(&self) -> VistaInstalacion {
        VistaInstalacion {
            nombre: self.nombre@,
            repositorio: self.repositorio@,
            respaldo: self.respaldo@,
            umbral_proyecto: self.umbral_proyecto@,
            pedida: vista_opcion(self.pedida),
            actual: vista_opcion(self.actual),
            fase: self.fase,
            tags: self.tags@,
            version: self.version@,
            lecturas: self.busqueda.leidas(),
            requerido: self.requerido@,
            salida: self.salida@,
            confirmo: self.confirmo,
            desenlace: self.desenlace,
        }
    }
}

impl Instalacion {
    /// The installation's invariant.
    pub closed spec fn wf(&self) -> bool {
        &&& self.busqueda.wf()
        &&& (self.fase is Tags ==> url_tags(self.repositorio@) == Ok::<Seq<char>, Seq<char>>(
            self.url@,
        ))
        &&& (!(self.fase is Tags) && !(self.fase is Fin) ==> self.busqueda.direcciones()
            == urls_umbral(self.repositorio@, self.version@))
        &&& (self.desenlace matches Some(Desenlace::Instalada(_)) ==> self.busqueda.direcciones()
            == urls_umbral(self.repositorio@, self.version@))
        &&& coherente(self@)
    }

    fn iniciar(
        nombre: String,
        repositorio: String,
        respaldo: String,
        umbral_proyecto: &str,
        pedida: Option<String>,
        actual: Option<String>,
    ) -> (r: Self)
        ensures
            r.wf(),
            r@.nombre == nombre@,
            r@.repositorio == repositorio@,
            r@.respaldo == respaldo@,
            r@.umbral_proyecto == umbral_proyecto@,
            r@.pedida == vista_opcion(pedida),
            r@.actual == vista_opcion(actual),
            r@.lecturas.len() == 0,
            !r@.confirmo,
            match url_tags(repositorio@) {
                Ok(_) => r@.fase is Tags,
                Err(e) => r@.fase is Fin && (r@.desenlace matches Some(Desenlace::Fallo(m))
                    && m@ == e),
            },
    {
        let busqueda = umbral_de_version("", "");
        let (url, fase, desenlace) = match url_tags_github(repositorio.as_str()) {
            Ok(u) => (u, Fase::Tags, None),
            Err(e) => (String::new(), Fase::Fin, Some(Desenlace::Fallo(e))),
        };
        Instalacion {
            nombre,
            repositorio,
            respaldo,
            umbral_proyecto: copiar(umbral_proyecto),
            pedida,
            actual,
            url,
            fase,
            tags: Ghost(Seq::empty()),
            version: String::new(),
            busqueda,
            requerido: String::new(),
            salida: Ghost(None),
            confirmo: false,
            desenlace,
        }
    }

    /// Starts `ump add` of the library asked for, in a project at Umbral
    /// `umbral_proyecto`. A repository that is not on GitHub ends it at
    /// once, with that error.
    pub fn agregar(s: Solicitud, umbral_proyecto: &str) -> (r: Self)
        ensures
            r.wf(),
            r@.nombre == s.nombre@,
            r@.repositorio == s.repositorio@,
            r@.respaldo == s.respaldo@,
            r@.umbral_proyecto == umbral_proyecto@,
            r@.pedida == vista_opcion(s.pedida),
            r@.actual is None,
            match url_tags(s.repositorio@) {
                Ok(_) => r@.fase is Tags,
                Err(e) => r@.fase is Fin && (r@.desenlace matches Some(Desenlace::Fallo(m))
                    && m@ == e),
            },
    {
        let Solicitud { nombre, pedida, repositorio, respaldo } = s;
        Self::iniciar(nombre, repositorio, respaldo, umbral_proyecto, pedida, None)
    }

    /// Starts `ump upgrade` of the dependency asked for, in a project at
    /// Umbral `umbral_proyecto`. A repository that is not on GitHub ends it
    /// at once, with that error.
    pub fn actualizar(s: SolicitudUpgrade, umbral_proyecto: &str) -> (r: Self)
        ensures
            r.wf(),
            r@.nombre == s.nombre@,
            r@.repositorio == s.repositorio@,
            r@.respaldo == s.respaldo@,
            r@.umbral_proyecto == umbral_proyecto@,
            r@.pedida == vista_opcion(s.pedida),
            r@.actual == Some(s.actual@),
            match url_tags(s.repositorio@) {
                Ok(_) => r@.fase is Tags,
                Err(e) => r@.fase is Fin && (r@.desenlace matches Some(Desenlace::Fallo(m))
                    && m@ == e),
            },
    {
        let SolicitudUpgrade { nombre, actual, pedida, repositorio, respaldo } = s;
        Self::iniciar(nombre, repositorio, respaldo, umbral_proyecto, pedida, Some(actual))
    }

    /// What the installation needs next.
    pub fn paso(&self) -> (r: Paso)
        requires
            self.wf(),
        ensures
            match self@.fase {
                Fase::Tags => r matches Paso::ConsultarTags(u) && url_tags(self@.repositorio)
                    == Ok::<Seq<char>, Seq<char>>(u@),
                Fase::Umbral => r matches Paso::LeerUmbral(u) && por_leer(self@) == Some(u@),
                Fase::Local => r is ConsultarUmbralLocal,
                Fase::Confirmar => r is Confirmar,
                Fase::Descarga => r matches Paso::Descargar(p) && es_plan(
                    p,
                    self@.nombre,
                    self@.repositorio,
                    self@.version,
                    "modules_ump"@,
                ),
                Fase::Fin => r is Terminado,
            },
    {
        match &self.fase {
            Fase::Tags => Paso::ConsultarTags(copiar(self.url.as_str())),
            Fase::Umbral => match self.busqueda.pendiente() {
                Some(u) => Paso::LeerUmbral(u),
                None => Paso::Terminado,
            },
            Fase::Local => Paso::ConsultarUmbralLocal,
            Fase::Confirmar => Paso::Confirmar,
            Fase::Descarga => Paso::Descargar(
                descargar_paquete(
                    self.nombre.as_str(),
                    self.repositorio.as_str(),
                    self.version.as_str(),
                    "modules_ump",
                ),
            ),
            Fase::Fin => Paso::Terminado,
        }
    }

    /// Moves on from a lookup of the declared Umbral requirement: to the
    /// next address, or, with none left, to the installed Umbral.
    fn avanzar_umbral(&mut self)
        requires
            old(self).busqueda.wf(),
            old(self).busqueda.direcciones() == urls_umbral(
                old(self).repositorio@,
                old(self).version@,
            ),
            version_elegida(old(self)@),
            old(self).desenlace is None,
            !old(self).confirmo,
        ensures
            final(self).wf(),
            mismos_datos(final(self)@, old(self)@),
            final(self)@.tags == old(self)@.tags,
            final(self)@.version == old(self)@.version,
            final(self)@.lecturas == old(self)@.lecturas,
            final(self)@.salida == old(self)@.salida,
            !final(self)@.confirmo,
            final(self)@.desenlace is None,
            final(self)@.fase == if por_leer(old(self)@) is Some {
                Fase::Umbral
            } else {
                Fase::Local
            },
            por_leer(old(self)@) is None ==> final(self)@.requerido == requerido_de(
                old(self)@.lecturas,
                old(self)@.respaldo,
            ),
    {
        match self.busqueda.pendiente() {
            Some(_) => {
                self.fase = Fase::Umbral;
            },
            None => {
                self.requerido = self.busqueda.resultado_o(self.respaldo.as_str());
                self.fase = Fase::Local;
            },
        }
    }

    /// Ends the installation.
    fn terminar_con(&mut self, d: Desenlace)
        requires
            !(d is Instalada),
        ensures
            mismos_datos(final(self)@, old(self)@),
            final(self)@.tags == old(self)@.tags,
            final(self)@.version == old(self)@.version,
            final(self)@.lecturas == old(self)@.lecturas,
            final(self)@.requerido == old(self)@.requerido,
            final(self)@.salida == old(self)@.salida,
            final(self)@.confirmo == old(self)@.confirmo,
            final(self)@.fase is Fin,
            final(self)@.desenlace == Some(d),
            old(self).busqueda.wf() ==> final(self).wf(),
    {
        self.fase = Fase::Fin;
        self.desenlace = Some(d);
    }

    /// Takes the repository's tags (or the error of fetching them) and
    /// chooses the version: for `ump add` the one asked for, once found
    /// among the tags, else the latest; for `ump upgrade` its destination,
    /// which may end it with nothing to do.
    pub fn con_tags(&mut self, tags: Result<Vec<TagGithub>, String>)
        requires
            old(self).wf(),
            old(self)@.fase is Tags,
        ensures
            final(self).wf(),
            mismos_datos(final(self)@, old(self)@),
            final(self)@.lecturas.len() == 0,
            !final(self)@.confirmo,
            match tags {
                Err(e) => final(self)@.fase is Fin && (final(self)@.desenlace matches Some(
                    Desenlace::Fallo(m),
                ) && m@ == e@),
                Ok(ts) => final(self)@.tags == ts@ && match eleccion(
                    old(self)@.actual,
                    old(self)@.pedida,
                    old(self)@.repositorio,
                    ts@,
                ) {
                    Err(e) => final(self)@.fase is Fin && (final(self)@.desenlace matches Some(
                        Desenlace::Fallo(m),
                    ) && m@ == e),
                    Ok((None, true)) => final(self)@.fase is Fin && (final(self)@.desenlace
                        matches Some(Desenlace::YaEnVersion)),
                    Ok((None, false)) => final(self)@.fase is Fin && (final(self)@.desenlace
                        matches Some(Desenlace::AlDia)),
                    Ok((Some(v), _)) => final(self)@.version == v && (final(self)@.fase is Umbral
                        || final(self)@.fase is Local),
                },
            },
    {
        let tags = match tags {
            Ok(t) => t,
            Err(e) => {
                self.terminar_con(Desenlace::Fallo(e));
                return ;
            },
        };
        self.tags = Ghost(tags@);
        let elegido = match &self.actual {
            None => match version_agregado(self.repositorio.as_str(), &self.pedida, &tags) {
                Ok(v) => Ok(DestinoUpgrade::Cambiar(v)),
                Err(e) => Err(e),
            },
            Some(a) => destino_upgrade(a.as_str(), &self.pedida, self.repositorio.as_str(), &tags),
        };
        match elegido {
            Err(e) => self.terminar_con(Desenlace::Fallo(e)),
            Ok(DestinoUpgrade::YaEnVersion) => self.terminar_con(Desenlace::YaEnVersion),
            Ok(DestinoUpgrade::AlDia) => self.terminar_con(Desenlace::AlDia),
            Ok(DestinoUpgrade::Cambiar(v)) => {
                self.busqueda = umbral_de_version(self.repositorio.as_str(), v.as_str());
                self.version = v;
                self.avanzar_umbral();
            },
        }
    }

    /// Takes what was read at the pending address: the `umbral` field of
    /// its `umpkg.yml`, or none where it could not be fetched or read.
    pub fn con_lectura(&mut self, leido: Option<String>)
        requires
            old(self).wf(),
            old(self)@.fase is Umbral,
        ensures
            final(self).wf(),
            mismos_datos(final(self)@, old(self)@),
            final(self)@.tags == old(self)@.tags,
            final(self)@.version == old(self)@.version,
            final(self)@.lecturas == old(self)@.lecturas.push(vista_opcion(leido)),
            final(self)@.fase is Umbral || final(self)@.fase is Local,
    {
        self.busqueda.registrar(leido);
        self.avanzar_umbral();
    }

    /// Takes what `umbral --version` printed, when it ran successfully, and
    /// checks the requirement against it (or, without a version there,
    /// against the project's Umbral version).
    pub fn con_umbral_local(&mut self, salida: Option<String>)
        requires
            old(self).wf(),
            old(self)@.fase is Local,
        ensures
            final(self).wf(),
            mismos_datos(final(self)@, old(self)@),
            final(self)@.version == old(self)@.version,
            final(self)@.tags == old(self)@.tags,
            final(self)@.lecturas == old(self)@.lecturas,
            final(self)@.requerido == old(self)@.requerido,
            final(self)@.salida == vista_opcion(salida),
            match compatibilidad(old(self)@.umbral_proyecto, old(self)@.requerido, vista_opcion(salida)) {
                Ok(()) => final(self)@.fase is Confirmar,
                Err(e) => final(self)@.fase is Fin && (final(self)@.desenlace matches Some(
                    Desenlace::Fallo(m),
                ) && m@ == e),
            },
    {
        let r = match &salida {
            Some(s) => validar_compatibilidad_umbral(
                self.umbral_proyecto.as_str(),
                self.requerido.as_str(),
                Some(s.as_str()),
            ),
            None => validar_compatibilidad_umbral(
                self.umbral_proyecto.as_str(),
                self.requerido.as_str(),
                None,
            ),
        };
        self.salida = Ghost(vista_opcion(salida));
        match r {
            Ok(()) => {
                self.fase = Fase::Confirmar;
            },
            Err(e) => self.terminar_con(Desenlace::Fallo(e)),
        }
    }

    /// Takes the user's answer: yes goes on to the download, no ends it.
    pub fn con_respuesta(&mut self, si: bool)
        requires
            old(self).wf(),
            old(self)@.fase is Confirmar,
        ensures
            final(self).wf(),
            mismos_datos(final(self)@, old(self)@),
            final(self)@.version == old(self)@.version,
            final(self)@.tags == old(self)@.tags,
            final(self)@.lecturas == old(self)@.lecturas,
            final(self)@.requerido == old(self)@.requerido,
            final(self)@.salida == old(self)@.salida,
            final(self)@.confirmo == si,
            if si {
                final(self)@.fase is Descarga
            } else {
                final(self)@.fase is Fin && (final(self)@.desenlace matches Some(
                    Desenlace::Cancelada,
                ))
            },
    {
        if si {
            self.confirmo = true;
            self.fase = Fase::Descarga;
        } else {
            self.terminar_con(Desenlace::Cancelada);
        }
    }

    /// Takes the outcome of the download: the library is installed, or the
    /// installation ends with the error.
    pub fn con_descarga(&mut self, r: Result<(), String>)
        requires
            old(self).wf(),
            old(self)@.fase is Descarga,
        ensures
            final(self).wf(),
            mismos_datos(final(self)@, old(self)@),
            final(self)@.tags == old(self)@.tags,
            final(self)@.version == old(self)@.version,
            final(self)@.lecturas == old(self)@.lecturas,
            final(self)@.requerido == old(self)@.requerido,
            final(self)@.salida == old(self)@.salida,
            final(self)@.confirmo == old(self)@.confirmo,
            final(self)@.fase is Fin,
            match r {
                Ok(()) => final(self)@.desenlace matches Some(Desenlace::Instalada((m, v))) && m@
                    == old(self)@.nombre && v@ == old(self)@.version,
                Err(e) => final(self)@.desenlace matches Some(Desenlace::Fallo(m)) && m@ == e@,
            },
    {
        match r {
            Ok(()) => {
                let hecho = (copiar(self.nombre.as_str()), copiar(self.version.as_str()));
                self.fase = Fase::Fin;
                self.desenlace = Some(Desenlace::Instalada(hecho));
            },
            Err(e) => self.terminar_con(Desenlace::Fallo(e)),
        }
    }

    /// How the installation ended.
    pub fn terminar(self) -> (r: Desenlace)
        requires
            self.wf(),
            self@.fase is Fin,
        ensures
            self@.desenlace == Some(r),
    {
        match self.desenlace {
            Some(d) => d,
            None => Desenlace::Cancelada,
        }
    }

    /// The library's name.
    pub fn nombre(&self) -> (r: &String)
        ensures
            r@ == self@.nombre,
    {
        &self.nombre
    }

    /// The library's repository.
    pub fn repositorio(&self) -> (r: &String)
        ensures
            r@ == self@.repositorio,
    {
        &self.repositorio
    }

    /// The version the project has (upgrades only).
    pub fn actual(&self) -> (r: &Option<String>)
        ensures
            vista_opcion(*r) == self@.actual,
    {
        &self.actual
    }

    /// The version chosen.
    pub fn version(&self) -> (r: &String)
        ensures
            r@ == self@.version,
    {
        &self.version
    }

    /// The Umbral requirement that holds for the chosen version.
    pub fn requerido(&self) -> (r: &String)
        ensures
            r@ == self@.requerido,
    {
        &self.requerido
    }
}

/// At every step an installation is coherent. It downloads only a version
/// chosen from the repository's tags, whose Umbral requirement was looked up
/// to the end and is met, and only after the user said yes; it ends
/// installed only with the library's name and that version.
pub proof fn ley_instalacion(i: &Instalacion)
    requires
        i.wf(),
    ensures
        coherente(i@),
        i@.fase is Descarga ==> version_elegida(i@) && umbral_aceptado(i@) && i@.confirmo,
        i@.desenlace matches Some(Desenlace::Instalada((m, v))) ==> m@ == i@.nombre && v@
            == i@.version && version_elegida(i@) && umbral_aceptado(i@) && i@.confirmo,
{
}

} // verus!
