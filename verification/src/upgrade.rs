//! `ump upgrade`: which dependency moves, and to which version.
use vstd::prelude::*;
use crate::agregar::{fuera_de_indice, mensaje_fuera_de_indice};
use crate::comun::{
    es_nueva, es_version_nueva, especificacion, normalizar_version, obtener_ultima_version,
    parsear_especificacion, ultima_version, validar_version_existe, version_existente,
    version_normalizada, vista_opcion, EntradaIndice, TagGithub,
};
use crate::tabla::Tabla;
use crate::texto::{copiar, iguales};

verus! {

/// A dependency asked for by `ump upgrade`: its name, the version the
/// project has, the version asked for (if any), its repository and the
/// Umbral requirement the index gives for it.
pub struct SolicitudUpgrade {
    pub nombre: String,
    pub actual: String,
    pub pedida: Option<String>,
    pub repositorio: String,
    pub respaldo: String,
}

/// The message for a library that is not a dependency of the project.
pub open spec fn mensaje_no_dependencia(nombre: Seq<char>, spec: Seq<char>) -> Seq<char> {
    "La librería '"@ + nombre + "' no está en las dependencias (usa 'ump add "@ + spec
        + "' para instalarla)"@
}

/// Reads a specification for `ump upgrade`: the library must be a
/// dependency of the project and be in the index.
pub fn resolver_upgrade(spec: &str, actuales: &Tabla<String>, indice: &Tabla<EntradaIndice>) -> (r: Result<SolicitudUpgrade, String>)
    requires
    ensures
        ({
            let (nombre, pedida) = especificacion(spec@);
            match r {
                Ok(s) => actuales@.contains_key(nombre) && indice@.contains_key(nombre)
                    && s.nombre@ == nombre && s.actual@ == actuales@[nombre]@ && vista_opcion(
                    s.pedida,
                ) == pedida && s.repositorio@ == indice@[nombre].repository@ && s.respaldo@
                    == indice@[nombre].umbral@,
                Err(e) => if !actuales@.contains_key(nombre) {
                    e@ == mensaje_no_dependencia(nombre, spec@)
                } else {
                    !indice@.contains_key(nombre) && e@ == mensaje_fuera_de_indice(nombre)
                },
            }
        }),
{
    let (nombre, pedida) = parsear_especificacion(spec);
    let actual = match actuales.obtener(nombre.as_str()) {
        Some(a) => copiar(a.as_str()),
        None => {
            let mut e = String::from_str("La librería '");
            e.append(nombre.as_str());
            e.append("' no está en las dependencias (usa 'ump add ");
            e.append(spec);
            e.append("' para instalarla)");
            return Err(e);
        },
    };
    let entrada = match indice.obtener(nombre.as_str()) {
        Some(e) => e,
        None => {
            return Err(fuera_de_indice(nombre.as_str()));
        },
    };
    let repositorio = copiar(entrada.repository.as_str());
    let respaldo = copiar(entrada.umbral.as_str());
    Ok(SolicitudUpgrade { nombre, actual, pedida, repositorio, respaldo })
}

/// Where an upgrade goes.
pub enum DestinoUpgrade {
    /// To this version.
    Cambiar(String),
    /// Nowhere: the project already has the version asked for.
    YaEnVersion,
    /// Nowhere: the project already has the latest version.
    AlDia,
}

/// The view of an upgrade's destination: the version it goes to, if any,
/// and whether it stays because a version was asked for.
pub open spec fn vista_destino(d: DestinoUpgrade) -> (Option<Seq<char>>, bool) {
    match d {
        DestinoUpgrade::Cambiar(v) => (Some(v@), false),
        DestinoUpgrade::YaEnVersion => (None, true),
        DestinoUpgrade::AlDia => (None, false),
    }
}

/// Where an upgrade of a dependency at `actual` goes: to the version asked
/// for once validated, unless the project has it already; else to the latest
/// version, when it is newer.
pub open spec fn destino(actual: Seq<char>, pedida: Option<Seq<char>>, repositorio: Seq<char>, tags: Seq<TagGithub>) -> Result<(Option<Seq<char>>, bool), Seq<char>> {
    match pedida {
        Some(p) => match version_existente(repositorio, p, tags) {
            Err(e) => Err(e),
            Ok(normal) => if version_normalizada(actual) == normal {
                Ok((None, true))
            } else {
                Ok((Some(normal), false))
            },
        },
        None => match ultima_version(repositorio, tags) {
            Err(e) => Err(e),
            Ok(ultima) => if es_nueva(actual, ultima) {
                Ok((Some(ultima), false))
            } else {
                Ok((None, false))
            },
        },
    }
}

/// Decides where an upgrade goes, from the repository's tags.
pub fn destino_upgrade(actual: &str, pedida: &Option<String>, repositorio: &str, tags: &Vec<TagGithub>) -> (r: Result<DestinoUpgrade, String>)
    ensures
        match r {
            Ok(d) => destino(actual@, vista_opcion(*pedida), repositorio@, tags@) == Ok::<
                (Option<Seq<char>>, bool),
                Seq<char>,
            >(vista_destino(d)),
            Err(e) => destino(actual@, vista_opcion(*pedida), repositorio@, tags@) == Err::<
                (Option<Seq<char>>, bool),
                Seq<char>,
            >(e@),
        },
{
    match pedida {
        Some(p) => {
            let normal = validar_version_existe(repositorio, p.as_str(), tags)?;
            let a = normalizar_version(actual);
            if iguales(a.as_str(), normal.as_str()) {
                Ok(DestinoUpgrade::YaEnVersion)
            } else {
                Ok(DestinoUpgrade::Cambiar(normal))
            }
        },
        None => {
            let ultima = obtener_ultima_version(repositorio, tags)?;
            if es_version_nueva(actual, ultima.as_str()) {
                Ok(DestinoUpgrade::Cambiar(ultima))
            } else {
                Ok(DestinoUpgrade::AlDia)
            }
        },
    }
}

} // verus!
