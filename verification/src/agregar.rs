//! `ump add`: what decides which version of a library to install and how
//! the project records it.
use vstd::prelude::*;
use crate::comun::{
    especificacion, obtener_ultima_version, parsear_especificacion, ultima_version,
    validar_version_existe, version_existente, vista_opcion, vista_resultado, EntradaIndice,
    TagGithub,
};
use crate::configuracion::{mapa_de, ProyectoUmp};
use crate::tabla::Tabla;
use crate::texto::copiar;

verus! {

/// A library asked for by `ump add`, found in the index and not yet in the
/// project: its name, the version asked for (if any), its repository and
/// the Umbral requirement the index gives for it.
pub struct Solicitud {
    pub nombre: String,
    pub pedida: Option<String>,
    pub repositorio: String,
    pub respaldo: String,
}

/// The message for a library missing from the global index.
pub open spec fn mensaje_fuera_de_indice(nombre: Seq<char>) -> Seq<char> {
    "La librería '"@ + nombre + "' no existe en el índice global"@
}

/// The message for a library the project already depends on.
pub open spec fn mensaje_existente(nombre: Seq<char>) -> Seq<char> {
    "La librería '"@ + nombre + "' ya existe en el proyecto (usa 'ump upgrade "@ + nombre
        + "' para cambiar de versión)"@
}

/// The message for a library missing from the global index.
pub fn fuera_de_indice(nombre: &str) -> (r: String)
    ensures
        r@ == mensaje_fuera_de_indice(nombre@),
{
    let mut e = String::from_str("La librería '");
    e.append(nombre);
    e.append("' no existe en el índice global");
    e
}

/// Refuses a library that the project already depends on.
pub fn rechazar_existente(nombre: &str, proyecto: &ProyectoUmp) -> (r: Result<(), String>)
    requires
    ensures
        r is Err <==> mapa_de(proyecto.dependencies).contains_key(nombre@),
        r matches Err(e) ==> e@ == mensaje_existente(nombre@),
{
    let existe = match &proyecto.dependencies {
        Some(deps) => deps.contiene(nombre),
        None => false,
    };
    if existe {
        let mut e = String::from_str("La librería '");
        e.append(nombre);
        e.append("' ya existe en el proyecto (usa 'ump upgrade ");
        e.append(nombre);
        e.append("' para cambiar de versión)");
        Err(e)
    } else {
        Ok(())
    }
}

/// Reads a specification for `ump add`: the library must be in the index
/// and not yet in the project.
pub fn resolver_agregado(spec: &str, proyecto: &ProyectoUmp, indice: &Tabla<EntradaIndice>) -> (r: Result<Solicitud, String>)
    requires
    ensures
        ({
            let (nombre, pedida) = especificacion(spec@);
            match r {
                Ok(s) => indice@.contains_key(nombre) && !mapa_de(
                    proyecto.dependencies,
                ).contains_key(nombre) && s.nombre@ == nombre && vista_opcion(s.pedida) == pedida
                    && s.repositorio@ == indice@[nombre].repository@ && s.respaldo@
                    == indice@[nombre].umbral@,
                Err(e) => if !indice@.contains_key(nombre) {
                    e@ == mensaje_fuera_de_indice(nombre)
                } else {
                    mapa_de(proyecto.dependencies).contains_key(nombre) && e@ == mensaje_existente(
                        nombre,
                    )
                },
            }
        }),
{
    let (nombre, pedida) = parsear_especificacion(spec);
    let entrada = match indice.obtener(nombre.as_str()) {
        Some(e) => e,
        None => {
            return Err(fuera_de_indice(nombre.as_str()));
        },
    };
    rechazar_existente(nombre.as_str(), proyecto)?;
    let repositorio = copiar(entrada.repository.as_str());
    let respaldo = copiar(entrada.umbral.as_str());
    Ok(Solicitud { nombre, pedida, repositorio, respaldo })
}

/// The version that `ump add` installs: the one asked for, once validated
/// against the tags, or else the latest.
pub open spec fn version_a_instalar(repositorio: Seq<char>, pedida: Option<Seq<char>>, tags: Seq<TagGithub>) -> Result<Seq<char>, Seq<char>> {
    match pedida {
        Some(p) => version_existente(repositorio, p, tags),
        None => ultima_version(repositorio, tags),
    }
}

/// Picks the version to install from the repository's tags.
pub fn version_agregado(repositorio: &str, pedida: &Option<String>, tags: &Vec<TagGithub>) -> (r: Result<String, String>)
    ensures
        vista_resultado(r) == version_a_instalar(repositorio@, vista_opcion(*pedida), tags@),
{
    match pedida {
        Some(p) => validar_version_existe(repositorio, p.as_str(), tags),
        None => obtener_ultima_version(repositorio, tags),
    }
}

/// A map with the pairs inserted in order, a later pair overriding an
/// earlier one with the same name.
pub open spec fn insertar_todos(m: Map<Seq<char>, String>, pares: Seq<(String, String)>) -> Map<Seq<char>, String>
    decreases pares.len(),
{
    if pares.len() == 0 {
        m
    } else {
        insertar_todos(m, pares.drop_last()).insert(pares.last().0@, pares.last().1)
    }
}

/// The project with the new `(name, version)` pairs recorded among its
/// dependencies (a later pair for a name wins), or none when there is
/// nothing new to record.
pub fn fusionar_dependencias(proyecto: ProyectoUmp, nuevos: Vec<(String, String)>) -> (r: Option<ProyectoUmp>)
    requires
    ensures
        nuevos@.len() == 0 <==> r is None,
        r matches Some(p) ==> {
            &&& p.name == proyecto.name
            &&& p.version == proyecto.version
            &&& p.description == proyecto.description
            &&& p.umbral == proyecto.umbral
            &&& p.main == proyecto.main
            &&& p.scripts == proyecto.scripts
            &&& p.dependencies is Some
            &&& mapa_de(p.dependencies) == insertar_todos(
                mapa_de(proyecto.dependencies),
                nuevos@,
            )
        },
{
    if nuevos.len() == 0 {
        return None;
    }
    let ProyectoUmp { name, version, description, umbral, main, scripts, dependencies } = proyecto;
    let mut deps = match dependencies {
        Some(d) => d,
        None => Tabla::new(),
    };
    let ghost base = deps@;
    let n = nuevos.len();
    let mut resto = nuevos;
    let mut hechos: usize = 0;
    assert(nuevos@.skip(0) =~= nuevos@);
    assert(nuevos@.take(0) =~= Seq::<(String, String)>::empty());
    while resto.len() > 0
        invariant
            hechos + resto@.len() == n,
            n == nuevos@.len(),
            resto@ == nuevos@.skip(hechos as int),
            deps@ == insertar_todos(base, nuevos@.take(hechos as int)),
        decreases resto@.len(),
    {
        let ghost antes = resto@;
        let (k, v) = resto.remove(0);
        proof {
            assert(nuevos@.take(hechos + 1).drop_last() =~= nuevos@.take(hechos as int));
            assert(nuevos@.take(hechos + 1).last() == antes[0]);
            assert(resto@ =~= nuevos@.skip(hechos + 1));
        }
        deps.insertar(k, v);
        hechos = hechos + 1;
    }
    assert(nuevos@.take(n as int) =~= nuevos@);
    Some(
        ProyectoUmp {
            name,
            version,
            description,
            umbral,
            main,
            scripts,
            dependencies: Some(deps),
        },
    )
}

} // verus!
