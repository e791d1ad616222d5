//! The command line of `ump`.
use vstd::prelude::*;

verus! {

/// The parsed command line.
pub struct Interfaz {
    pub comando: Comandos,
}

/// The commands that `ump` accepts.
pub enum Comandos {
    /// `init`: writes `umpkg.yml` and `src/main.um` here.
    Inicio,
    /// `add`: installs packages.
    Agregar { paquetes: Vec<String> },
    /// `create`: a new project directory.
    Crear { nombre: String },
    /// `run`: runs a script of the project.
    Ejecutar { script: String },
    /// `remove`: drops dependencies.
    Remover { paquetes: Vec<String> },
    /// `update`: lists dependencies with a newer version.
    Update,
    /// `upgrade`: moves dependencies to another version.
    Upgrade { paquetes: Vec<String> },
}

} // verus!
