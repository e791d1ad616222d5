//! `ump run`: finding the command of a script.
use vstd::prelude::*;
use crate::configuracion::ProyectoUmp;
use crate::texto::copiar;

verus! {

/// Why a script cannot run.
pub enum FalloScript {
    /// The project declares no scripts.
    SinScripts,
    /// The project declares scripts, but none with that name.
    NoEncontrado,
}

/// The command of the project's script `nombre`.
pub fn buscar_script(proyecto: &ProyectoUmp, nombre: &str) -> (r: Result<String, FalloScript>)
    requires
    ensures
        match proyecto.scripts {
            None => r matches Err(FalloScript::SinScripts),
            Some(s) => if s@.contains_key(nombre@) {
                r matches Ok(c) && c@ == s@[nombre@]@
            } else {
                r matches Err(FalloScript::NoEncontrado)
            },
        },
{
    match &proyecto.scripts {
        None => Err(FalloScript::SinScripts),
        Some(s) => match s.obtener(nombre) {
            Some(c) => Ok(copiar(c.as_str())),
            None => Err(FalloScript::NoEncontrado),
        },
    }
}

} // verus!
