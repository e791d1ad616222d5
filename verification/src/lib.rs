pub mod agregar;
pub mod comun;
pub mod configuracion;
pub mod ejecutar;
pub mod instalacion;
pub mod interfaz;
pub mod remover;
pub mod tabla;
pub mod texto;
pub mod update;
pub mod upgrade;
pub mod version;
pub mod leyes;
