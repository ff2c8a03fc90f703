//! Servicio de usuarios en memoria: una coleccion de registros (id, nombre,
//! edad) con las cinco operaciones CRUD, cada una con su contrato.
//!
//! La capa HTTP (rutas, JSON, registro de eventos) queda fuera de esta
//! biblioteca; aqui vive solo la logica del almacen y sus garantias.

pub mod almacen;
pub mod leyes;
pub mod modelo;
