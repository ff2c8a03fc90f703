//! Escenarios concretos sobre el almacen de usuarios.

use usuarios::almacen::AppState;
use usuarios::modelo::{ErrorUsuario, Usuario};

fn usuario(id: u32, nombre: &str, edad: u8) -> Usuario {
    Usuario { id, nombre: nombre.to_string(), edad }
}

#[test]
fn estado_inicial_trae_solo_la_semilla() {
    let s = AppState::inicial();
    let lista = s.listar_usuarios();
    assert_eq!(lista.len(), 1);
    assert_eq!(lista[0], usuario(1, "GTS", 17));
    assert_eq!(s.obtener_usuario(1), Ok(usuario(1, "GTS", 17)));
    assert_eq!(s.obtener_usuario(2), Err(ErrorUsuario::NoEncontrado));
}

#[test]
fn crear_y_volver_a_leer() {
    let mut s = AppState::inicial();
    let r = s.crear_usuario(usuario(2, "Ana", 30));
    assert_eq!(r, Ok(usuario(2, "Ana", 30)));
    assert_eq!(s.obtener_usuario(2), Ok(usuario(2, "Ana", 30)));
    assert_eq!(s.listar_usuarios().len(), 2);
}

#[test]
fn crear_con_id_ocupado_da_conflicto_y_no_toca_nada() {
    let mut s = AppState::inicial();
    let r = s.crear_usuario(usuario(1, "X", 5));
    assert_eq!(r, Err(ErrorUsuario::Conflicto));
    assert_eq!(s.obtener_usuario(1), Ok(usuario(1, "GTS", 17)));
    assert_eq!(s.listar_usuarios().len(), 1);
}

#[test]
fn crear_con_nombre_vacio_da_entrada_invalida() {
    let mut s = AppState::inicial();
    let r = s.crear_usuario(usuario(3, "", 10));
    assert_eq!(r, Err(ErrorUsuario::EntradaInvalida));
    assert_eq!(s.obtener_usuario(3), Err(ErrorUsuario::NoEncontrado));
    assert_eq!(s.listar_usuarios().len(), 1);
}

#[test]
fn crear_con_edad_cero_da_entrada_invalida() {
    let mut s = AppState::inicial();
    let r = s.crear_usuario(usuario(3, "Bea", 0));
    assert_eq!(r, Err(ErrorUsuario::EntradaInvalida));
    assert_eq!(s.obtener_usuario(3), Err(ErrorUsuario::NoEncontrado));
}

#[test]
fn actualizar_sustituye_el_registro_entero() {
    let mut s = AppState::inicial();
    let r = s.actualizar_usuario(1, usuario(99, "Renamed", 18));
    assert_eq!(r, Ok(usuario(1, "Renamed", 18)));
    assert_eq!(s.obtener_usuario(1), Ok(usuario(1, "Renamed", 18)));
    assert_eq!(s.obtener_usuario(99), Err(ErrorUsuario::NoEncontrado));
}

#[test]
fn en_actualizar_manda_el_id_del_camino() {
    let mut s = AppState::inicial();
    assert!(s.crear_usuario(usuario(5, "Eva", 40)).is_ok());
    let r = s.actualizar_usuario(5, usuario(999, "Eva II", 41));
    assert_eq!(r, Ok(usuario(5, "Eva II", 41)));
    assert_eq!(s.obtener_usuario(5), Ok(usuario(5, "Eva II", 41)));
    assert_eq!(s.obtener_usuario(999), Err(ErrorUsuario::NoEncontrado));
}

#[test]
fn actualizar_un_id_ausente_da_no_encontrado() {
    let mut s = AppState::inicial();
    let r = s.actualizar_usuario(7, usuario(7, "Gil", 20));
    assert_eq!(r, Err(ErrorUsuario::NoEncontrado));
    assert_eq!(s.listar_usuarios().len(), 1);
}

#[test]
fn actualizar_no_valida_nombre_ni_edad() {
    let mut s = AppState::inicial();
    let r = s.actualizar_usuario(1, usuario(1, "", 0));
    assert_eq!(r, Ok(usuario(1, "", 0)));
    assert_eq!(s.obtener_usuario(1), Ok(usuario(1, "", 0)));
}

#[test]
fn eliminar_y_luego_obtener_da_no_encontrado() {
    let mut s = AppState::inicial();
    assert_eq!(s.eliminar_usuario(1), Ok(()));
    assert_eq!(s.obtener_usuario(1), Err(ErrorUsuario::NoEncontrado));
    assert_eq!(s.listar_usuarios().len(), 0);
    assert_eq!(s.eliminar_usuario(1), Err(ErrorUsuario::NoEncontrado));
}

#[test]
fn las_lecturas_son_idempotentes() {
    let s = AppState::inicial();
    assert_eq!(s.listar_usuarios(), s.listar_usuarios());
    assert_eq!(s.obtener_usuario(1), s.obtener_usuario(1));
    assert_eq!(s.obtener_usuario(2), s.obtener_usuario(2));
}

#[test]
fn ida_y_vuelta_de_un_registro() {
    let mut s = AppState::inicial();
    let u = usuario(8, "Hugo", 33);
    let creado = s.crear_usuario(u.clone());
    assert_eq!(creado, Ok(u.clone()));
    assert_eq!(s.obtener_usuario(8), Ok(u));
}

#[test]
fn codigos_http_de_los_fallos() {
    assert_eq!(ErrorUsuario::EntradaInvalida.codigo_http(), 400);
    assert_eq!(ErrorUsuario::Conflicto.codigo_http(), 409);
    assert_eq!(ErrorUsuario::NoEncontrado.codigo_http(), 404);
}

#[test]
fn mensajes_de_los_fallos() {
    assert_eq!(
        ErrorUsuario::EntradaInvalida.mensaje(),
        "Nombre y edad son obligatorios".to_string()
    );
    assert_eq!(ErrorUsuario::Conflicto.mensaje(), "Usuario ya existe".to_string());
    assert_eq!(ErrorUsuario::NoEncontrado.mensaje(), "Usuario no encontrado".to_string());
}
