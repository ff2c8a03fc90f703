//! Las leyes generales del almacen, probadas sobre las funciones de
//! especificacion con que las operaciones describen su efecto.

use vstd::prelude::*;

use crate::almacen::{
    actualizar_spec, con_id, crear_spec, eliminar_spec, obtener_spec, valido, AppState,
};
use crate::modelo::{ErrorUsuario, UsuarioView};

verus! {

/// Ley: leer no cambia nada, asi que dos List o dos Get seguidos sobre el
/// mismo estado devuelven resultados identicos. Los contratos de
/// `listar_usuarios` y `obtener_usuario` determinan el resultado en funcion
/// del estado solo, de donde la igualdad.
pub proof fn ley_lecturas_idempotentes(
    s: AppState,
    id: u32,
    l1: Seq<UsuarioView>,
    l2: Seq<UsuarioView>,
    g1: Result<UsuarioView, ErrorUsuario>,
    g2: Result<UsuarioView, ErrorUsuario>,
)
    requires
        l1 == s.registros(),
        l2 == s.registros(),
        g1 == obtener_spec(s@, id),
        g2 == obtener_spec(s@, id),
    ensures
        l1 == l2,
        g1 == g2,
{
}

/// Ley: un candidato con nombre vacio o edad cero recibe `EntradaInvalida`
/// y el mapa queda como estaba.
pub proof fn ley_crear_validacion(m: Map<u32, UsuarioView>, u: UsuarioView)
    requires
        u.nombre.len() == 0 || u.edad == 0,
    ensures
        crear_spec(m, u).0 == Err::<UsuarioView, ErrorUsuario>(ErrorUsuario::EntradaInvalida),
        crear_spec(m, u).1 == m,
{
}

/// Ley: si el id del candidato ya esta presente y el candidato es valido,
/// Create responde `Conflicto` y deja intacto el registro existente.
pub proof fn ley_crear_conflicto(m: Map<u32, UsuarioView>, u: UsuarioView)
    requires
        valido(u),
        m.contains_key(u.id),
    ensures
        crear_spec(m, u).0 == Err::<UsuarioView, ErrorUsuario>(ErrorUsuario::Conflicto),
        crear_spec(m, u).1 == m,
        crear_spec(m, u).1[u.id] == m[u.id],
{
}

/// Ley: en Update manda el id del camino. El registro queda guardado bajo ese
/// id, con ese id en su campo, y las demas claves no cambian: en particular,
/// el id que traia el cuerpo no gana ninguna entrada propia.
pub proof fn ley_actualizar_gana_id_camino(m: Map<u32, UsuarioView>, id: u32, u: UsuarioView)
    requires
        m.contains_key(id),
    ensures
        actualizar_spec(m, id, u).0 == Ok::<UsuarioView, ErrorUsuario>(con_id(u, id)),
        con_id(u, id).id == id,
        actualizar_spec(m, id, u).1.contains_key(id),
        actualizar_spec(m, id, u).1[id] == con_id(u, id),
        forall|k: u32|
            k != id ==> (#[trigger] actualizar_spec(m, id, u).1.contains_key(k) <==> m.contains_key(
                k,
            )),
        forall|k: u32|
            k != id && m.contains_key(k) ==> #[trigger] actualizar_spec(m, id, u).1[k] == m[k],
{
}

/// Ley: tras un Delete que responde bien, Get sobre ese id responde
/// `NoEncontrado`.
pub proof fn ley_eliminar_luego_obtener(m: Map<u32, UsuarioView>, id: u32)
    requires
        eliminar_spec(m, id).0 is Ok,
    ensures
        obtener_spec(eliminar_spec(m, id).1, id) == Err::<UsuarioView, ErrorUsuario>(
            ErrorUsuario::NoEncontrado,
        ),
{
}

/// Ley de ida y vuelta: tras un Create que responde bien, Get sobre el id del
/// candidato devuelve un registro igual al candidato.
pub proof fn ley_ida_y_vuelta(m: Map<u32, UsuarioView>, u: UsuarioView)
    requires
        crear_spec(m, u).0 is Ok,
    ensures
        obtener_spec(crear_spec(m, u).1, u.id) == Ok::<UsuarioView, ErrorUsuario>(u),
{
}

} // verus!
