//! El almacen de usuarios: la coleccion en memoria y sus cinco operaciones.
//!
//! La vista abstracta del almacen es un mapa de id a registro (`view`); la
//! sucesion `registros` fija ademas el orden en que se listan. Cada operacion
//! ejecutable queda descrita exactamente por una funcion de especificacion
//! sobre esa vista.

use vstd::prelude::*;

use crate::modelo::{ErrorUsuario, Usuario, UsuarioView};

verus! {

broadcast use vstd::string::group_string_axioms;

/// Un candidato es valido si trae nombre no vacio y edad distinta de cero.
pub open spec fn valido(u: UsuarioView) -> bool {
    u.nombre.len() > 0 && u.edad != 0
}

/// El candidato con el id del camino en lugar del que traia el cuerpo.
pub open spec fn con_id(u: UsuarioView, id: u32) -> UsuarioView {
    UsuarioView { id: id, nombre: u.nombre, edad: u.edad }
}

/// La vista de un resultado ejecutable: el registro devuelto, como vista.
pub open spec fn resultado_vista(r: Result<Usuario, ErrorUsuario>) -> Result<
    UsuarioView,
    ErrorUsuario,
> {
    match r {
        Ok(u) => Ok(u@),
        Err(e) => Err(e),
    }
}

/// El mapa de id a registro que describe una sucesion de registros.
pub open spec fn mapa_de(s: Seq<UsuarioView>) -> Map<u32, UsuarioView>
    decreases s.len(),
{
    if s.len() == 0 {
        Map::empty()
    } else {
        mapa_de(s.drop_last()).insert(s.last().id, s.last())
    }
}

/// Ningun par de posiciones distintas comparte id.
pub open spec fn ids_unicos(s: Seq<UsuarioView>) -> bool {
    forall|i: int, j: int|
        0 <= i < s.len() && 0 <= j < s.len() && i != j ==> s[i].id != s[j].id
}

/// Que devuelve Get: el registro con ese id, o `NoEncontrado` si falta.
pub open spec fn obtener_spec(m: Map<u32, UsuarioView>, id: u32) -> Result<
    UsuarioView,
    ErrorUsuario,
> {
    if m.contains_key(id) {
        Ok(m[id])
    } else {
        Err(ErrorUsuario::NoEncontrado)
    }
}

/// Que hace Create: valida el candidato, exige id nuevo, y lo inserta.
/// Devuelve el resultado y el mapa que queda.
pub open spec fn crear_spec(m: Map<u32, UsuarioView>, u: UsuarioView) -> (Result<
    UsuarioView,
    ErrorUsuario,
>, Map<u32, UsuarioView>) {
    if !valido(u) {
        (Err(ErrorUsuario::EntradaInvalida), m)
    } else if m.contains_key(u.id) {
        (Err(ErrorUsuario::Conflicto), m)
    } else {
        (Ok(u), m.insert(u.id, u))
    }
}

/// Que hace Update: el id del camino pisa al del cuerpo; si el id existe,
/// sustituye el registro entero; si no, `NoEncontrado`. No valida los campos.
pub open spec fn actualizar_spec(m: Map<u32, UsuarioView>, id: u32, u: UsuarioView) -> (Result<
    UsuarioView,
    ErrorUsuario,
>, Map<u32, UsuarioView>) {
    if m.contains_key(id) {
        (Ok(con_id(u, id)), m.insert(id, con_id(u, id)))
    } else {
        (Err(ErrorUsuario::NoEncontrado), m)
    }
}

/// Que hace Delete: quita el registro con ese id si existe.
pub open spec fn eliminar_spec(m: Map<u32, UsuarioView>, id: u32) -> (Result<
    (),
    ErrorUsuario,
>, Map<u32, UsuarioView>) {
    if m.contains_key(id) {
        (Ok(()), m.remove(id))
    } else {
        (Err(ErrorUsuario::NoEncontrado), m)
    }
}

/// La sucesion sin los registros que llevan el id dado.
pub open spec fn sin_id(s: Seq<UsuarioView>, id: u32) -> Seq<UsuarioView> {
    s.filter(|u: UsuarioView| u.id != id)
}

/// La sucesion con cada registro de id dado sustituido por `nuevo`.
pub open spec fn reemplazando(s: Seq<UsuarioView>, id: u32, nuevo: UsuarioView) -> Seq<
    UsuarioView,
> {
    s.map_values(|u: UsuarioView| if u.id == id { nuevo } else { u })
}

/// La vista del registro con que arranca el servicio.
pub open spec fn semilla() -> UsuarioView {
    UsuarioView { id: 1, nombre: "GTS"@, edad: 17 }
}

/// Un id esta en el mapa de una sucesion si y solo si alguna posicion lo lleva.
proof fn lemma_mapa_dominio(s: Seq<UsuarioView>, id: u32)
    ensures
        mapa_de(s).contains_key(id) <==> exists|i: int| 0 <= i < s.len() && s[i].id == id,
    decreases s.len(),
{
    if s.len() > 0 {
        let t = s.drop_last();
        lemma_mapa_dominio(t, id);
        if s.last().id == id {
            assert(s[s.len() - 1].id == id);
        } else {
            if mapa_de(s).contains_key(id) {
                let i = choose|i: int| 0 <= i < t.len() && t[i].id == id;
                assert(s[i].id == id);
            }
            if exists|i: int| 0 <= i < s.len() && s[i].id == id {
                let i = choose|i: int| 0 <= i < s.len() && s[i].id == id;
                assert(i != s.len() - 1);
                assert(t[i].id == id);
            }
        }
    }
}

/// Con ids unicos, el mapa de la sucesion lleva cada posicion a su registro.
proof fn lemma_mapa_indice(s: Seq<UsuarioView>, i: int)
    requires
        ids_unicos(s),
        0 <= i < s.len(),
    ensures
        mapa_de(s).contains_key(s[i].id),
        mapa_de(s)[s[i].id] == s[i],
    decreases s.len(),
{
    if i < s.len() - 1 {
        let t = s.drop_last();
        assert(ids_unicos(t)) by {
            assert(forall|a: int, b: int|
                0 <= a < t.len() && 0 <= b < t.len() && a != b ==> t[a] == s[a] && t[b] == s[b]);
        }
        lemma_mapa_indice(t, i);
        assert(s.last().id != s[i].id);
    }
}

/// Quitar la ultima posicion conserva la unicidad de los ids.
proof fn lemma_unicos_prefijo(s: Seq<UsuarioView>)
    requires
        ids_unicos(s),
        s.len() > 0,
    ensures
        ids_unicos(s.drop_last()),
{
    let t = s.drop_last();
    assert forall|a: int, b: int|
        0 <= a < t.len() && 0 <= b < t.len() && a != b implies t[a].id != t[b].id by {
        assert(t[a] == s[a]);
        assert(t[b] == s[b]);
    }
}

/// Filtrar un id que ninguna posicion lleva no cambia la sucesion.
proof fn lemma_sin_id_identidad(s: Seq<UsuarioView>, id: u32)
    requires
        forall|j: int| 0 <= j < s.len() ==> (#[trigger] s[j]).id != id,
    ensures
        sin_id(s, id) == s,
    decreases s.len(),
{
    reveal(Seq::filter);
    if s.len() == 0 {
        assert(sin_id(s, id) =~= s);
    } else {
        let t = s.drop_last();
        assert(forall|j: int| 0 <= j < t.len() ==> (#[trigger] t[j]).id != id);
        lemma_sin_id_identidad(t, id);
        assert(s.last().id != id);
        assert(sin_id(s, id) =~= s);
    }
}

/// Con ids unicos, quitar la posicion que lleva el id es lo mismo que
/// filtrar ese id.
proof fn lemma_quitar_es_sin_id(s: Seq<UsuarioView>, i: int, id: u32)
    requires
        ids_unicos(s),
        0 <= i < s.len(),
        s[i].id == id,
    ensures
        s.remove(i) == sin_id(s, id),
    decreases s.len(),
{
    reveal(Seq::filter);
    let t = s.drop_last();
    lemma_unicos_prefijo(s);
    if i == s.len() - 1 {
        assert forall|j: int| 0 <= j < t.len() implies (#[trigger] t[j]).id != id by {
            assert(t[j] == s[j]);
        }
        lemma_sin_id_identidad(t, id);
        assert(s.remove(i) =~= t);
    } else {
        lemma_quitar_es_sin_id(t, i, id);
        assert(s.last().id != id);
        assert(s.remove(i) =~= t.remove(i).push(s.last()));
    }
}

/// Con ids unicos, quitar una posicion borra exactamente su id del mapa.
proof fn lemma_mapa_quitar(s: Seq<UsuarioView>, i: int)
    requires
        ids_unicos(s),
        0 <= i < s.len(),
    ensures
        ids_unicos(s.remove(i)),
        mapa_de(s.remove(i)) == mapa_de(s).remove(s[i].id),
    decreases s.len(),
{
    let t = s.drop_last();
    let r = s.remove(i);
    lemma_unicos_prefijo(s);
    s.remove_ensures(i);
    assert forall|a: int, b: int|
        0 <= a < r.len() && 0 <= b < r.len() && a != b implies r[a].id != r[b].id by {
        if a < i {
            assert(r[a] == s[a]);
        } else {
            assert(r[a] == s[a + 1]);
        }
        if b < i {
            assert(r[b] == s[b]);
        } else {
            assert(r[b] == s[b + 1]);
        }
    }
    if i == s.len() - 1 {
        assert(r =~= t);
        assert forall|j: int| 0 <= j < t.len() implies (#[trigger] t[j]).id != s[i].id by {
            assert(t[j] == s[j]);
        }
        lemma_mapa_dominio(t, s[i].id);
        assert(mapa_de(s) == mapa_de(t).insert(s[i].id, s[i]));
        assert(mapa_de(s).remove(s[i].id) =~= mapa_de(t));
    } else {
        lemma_mapa_quitar(t, i);
        assert(r.len() == s.len() - 1);
        assert(r.drop_last() =~= t.remove(i));
        assert(r.last() == s.last());
        assert(mapa_de(r) == mapa_de(t.remove(i)).insert(s.last().id, s.last()));
        assert(s.last().id != s[i].id);
        assert(mapa_de(s) == mapa_de(t).insert(s.last().id, s.last()));
        assert(mapa_de(s).remove(s[i].id) =~= mapa_de(t).remove(s[i].id).insert(
            s.last().id,
            s.last(),
        ));
    }
}

/// Con ids unicos, sustituir una posicion por un registro del mismo id
/// conserva la unicidad y solo reescribe esa entrada del mapa.
proof fn lemma_mapa_actualizar(s: Seq<UsuarioView>, i: int, nuevo: UsuarioView)
    requires
        ids_unicos(s),
        0 <= i < s.len(),
        s[i].id == nuevo.id,
    ensures
        ids_unicos(s.update(i, nuevo)),
        mapa_de(s.update(i, nuevo)) == mapa_de(s).insert(nuevo.id, nuevo),
    decreases s.len(),
{
    let t = s.drop_last();
    let u = s.update(i, nuevo);
    lemma_unicos_prefijo(s);
    assert forall|a: int, b: int|
        0 <= a < u.len() && 0 <= b < u.len() && a != b implies u[a].id != u[b].id by {
        assert(u[a].id == s[a].id);
        assert(u[b].id == s[b].id);
    }
    if i == s.len() - 1 {
        assert(u.drop_last() =~= t);
        assert(u.last() == nuevo);
        assert(mapa_de(u) == mapa_de(t).insert(nuevo.id, nuevo));
        assert(mapa_de(s) == mapa_de(t).insert(s[i].id, s[i]));
        assert(mapa_de(s).insert(nuevo.id, nuevo) =~= mapa_de(t).insert(nuevo.id, nuevo));
    } else {
        lemma_mapa_actualizar(t, i, nuevo);
        assert(u.drop_last() =~= t.update(i, nuevo));
        assert(u.last() == s.last());
        assert(s.last().id != nuevo.id);
        assert(mapa_de(u) == mapa_de(t.update(i, nuevo)).insert(s.last().id, s.last()));
        assert(mapa_de(s) == mapa_de(t).insert(s.last().id, s.last()));
        assert(mapa_de(s).insert(nuevo.id, nuevo) =~= mapa_de(t).insert(nuevo.id, nuevo).insert(
            s.last().id,
            s.last(),
        ));
    }
}

/// El estado del servicio: la coleccion de usuarios en memoria.
///
/// Invariante: a lo sumo un registro por id. La vista (`@`) es el mapa de id
/// a registro; `registros` da la sucesion subyacente, en el orden del listado.
pub struct AppState {
    usuarios: Vec<Usuario>,
}

impl View for AppState {
    type V = Map<u32, UsuarioView>;

    closed spec fn view(&self) -> Map<u32, UsuarioView> {
        mapa_de(self.registros())
    }
}

impl AppState {
    /// Los registros almacenados, como vistas, en el orden en que se listan.
    pub closed spec fn registros(self) -> Seq<UsuarioView> {
        self.usuarios.deep_view()
    }

    /// Invariante del almacen: ningun id se repite.
    pub closed spec fn inv(self) -> bool {
        ids_unicos(self.registros())
    }

    /// El estado con que arranca el servicio: solo el registro semilla.
    pub fn inicial() -> (s: AppState)
        ensures
            s.inv(),
            s.registros() == seq![semilla()],
            s@ == Map::<u32, UsuarioView>::empty().insert(1u32, semilla()),
    {
        let mut usuarios: Vec<Usuario> = Vec::new();
        usuarios.push(Usuario { id: 1, nombre: "GTS".to_string(), edad: 17 });
        let s = AppState { usuarios };
        proof {
            let regs = s.registros();
            assert(regs =~= seq![semilla()]);
            assert(regs.drop_last() =~= Seq::<UsuarioView>::empty());
            assert(mapa_de(regs.drop_last()) == Map::<u32, UsuarioView>::empty());
            assert(mapa_de(regs) == mapa_de(regs.drop_last()).insert(regs.last().id, regs.last()));
            assert(s@ =~= Map::<u32, UsuarioView>::empty().insert(1u32, semilla()));
        }
        s
    }

    /// Lista todos los registros, en el orden interno, sin tocar el estado.
    pub fn listar_usuarios(&self) -> (r: Vec<Usuario>)
        ensures
            r.deep_view() == self.registros(),
    {
        let mut r: Vec<Usuario> = Vec::new();
        let n = self.usuarios.len();
        let mut i: usize = 0;
        while i < n
            invariant
                n == self.usuarios.len(),
                i <= n,
                r@.len() == i,
                forall|j: int| 0 <= j < i ==> (#[trigger] r@[j])@ == self.registros()[j],
            decreases n - i,
        {
            r.push(self.usuarios[i].clone());
            i += 1;
        }
        proof {
            assert(r.deep_view() =~= self.registros());
        }
        r
    }

    /// Busca la posicion interna del registro con el id dado.
    fn indice_de(&self, id: u32) -> (r: Option<usize>)
        requires
            self.inv(),
        ensures
            (match r {
                Some(i) => {
                    &&& (i as int) < self.registros().len()
                    &&& self.registros()[i as int].id == id
                    &&& self@.contains_key(id)
                    &&& self@[id] == self.registros()[i as int]
                },
                None => {
                    &&& !self@.contains_key(id)
                    &&& forall|j: int|
                        0 <= j < self.registros().len() ==> (#[trigger] self.registros()[j]).id
                            != id
                },
            }),
    {
        let n = self.usuarios.len();
        let mut i: usize = 0;
        while i < n
            invariant
                self.inv(),
                n == self.usuarios.len(),
                i <= n,
                forall|j: int| 0 <= j < i ==> (#[trigger] self.registros()[j]).id != id,
            decreases n - i,
        {
            if self.usuarios[i].id == id {
                proof {
                    lemma_mapa_indice(self.registros(), i as int);
                }
                return Some(i);
            }
            i += 1;
        }
        proof {
            lemma_mapa_dominio(self.registros(), id);
        }
        None
    }

    /// Devuelve el registro con el id pedido, o `NoEncontrado` si falta.
    pub fn obtener_usuario(&self, id: u32) -> (r: Result<Usuario, ErrorUsuario>)
        requires
            self.inv(),
        ensures
            resultado_vista(r) == obtener_spec(self@, id),
    {
        match self.indice_de(id) {
            Some(i) => Ok(self.usuarios[i].clone()),
            None => Err(ErrorUsuario::NoEncontrado),
        }
    }

    /// Crea un registro nuevo: exige nombre no vacio, edad distinta de cero y
    /// un id aun libre, y devuelve el registro guardado.
    pub fn crear_usuario(&mut self, usuario: Usuario) -> (r: Result<Usuario, ErrorUsuario>)
        requires
            old(self).inv(),
        ensures
            final(self).inv(),
            resultado_vista(r) == crear_spec(old(self)@, usuario@).0,
            final(self)@ == crear_spec(old(self)@, usuario@).1,
            r is Ok ==> final(self).registros() == old(self).registros().push(usuario@),
            r is Err ==> final(self).registros() == old(self).registros(),
    {
        if usuario.nombre.as_str().is_empty() || usuario.edad == 0 {
            return Err(ErrorUsuario::EntradaInvalida);
        }
        if self.indice_de(usuario.id).is_some() {
            return Err(ErrorUsuario::Conflicto);
        }
        let guardado = usuario.clone();
        self.usuarios.push(usuario);
        proof {
            let regs0 = old(self).registros();
            let regs1 = self.registros();
            assert(regs1 =~= regs0.push(guardado@));
            assert(regs1.drop_last() =~= regs0);
            assert(mapa_de(regs1) == mapa_de(regs0).insert(guardado@.id, guardado@));
            assert forall|a: int, b: int|
                0 <= a < regs1.len() && 0 <= b < regs1.len() && a != b implies regs1[a].id
                != regs1[b].id by {
                if a < regs0.len() && b < regs0.len() {
                    assert(regs0[a].id != regs0[b].id);
                }
            }
        }
        Ok(guardado)
    }

    /// Sustituye el registro del id dado por el candidato, con el id del
    /// camino pisando al del cuerpo; no valida nombre ni edad.
    pub fn actualizar_usuario(&mut self, id: u32, datos: Usuario) -> (r: Result<
        Usuario,
        ErrorUsuario,
    >)
        requires
            old(self).inv(),
        ensures
            final(self).inv(),
            resultado_vista(r) == actualizar_spec(old(self)@, id, datos@).0,
            final(self)@ == actualizar_spec(old(self)@, id, datos@).1,
            final(self).registros() == reemplazando(old(self).registros(), id, con_id(datos@, id)),
    {
        match self.indice_de(id) {
            Some(i) => {
                let nuevo = Usuario { id, nombre: datos.nombre.clone(), edad: datos.edad };
                let devuelto = nuevo.clone();
                self.usuarios.set(i, nuevo);
                proof {
                    let regs0 = old(self).registros();
                    let regs1 = self.registros();
                    assert(devuelto@ == con_id(datos@, id));
                    assert(regs1 =~= regs0.update(i as int, devuelto@));
                    lemma_mapa_actualizar(regs0, i as int, devuelto@);
                    assert forall|k: int| 0 <= k < regs0.len() implies reemplazando(
                        regs0,
                        id,
                        devuelto@,
                    )[k] == regs1[k] by {
                        if k != i {
                            assert(regs0[k].id != regs0[i as int].id);
                        }
                    }
                    assert(reemplazando(regs0, id, devuelto@) =~= regs1);
                }
                Ok(devuelto)
            },
            None => {
                proof {
                    let regs = self.registros();
                    assert(reemplazando(regs, id, con_id(datos@, id)) =~= regs);
                }
                Err(ErrorUsuario::NoEncontrado)
            },
        }
    }

    /// Quita el registro con el id dado, o responde `NoEncontrado` si falta.
    pub fn eliminar_usuario(&mut self, id: u32) -> (r: Result<(), ErrorUsuario>)
        requires
            old(self).inv(),
        ensures
            final(self).inv(),
            r == eliminar_spec(old(self)@, id).0,
            final(self)@ == eliminar_spec(old(self)@, id).1,
            final(self).registros() == sin_id(old(self).registros(), id),
    {
        match self.indice_de(id) {
            Some(i) => {
                self.usuarios.remove(i);
                proof {
                    let regs0 = old(self).registros();
                    let regs1 = self.registros();
                    old(self).usuarios@.remove_ensures(i as int);
                    regs0.remove_ensures(i as int);
                    assert(regs1 =~= regs0.remove(i as int));
                    lemma_mapa_quitar(regs0, i as int);
                    lemma_quitar_es_sin_id(regs0, i as int, id);
                }
                Ok(())
            },
            None => {
                proof {
                    lemma_sin_id_identidad(self.registros(), id);
                }
                Err(ErrorUsuario::NoEncontrado)
            },
        }
    }
}

} // verus!
