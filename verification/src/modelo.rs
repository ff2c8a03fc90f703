//! El registro de usuario y los fallos que las operaciones pueden senalar.

use vstd::prelude::*;

verus! {

broadcast use vstd::string::group_string_axioms;

/// Un registro de usuario: identificador unico, nombre y edad.
#[derive(Debug, PartialEq)]
pub struct Usuario {
    pub id: u32,
    pub nombre: String,
    pub edad: u8,
}

/// La vista matematica de un `Usuario`: el nombre como sucesion de caracteres.
pub ghost struct UsuarioView {
    pub id: u32,
    pub nombre: Seq<char>,
    pub edad: u8,
}

impl View for Usuario {
    type V = UsuarioView;

    open spec fn view(&self) -> UsuarioView {
        UsuarioView { id: self.id, nombre: self.nombre@, edad: self.edad }
    }
}

impl DeepView for Usuario {
    type V = UsuarioView;

    open spec fn deep_view(&self) -> UsuarioView {
        self.view()
    }
}

impl Clone for Usuario {
    fn clone(&self) -> (r: Usuario)
        ensures
            r == *self,
    {
        Usuario { id: self.id, nombre: self.nombre.clone(), edad: self.edad }
    }
}

/// Los fallos que una operacion del almacen comunica a quien la llama.
#[derive(Clone, Copy, Debug, PartialEq, Eq, Structural)]
pub enum ErrorUsuario {
    /// El candidato trae nombre vacio o edad cero.
    EntradaInvalida,
    /// Ya existe un registro con ese id.
    Conflicto,
    /// Ningun registro lleva el id pedido.
    NoEncontrado,
}

impl ErrorUsuario {
    /// El codigo de estado HTTP con el que el despachador responde a cada fallo.
    pub open spec fn codigo_spec(self) -> u16 {
        match self {
            ErrorUsuario::EntradaInvalida => 400,
            ErrorUsuario::Conflicto => 409,
            ErrorUsuario::NoEncontrado => 404,
        }
    }

    /// Traduce el fallo al codigo de estado HTTP correspondiente.
    pub fn codigo_http(&self) -> (c: u16)
        ensures
            c == self.codigo_spec(),
    {
        match self {
            ErrorUsuario::EntradaInvalida => 400,
            ErrorUsuario::Conflicto => 409,
            ErrorUsuario::NoEncontrado => 404,
        }
    }

    /// El texto con el que se describe cada fallo en la respuesta.
    pub open spec fn mensaje_spec(self) -> Seq<char> {
        match self {
            ErrorUsuario::EntradaInvalida => "Nombre y edad son obligatorios"@,
            ErrorUsuario::Conflicto => "Usuario ya existe"@,
            ErrorUsuario::NoEncontrado => "Usuario no encontrado"@,
        }
    }

    /// Devuelve el texto descriptivo del fallo.
    pub fn mensaje(&self) -> (m: String)
        ensures
            m@ == self.mensaje_spec(),
    {
        match self {
            ErrorUsuario::EntradaInvalida => "Nombre y edad son obligatorios".to_string(),
            ErrorUsuario::Conflicto => "Usuario ya existe".to_string(),
            ErrorUsuario::NoEncontrado => "Usuario no encontrado".to_string(),
        }
    }
}

} // verus!
