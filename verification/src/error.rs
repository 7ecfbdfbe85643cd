//! Runtime errors.

use vstd::prelude::*;
use crate::ast::{OperadorBinario, Posicion};
use crate::valor::{Valor, ValorV};

verus! {

/// One of the two ends of the range of a `para`.
#[derive(Debug, Clone, Copy, PartialEq, Eq, Structural)]
pub enum Extremo {
    Inicio,
    Fin,
}

/// Why evaluation stopped.
#[derive(Debug, PartialEq)]
pub enum ErrorEjecucion {
    /// A name was read or assigned that no frame binds.
    VariableNoDefinida { nombre: String, pos: Posicion },
    /// A function was called that the program does not declare.
    FuncionNoDefinida { nombre: String, pos: Posicion },
    /// A function was called with another number of arguments than it has parameters.
    Aridad { nombre: String, esperados: usize, recibidos: usize, pos: Posicion },
    /// A binary operator met operands of kinds it is not defined on.
    OperadorNoAplicable { operador: OperadorBinario, izquierda: Valor, derecha: Valor, pos: Posicion },
    /// `-` met an operand that is no number.
    NegacionNoAplicable { valor: Valor, pos: Posicion },
    /// `/` or `%` met a zero divisor.
    DivisionPorCero { operador: OperadorBinario, pos: Posicion },
    /// An end of the range of a `para` is no number.
    RangoNoNumerico { extremo: Extremo, valor: Valor, pos: Posicion },
    /// Calls and loop turns nested deeper than the budget allows.
    LimiteExcedido,
}

/// Model of [`ErrorEjecucion`].
pub enum ErrorEjecucionV {
    VariableNoDefinida { nombre: Seq<char>, pos: Posicion },
    FuncionNoDefinida { nombre: Seq<char>, pos: Posicion },
    Aridad { nombre: Seq<char>, esperados: usize, recibidos: usize, pos: Posicion },
    OperadorNoAplicable { operador: OperadorBinario, izquierda: ValorV, derecha: ValorV, pos: Posicion },
    NegacionNoAplicable { valor: ValorV, pos: Posicion },
    DivisionPorCero { operador: OperadorBinario, pos: Posicion },
    RangoNoNumerico { extremo: Extremo, valor: ValorV, pos: Posicion },
    LimiteExcedido,
}

impl View for ErrorEjecucion {
    type V = ErrorEjecucionV;

    open spec fn view(&self) -> ErrorEjecucionV {
        match self {
            ErrorEjecucion::VariableNoDefinida { nombre, pos } => ErrorEjecucionV::VariableNoDefinida {
                nombre: nombre@,
                pos: *pos,
            },
            ErrorEjecucion::FuncionNoDefinida { nombre, pos } => ErrorEjecucionV::FuncionNoDefinida {
                nombre: nombre@,
                pos: *pos,
            },
            ErrorEjecucion::Aridad { nombre, esperados, recibidos, pos } => ErrorEjecucionV::Aridad {
                nombre: nombre@,
                esperados: *esperados,
                recibidos: *recibidos,
                pos: *pos,
            },
            ErrorEjecucion::OperadorNoAplicable {
                operador,
                izquierda,
                derecha,
                pos,
            } => ErrorEjecucionV::OperadorNoAplicable {
                operador: *operador,
                izquierda: izquierda@,
                derecha: derecha@,
                pos: *pos,
            },
            ErrorEjecucion::NegacionNoAplicable { valor, pos } => ErrorEjecucionV::NegacionNoAplicable {
                valor: valor@,
                pos: *pos,
            },
            ErrorEjecucion::DivisionPorCero { operador, pos } => ErrorEjecucionV::DivisionPorCero {
                operador: *operador,
                pos: *pos,
            },
            ErrorEjecucion::RangoNoNumerico { extremo, valor, pos } => ErrorEjecucionV::RangoNoNumerico {
                extremo: *extremo,
                valor: valor@,
                pos: *pos,
            },
            ErrorEjecucion::LimiteExcedido => ErrorEjecucionV::LimiteExcedido,
        }
    }
}

/// The kinds of runtime error.
#[derive(Debug, Clone, Copy, PartialEq, Eq, Structural)]
pub enum ClaseDeError {
    /// An unbound variable or an unknown function.
    Nombre,
    /// An operator on operands it is not defined on, or a range end that is no number.
    Tipo,
    /// Division or remainder by zero.
    Aritmetica,
    /// A call with the wrong number of arguments.
    Aridad,
    /// The budget of nested calls and loop turns ran out.
    Limite,
}

impl ErrorEjecucionV {
    /// The kind of the error.
    pub open spec fn clase(self) -> ClaseDeError {
        match self {
            ErrorEjecucionV::VariableNoDefinida { .. } => ClaseDeError::Nombre,
            ErrorEjecucionV::FuncionNoDefinida { .. } => ClaseDeError::Nombre,
            ErrorEjecucionV::Aridad { .. } => ClaseDeError::Aridad,
            ErrorEjecucionV::OperadorNoAplicable { .. } => ClaseDeError::Tipo,
            ErrorEjecucionV::NegacionNoAplicable { .. } => ClaseDeError::Tipo,
            ErrorEjecucionV::DivisionPorCero { .. } => ClaseDeError::Aritmetica,
            ErrorEjecucionV::RangoNoNumerico { .. } => ClaseDeError::Tipo,
            ErrorEjecucionV::LimiteExcedido => ClaseDeError::Limite,
        }
    }
}

impl ErrorEjecucion {
    /// The kind of the error.
    pub fn clase(&self) -> (c: ClaseDeError)
        ensures
            c == self@.clase(),
    {
        match self {
            ErrorEjecucion::VariableNoDefinida { .. } => ClaseDeError::Nombre,
            ErrorEjecucion::FuncionNoDefinida { .. } => ClaseDeError::Nombre,
            ErrorEjecucion::Aridad { .. } => ClaseDeError::Aridad,
            ErrorEjecucion::OperadorNoAplicable { .. } => ClaseDeError::Tipo,
            ErrorEjecucion::NegacionNoAplicable { .. } => ClaseDeError::Tipo,
            ErrorEjecucion::DivisionPorCero { .. } => ClaseDeError::Aritmetica,
            ErrorEjecucion::RangoNoNumerico { .. } => ClaseDeError::Tipo,
            ErrorEjecucion::LimiteExcedido => ClaseDeError::Limite,
        }
    }
}

} // verus!
