//! The text of each error, as a reader of a terminal is to see it.

use vstd::prelude::*;
use crate::ast::{OperadorBinario, OperadorUnario, Posicion};
use crate::decimal::{escritura_de, formato_valido, Decimal};
use crate::error::{ErrorEjecucion, ErrorEjecucionV, Extremo};
use crate::interprete::{ErrorVCode, ErrorVCodeV};
use crate::lexer::{ErrorLexico, ErrorLexicoV, TipoToken, TipoTokenV};
use crate::parser::{ErrorSintactico, ErrorSintacticoV, Esperado};
use crate::texto::{agregar_caracter, agregar_entero, agregar_natural, agregar_texto, digitos, texto_entero};

verus! {

/// How a position is written: `línea L, columna C`.
pub open spec fn texto_de_posicion(p: Posicion) -> Seq<char> {
    "línea "@ + digitos(p.linea as nat) + ", columna "@ + digitos(p.columna as nat)
}

/// Appends the writing of `p` to `s`.
pub fn agregar_posicion(s: &mut String, p: &Posicion)
    ensures
        final(s)@ == old(s)@ + texto_de_posicion(*p),
{
    agregar_texto(s, "línea ");
    agregar_natural(s, p.linea as u64);
    agregar_texto(s, ", columna ");
    agregar_natural(s, p.columna as u64);
    assert(s@ =~= old(s)@ + texto_de_posicion(*p));
}

/// How a binary operator is written in source text.
pub open spec fn simbolo(op: OperadorBinario) -> Seq<char> {
    match op {
        OperadorBinario::Suma => "+"@,
        OperadorBinario::Resta => "-"@,
        OperadorBinario::Multiplicacion => "*"@,
        OperadorBinario::Division => "/"@,
        OperadorBinario::Modulo => "%"@,
        OperadorBinario::Igual => "=="@,
        OperadorBinario::Diferente => "!="@,
        OperadorBinario::Menor => "<"@,
        OperadorBinario::MenorIgual => "<="@,
        OperadorBinario::Mayor => ">"@,
        OperadorBinario::MayorIgual => ">="@,
        OperadorBinario::Y => "y"@,
        OperadorBinario::O => "o"@,
    }
}

/// Appends the symbol of `op` to `s`.
pub fn agregar_simbolo(s: &mut String, op: &OperadorBinario)
    ensures
        final(s)@ == old(s)@ + simbolo(*op),
{
    match op {
        OperadorBinario::Suma => agregar_texto(s, "+"),
        OperadorBinario::Resta => agregar_texto(s, "-"),
        OperadorBinario::Multiplicacion => agregar_texto(s, "*"),
        OperadorBinario::Division => agregar_texto(s, "/"),
        OperadorBinario::Modulo => agregar_texto(s, "%"),
        OperadorBinario::Igual => agregar_texto(s, "=="),
        OperadorBinario::Diferente => agregar_texto(s, "!="),
        OperadorBinario::Menor => agregar_texto(s, "<"),
        OperadorBinario::MenorIgual => agregar_texto(s, "<="),
        OperadorBinario::Mayor => agregar_texto(s, ">"),
        OperadorBinario::MayorIgual => agregar_texto(s, ">="),
        OperadorBinario::Y => agregar_texto(s, "y"),
        OperadorBinario::O => agregar_texto(s, "o"),
    }
}

/// How a unary operator is written in source text.
pub open spec fn simbolo_unario(op: OperadorUnario) -> Seq<char> {
    match op {
        OperadorUnario::Negacion => "-"@,
        OperadorUnario::No => "no"@,
    }
}

/// Appends the symbol of `op` to `s`.
pub fn agregar_simbolo_unario(s: &mut String, op: &OperadorUnario)
    ensures
        final(s)@ == old(s)@ + simbolo_unario(*op),
{
    match op {
        OperadorUnario::Negacion => agregar_texto(s, "-"),
        OperadorUnario::No => agregar_texto(s, "no"),
    }
}

/// How a kind of token is named in a message.
pub open spec fn descripcion(t: TipoTokenV) -> Seq<char> {
    match t {
        TipoTokenV::Escena => "escena"@,
        TipoTokenV::Mostrar => "mostrar"@,
        TipoTokenV::Var => "var"@,
        TipoTokenV::Constante => "Constante"@,
        TipoTokenV::Si => "si"@,
        TipoTokenV::Sino => "sino"@,
        TipoTokenV::Mientras => "mientras"@,
        TipoTokenV::Para => "para"@,
        TipoTokenV::Funcion => "funcion"@,
        TipoTokenV::Retornar => "retornar"@,
        TipoTokenV::Verdadero => "Verdadero"@,
        TipoTokenV::Falso => "Falso"@,
        TipoTokenV::Cada => "Cada"@,
        TipoTokenV::Frame => "Frame"@,
        TipoTokenV::Cuando => "Cuando"@,
        TipoTokenV::TipoNumero => "TipoNumero"@,
        TipoTokenV::TipoDecimal => "TipoDecimal"@,
        TipoTokenV::TipoTexto => "TipoTexto"@,
        TipoTokenV::TipoBooleano => "TipoBooleano"@,
        TipoTokenV::TipoVector3 => "TipoVector3"@,
        TipoTokenV::TipoPose => "TipoPose"@,
        TipoTokenV::TipoMano => "TipoMano"@,
        TipoTokenV::TipoControlador => "TipoControlador"@,
        TipoTokenV::Suma => "Suma"@,
        TipoTokenV::Resta => "Resta"@,
        TipoTokenV::Multiplicacion => "Multiplicacion"@,
        TipoTokenV::Division => "Division"@,
        TipoTokenV::Modulo => "Modulo"@,
        TipoTokenV::Asignacion => "Asignacion"@,
        TipoTokenV::Igual => "Igual"@,
        TipoTokenV::Diferente => "Diferente"@,
        TipoTokenV::Menor => "Menor"@,
        TipoTokenV::MenorIgual => "MenorIgual"@,
        TipoTokenV::Mayor => "Mayor"@,
        TipoTokenV::MayorIgual => "MayorIgual"@,
        TipoTokenV::Y => "Y"@,
        TipoTokenV::O => "O"@,
        TipoTokenV::No => "No"@,
        TipoTokenV::ParentesisAbre => "ParentesisAbre"@,
        TipoTokenV::ParentesisCierra => "ParentesisCierra"@,
        TipoTokenV::LlaveAbre => "LlaveAbre"@,
        TipoTokenV::LlaveCierra => "LlaveCierra"@,
        TipoTokenV::Coma => "Coma"@,
        TipoTokenV::DosPuntos => "DosPuntos"@,
        TipoTokenV::Punto => "Punto"@,
        TipoTokenV::NuevaLinea => "NuevaLinea"@,
        TipoTokenV::Eof => "Eof"@,
        TipoTokenV::Numero(n) => "número "@ + texto_entero(n as int),
        TipoTokenV::Decimal(d) => "decimal "@ + d,
        TipoTokenV::Texto(t) => "texto \""@ + t + "\""@,
        TipoTokenV::Identificador(id) => "identificador '"@ + id + "'"@,
    }
}

/// Appends the name of the kind `t` to `s`.
pub fn agregar_descripcion(s: &mut String, t: &TipoToken)
    ensures
        final(s)@ == old(s)@ + descripcion(t@),
{
    match t {
        TipoToken::Escena => agregar_texto(s, "escena"),
        TipoToken::Mostrar => agregar_texto(s, "mostrar"),
        TipoToken::Var => agregar_texto(s, "var"),
        TipoToken::Constante => agregar_texto(s, "Constante"),
        TipoToken::Si => agregar_texto(s, "si"),
        TipoToken::Sino => agregar_texto(s, "sino"),
        TipoToken::Mientras => agregar_texto(s, "mientras"),
        TipoToken::Para => agregar_texto(s, "para"),
        TipoToken::Funcion => agregar_texto(s, "funcion"),
        TipoToken::Retornar => agregar_texto(s, "retornar"),
        TipoToken::Verdadero => agregar_texto(s, "Verdadero"),
        TipoToken::Falso => agregar_texto(s, "Falso"),
        TipoToken::Cada => agregar_texto(s, "Cada"),
        TipoToken::Frame => agregar_texto(s, "Frame"),
        TipoToken::Cuando => agregar_texto(s, "Cuando"),
        TipoToken::TipoNumero => agregar_texto(s, "TipoNumero"),
        TipoToken::TipoDecimal => agregar_texto(s, "TipoDecimal"),
        TipoToken::TipoTexto => agregar_texto(s, "TipoTexto"),
        TipoToken::TipoBooleano => agregar_texto(s, "TipoBooleano"),
        TipoToken::TipoVector3 => agregar_texto(s, "TipoVector3"),
        TipoToken::TipoPose => agregar_texto(s, "TipoPose"),
        TipoToken::TipoMano => agregar_texto(s, "TipoMano"),
        TipoToken::TipoControlador => agregar_texto(s, "TipoControlador"),
        TipoToken::Suma => agregar_texto(s, "Suma"),
        TipoToken::Resta => agregar_texto(s, "Resta"),
        TipoToken::Multiplicacion => agregar_texto(s, "Multiplicacion"),
        TipoToken::Division => agregar_texto(s, "Division"),
        TipoToken::Modulo => agregar_texto(s, "Modulo"),
        TipoToken::Asignacion => agregar_texto(s, "Asignacion"),
        TipoToken::Igual => agregar_texto(s, "Igual"),
        TipoToken::Diferente => agregar_texto(s, "Diferente"),
        TipoToken::Menor => agregar_texto(s, "Menor"),
        TipoToken::MenorIgual => agregar_texto(s, "MenorIgual"),
        TipoToken::Mayor => agregar_texto(s, "Mayor"),
        TipoToken::MayorIgual => agregar_texto(s, "MayorIgual"),
        TipoToken::Y => agregar_texto(s, "Y"),
        TipoToken::O => agregar_texto(s, "O"),
        TipoToken::No => agregar_texto(s, "No"),
        TipoToken::ParentesisAbre => agregar_texto(s, "ParentesisAbre"),
        TipoToken::ParentesisCierra => agregar_texto(s, "ParentesisCierra"),
        TipoToken::LlaveAbre => agregar_texto(s, "LlaveAbre"),
        TipoToken::LlaveCierra => agregar_texto(s, "LlaveCierra"),
        TipoToken::Coma => agregar_texto(s, "Coma"),
        TipoToken::DosPuntos => agregar_texto(s, "DosPuntos"),
        TipoToken::Punto => agregar_texto(s, "Punto"),
        TipoToken::NuevaLinea => agregar_texto(s, "NuevaLinea"),
        TipoToken::Eof => agregar_texto(s, "Eof"),
        TipoToken::Numero(n) => {
            agregar_texto(s, "número ");
            agregar_entero(s, *n);
            assert(s@ =~= old(s)@ + descripcion(t@));
        },
        TipoToken::Decimal(d) => {
            agregar_texto(s, "decimal ");
            agregar_texto(s, d.as_str());
            assert(s@ =~= old(s)@ + descripcion(t@));
        },
        TipoToken::Texto(x) => {
            agregar_texto(s, "texto \"");
            agregar_texto(s, x.as_str());
            agregar_texto(s, "\"");
            assert(s@ =~= old(s)@ + descripcion(t@));
        },
        TipoToken::Identificador(id) => {
            agregar_texto(s, "identificador '");
            agregar_texto(s, id.as_str());
            agregar_texto(s, "'");
            assert(s@ =~= old(s)@ + descripcion(t@));
        },
    }
}

/// The message of a lexical error.
pub open spec fn mensaje_lexico(e: ErrorLexicoV) -> Seq<char> {
    match e {
        ErrorLexicoV::CaracterInesperado(c, p) => "Carácter inesperado '"@.push(c) + "' en "@
            + texto_de_posicion(p),
        ErrorLexicoV::TextoSinTerminar(p) => "String sin terminar en "@ + texto_de_posicion(p),
        ErrorLexicoV::EnteroInvalido(n, p) => "Número entero inválido '"@ + n + "' en "@
            + texto_de_posicion(p),
    }
}

impl ErrorLexico {
    /// The message of the error.
    pub fn mensaje(&self) -> (s: String)
        ensures
            s@ == mensaje_lexico(self@),
    {
        let mut s = String::new();
        match self {
            ErrorLexico::CaracterInesperado(c, p) => {
                agregar_texto(&mut s, "Carácter inesperado '");
                agregar_caracter(&mut s, *c);
                agregar_texto(&mut s, "' en ");
                agregar_posicion(&mut s, p);
            },
            ErrorLexico::TextoSinTerminar(p) => {
                agregar_texto(&mut s, "String sin terminar en ");
                agregar_posicion(&mut s, p);
            },
            ErrorLexico::EnteroInvalido(n, p) => {
                agregar_texto(&mut s, "Número entero inválido '");
                agregar_texto(&mut s, n.as_str());
                agregar_texto(&mut s, "' en ");
                agregar_posicion(&mut s, p);
            },
        }
        assert(s@ =~= mensaje_lexico(self@));
        s
    }
}

/// What the parser says it was looking for.
pub open spec fn expectativa(e: Esperado) -> Seq<char> {
    match e {
        Esperado::EscenaOFuncion => "Se esperaba 'escena' o 'funcion'"@,
        Esperado::NombreDeEscena => "Se esperaba nombre de escena"@,
        Esperado::LlaveAbreDeEscena => "Se esperaba '{' después del nombre de escena"@,
        Esperado::LlaveCierraDeEscena => "Se esperaba '}' al final de escena"@,
        Esperado::NombreDeFuncion => "Se esperaba nombre de función"@,
        Esperado::ParentesisAbreDeFuncion => "Se esperaba '(' después del nombre de función"@,
        Esperado::NombreDeParametro => "Se esperaba nombre de parámetro"@,
        Esperado::DosPuntosDeParametro => "Se esperaba ':' después del nombre de parámetro"@,
        Esperado::TipoDeDato => "Se esperaba un tipo de dato"@,
        Esperado::ParentesisCierraDeParametros => "Se esperaba ')' después de parámetros"@,
        Esperado::LlaveAbreDeFuncion => "Se esperaba '{' antes del cuerpo de función"@,
        Esperado::LlaveCierraDeFuncion => "Se esperaba '}' al final de función"@,
        Esperado::NombreDeVariable => "Se esperaba nombre de variable"@,
        Esperado::AsignacionDeVariable => "Se esperaba '=' después del nombre de variable"@,
        Esperado::LlaveAbreDeCondicion => "Se esperaba '{' después de condición"@,
        Esperado::LlaveCierraDeSi => "Se esperaba '}' al final del bloque 'si'"@,
        Esperado::LlaveAbreDeSino => "Se esperaba '{' después de 'sino'"@,
        Esperado::LlaveCierraDeSino => "Se esperaba '}' al final del bloque 'sino'"@,
        Esperado::LlaveCierraDeMientras => "Se esperaba '}' al final del bloque 'mientras'"@,
        Esperado::ComaDeRango => "Se esperaba ',' entre inicio y fin"@,
        Esperado::LlaveAbreDeRango => "Se esperaba '{' después del rango"@,
        Esperado::LlaveCierraDePara => "Se esperaba '}' al final del bloque 'para'"@,
        Esperado::ParentesisCierraDeArgumentos => "Se esperaba ')' después de argumentos"@,
        Esperado::ParentesisCierraDeExpresion => "Se esperaba ')' después de expresión"@,
        Esperado::Expresion => "Expresión inesperada"@,
    }
}

/// Appends what the parser was looking for to `s`.
pub fn agregar_expectativa(s: &mut String, e: &Esperado)
    ensures
        final(s)@ == old(s)@ + expectativa(*e),
{
    match e {
        Esperado::EscenaOFuncion => agregar_texto(s, "Se esperaba 'escena' o 'funcion'"),
        Esperado::NombreDeEscena => agregar_texto(s, "Se esperaba nombre de escena"),
        Esperado::LlaveAbreDeEscena => agregar_texto(s, "Se esperaba '{' después del nombre de escena"),
        Esperado::LlaveCierraDeEscena => agregar_texto(s, "Se esperaba '}' al final de escena"),
        Esperado::NombreDeFuncion => agregar_texto(s, "Se esperaba nombre de función"),
        Esperado::ParentesisAbreDeFuncion => agregar_texto(s, "Se esperaba '(' después del nombre de función"),
        Esperado::NombreDeParametro => agregar_texto(s, "Se esperaba nombre de parámetro"),
        Esperado::DosPuntosDeParametro => agregar_texto(s, "Se esperaba ':' después del nombre de parámetro"),
        Esperado::TipoDeDato => agregar_texto(s, "Se esperaba un tipo de dato"),
        Esperado::ParentesisCierraDeParametros => agregar_texto(s, "Se esperaba ')' después de parámetros"),
        Esperado::LlaveAbreDeFuncion => agregar_texto(s, "Se esperaba '{' antes del cuerpo de función"),
        Esperado::LlaveCierraDeFuncion => agregar_texto(s, "Se esperaba '}' al final de función"),
        Esperado::NombreDeVariable => agregar_texto(s, "Se esperaba nombre de variable"),
        Esperado::AsignacionDeVariable => agregar_texto(s, "Se esperaba '=' después del nombre de variable"),
        Esperado::LlaveAbreDeCondicion => agregar_texto(s, "Se esperaba '{' después de condición"),
        Esperado::LlaveCierraDeSi => agregar_texto(s, "Se esperaba '}' al final del bloque 'si'"),
        Esperado::LlaveAbreDeSino => agregar_texto(s, "Se esperaba '{' después de 'sino'"),
        Esperado::LlaveCierraDeSino => agregar_texto(s, "Se esperaba '}' al final del bloque 'sino'"),
        Esperado::LlaveCierraDeMientras => agregar_texto(s, "Se esperaba '}' al final del bloque 'mientras'"),
        Esperado::ComaDeRango => agregar_texto(s, "Se esperaba ',' entre inicio y fin"),
        Esperado::LlaveAbreDeRango => agregar_texto(s, "Se esperaba '{' después del rango"),
        Esperado::LlaveCierraDePara => agregar_texto(s, "Se esperaba '}' al final del bloque 'para'"),
        Esperado::ParentesisCierraDeArgumentos => agregar_texto(s, "Se esperaba ')' después de argumentos"),
        Esperado::ParentesisCierraDeExpresion => agregar_texto(s, "Se esperaba ')' después de expresión"),
        Esperado::Expresion => agregar_texto(s, "Expresión inesperada"),
    }
}

/// The message of a syntax error: what was expected, the token found and
/// where it stands.
pub open spec fn mensaje_sintactico(e: ErrorSintacticoV) -> Seq<char> {
    expectativa(e.esperado) + (if e.esperado is Expresion {
        ": "@
    } else {
        ", se encontró "@
    }) + descripcion(e.encontrado) + " en "@ + texto_de_posicion(e.pos)
}

impl ErrorSintactico {
    /// The message of the error.
    pub fn mensaje(&self) -> (s: String)
        ensures
            s@ == mensaje_sintactico(self@),
    {
        let mut s = String::new();
        agregar_expectativa(&mut s, &self.esperado);
        match self.esperado {
            Esperado::Expresion => agregar_texto(&mut s, ": "),
            _ => agregar_texto(&mut s, ", se encontró "),
        }
        agregar_descripcion(&mut s, &self.encontrado);
        agregar_texto(&mut s, " en ");
        agregar_posicion(&mut s, &self.pos);
        assert(s@ =~= mensaje_sintactico(self@));
        s
    }
}

/// The message of a runtime error, where `escritura` writes decimals.
pub open spec fn mensaje_de_ejecucion(e: ErrorEjecucionV, escritura: spec_fn(Decimal) -> Seq<char>) -> Seq<
    char,
> {
    match e {
        ErrorEjecucionV::VariableNoDefinida { nombre, pos } => "Variable '"@ + nombre
            + "' no definida en "@ + texto_de_posicion(pos),
        ErrorEjecucionV::FuncionNoDefinida { nombre, pos } => "Función '"@ + nombre
            + "' no definida en "@ + texto_de_posicion(pos),
        ErrorEjecucionV::Aridad { nombre, esperados, recibidos, pos } => "Función '"@ + nombre
            + "' espera "@ + digitos(esperados as nat) + " argumentos, se proporcionaron "@ + digitos(
            recibidos as nat,
        ) + " en "@ + texto_de_posicion(pos),
        ErrorEjecucionV::OperadorNoAplicable { operador, izquierda, derecha, pos } => "Operador '"@
            + simbolo(operador) + "' no aplicable a "@ + izquierda.texto(escritura) + " y "@
            + derecha.texto(escritura) + " en "@ + texto_de_posicion(pos),
        ErrorEjecucionV::NegacionNoAplicable { valor, pos } => "Operador '-' no aplicable a "@
            + valor.texto(escritura) + " en "@ + texto_de_posicion(pos),
        ErrorEjecucionV::DivisionPorCero { operador, pos } => (if operador is Modulo {
            "Módulo por cero en "@
        } else {
            "División por cero en "@
        }) + texto_de_posicion(pos),
        ErrorEjecucionV::RangoNoNumerico { extremo, valor, pos } => (if extremo is Inicio {
            "Inicio"@
        } else {
            "Fin"@
        }) + " de 'para' debe ser número: No se puede convertir "@ + valor.texto(escritura)
            + " a número en "@ + texto_de_posicion(pos),
        ErrorEjecucionV::LimiteExcedido => "Límite de llamadas y vueltas excedido"@,
    }
}

impl ErrorEjecucion {
    /// The message of the error, where `fm` writes decimals.
    pub fn mensaje<T: Fn(Decimal) -> String>(&self, fm: &T) -> (s: String)
        requires
            formato_valido(fm),
        ensures
            s@ == mensaje_de_ejecucion(self@, escritura_de(fm)),
    {
        let mut s = String::new();
        match self {
            ErrorEjecucion::VariableNoDefinida { nombre, pos } => {
                agregar_texto(&mut s, "Variable '");
                agregar_texto(&mut s, nombre.as_str());
                agregar_texto(&mut s, "' no definida en ");
                agregar_posicion(&mut s, pos);
            },
            ErrorEjecucion::FuncionNoDefinida { nombre, pos } => {
                agregar_texto(&mut s, "Función '");
                agregar_texto(&mut s, nombre.as_str());
                agregar_texto(&mut s, "' no definida en ");
                agregar_posicion(&mut s, pos);
            },
            ErrorEjecucion::Aridad { nombre, esperados, recibidos, pos } => {
                agregar_texto(&mut s, "Función '");
                agregar_texto(&mut s, nombre.as_str());
                agregar_texto(&mut s, "' espera ");
                agregar_natural(&mut s, *esperados as u64);
                agregar_texto(&mut s, " argumentos, se proporcionaron ");
                agregar_natural(&mut s, *recibidos as u64);
                agregar_texto(&mut s, " en ");
                agregar_posicion(&mut s, pos);
            },
            ErrorEjecucion::OperadorNoAplicable { operador, izquierda, derecha, pos } => {
                agregar_texto(&mut s, "Operador '");
                agregar_simbolo(&mut s, operador);
                agregar_texto(&mut s, "' no aplicable a ");
                izquierda.agregar_a(&mut s, fm);
                agregar_texto(&mut s, " y ");
                derecha.agregar_a(&mut s, fm);
                agregar_texto(&mut s, " en ");
                agregar_posicion(&mut s, pos);
            },
            ErrorEjecucion::NegacionNoAplicable { valor, pos } => {
                agregar_texto(&mut s, "Operador '-' no aplicable a ");
                valor.agregar_a(&mut s, fm);
                agregar_texto(&mut s, " en ");
                agregar_posicion(&mut s, pos);
            },
            ErrorEjecucion::DivisionPorCero { operador, pos } => {
                match operador {
                    OperadorBinario::Modulo => agregar_texto(&mut s, "Módulo por cero en "),
                    _ => agregar_texto(&mut s, "División por cero en "),
                }
                agregar_posicion(&mut s, pos);
            },
            ErrorEjecucion::RangoNoNumerico { extremo, valor, pos } => {
                match extremo {
                    Extremo::Inicio => agregar_texto(&mut s, "Inicio"),
                    Extremo::Fin => agregar_texto(&mut s, "Fin"),
                }
                agregar_texto(&mut s, " de 'para' debe ser número: No se puede convertir ");
                valor.agregar_a(&mut s, fm);
                agregar_texto(&mut s, " a número en ");
                agregar_posicion(&mut s, pos);
            },
            ErrorEjecucion::LimiteExcedido => {
                agregar_texto(&mut s, "Límite de llamadas y vueltas excedido");
            },
        }
        assert(s@ =~= mensaje_de_ejecucion(self@, escritura_de(fm)));
        s
    }
}

/// The message of the error of a run: the stage that failed, then its message.
pub open spec fn mensaje_de_error(e: ErrorVCodeV, escritura: spec_fn(Decimal) -> Seq<char>) -> Seq<char> {
    match e {
        ErrorVCodeV::Lexico(x) => "Error léxico: "@ + mensaje_lexico(x),
        ErrorVCodeV::Sintactico(x) => "Error sintáctico: "@ + mensaje_sintactico(x),
        ErrorVCodeV::Ejecucion(x) => "Error de ejecución: "@ + mensaje_de_ejecucion(x, escritura),
    }
}

impl ErrorVCode {
    /// The message of the error, where `fm` writes decimals.
    pub fn mensaje<T: Fn(Decimal) -> String>(&self, fm: &T) -> (s: String)
        requires
            formato_valido(fm),
        ensures
            s@ == mensaje_de_error(self@, escritura_de(fm)),
    {
        let mut s = String::new();
        match self {
            ErrorVCode::Lexico(x) => {
                agregar_texto(&mut s, "Error léxico: ");
                let m = x.mensaje();
                agregar_texto(&mut s, m.as_str());
            },
            ErrorVCode::Sintactico(x) => {
                agregar_texto(&mut s, "Error sintáctico: ");
                let m = x.mensaje();
                agregar_texto(&mut s, m.as_str());
            },
            ErrorVCode::Ejecucion(x) => {
                agregar_texto(&mut s, "Error de ejecución: ");
                let m = x.mensaje(fm);
                agregar_texto(&mut s, m.as_str());
            },
        }
        assert(s@ =~= mensaje_de_error(self@, escritura_de(fm)));
        s
    }
}

} // verus!
