//! The three stages in a row: source text in, the lines shown out.

use vstd::prelude::*;
use crate::decimal::{aritmetica_valida, decimales_de, formato_valido, Decimal, Decimales, OperacionDecimal};
use crate::ejecutor::{vista_salida, Ejecutor};
use crate::error::{ErrorEjecucion, ErrorEjecucionV};
use crate::lexer::{tokens_de, ErrorLexico, ErrorLexicoV, Lexer};
use crate::parser::{programa_de, ErrorSintactico, ErrorSintacticoV, Parser};
use crate::semantica::programa_v;

verus! {

/// The error of any stage.
#[derive(Debug, PartialEq)]
pub enum ErrorVCode {
    Lexico(ErrorLexico),
    Sintactico(ErrorSintactico),
    Ejecucion(ErrorEjecucion),
}

/// Model of [`ErrorVCode`].
pub enum ErrorVCodeV {
    Lexico(ErrorLexicoV),
    Sintactico(ErrorSintacticoV),
    Ejecucion(ErrorEjecucionV),
}

impl View for ErrorVCode {
    type V = ErrorVCodeV;

    open spec fn view(&self) -> ErrorVCodeV {
        match self {
            ErrorVCode::Lexico(e) => ErrorVCodeV::Lexico(e@),
            ErrorVCode::Sintactico(e) => ErrorVCodeV::Sintactico(e@),
            ErrorVCode::Ejecucion(e) => ErrorVCodeV::Ejecucion(e@),
        }
    }
}

/// A run that failed: the error, and the lines shown before it.
#[derive(Debug, PartialEq)]
pub struct Fallo {
    pub error: ErrorVCode,
    pub salida: Vec<String>,
}

/// What running the source text `codigo` gives: the error of the first stage
/// that fails, if one does, and the lines shown. A text that is not lexed or
/// not parsed shows nothing.
pub open spec fn interpretar_v(codigo: Seq<char>, dec: Decimales, n: nat) -> (
    Result<(), ErrorVCodeV>,
    Seq<Seq<char>>,
) {
    match tokens_de(codigo) {
        Err(e) => (Err(ErrorVCodeV::Lexico(e)), Seq::empty()),
        Ok(tokens) => match programa_de(tokens) {
            Err(e) => (Err(ErrorVCodeV::Sintactico(e)), Seq::empty()),
            Ok(programa) => match programa_v(dec, programa.declaraciones, n) {
                (Ok(_), salida) => (Ok(()), salida),
                (Err(e), salida) => (Err(ErrorVCodeV::Ejecucion(e)), salida),
            },
        },
    }
}

/// The outcome of a run and the lines it showed, as models.
pub open spec fn vista_de_ejecucion(r: Result<Vec<String>, Fallo>) -> (
    Result<(), ErrorVCodeV>,
    Seq<Seq<char>>,
) {
    match r {
        Ok(salida) => (Ok(()), vista_salida(salida@)),
        Err(fallo) => (Err(fallo.error@), vista_salida(fallo.salida@)),
    }
}

/// Runs the source text `codigo` with the budget `limite` for each scene.
pub fn ejecutar_con_limite<A: Fn(OperacionDecimal) -> Decimal, T: Fn(Decimal) -> String>(
    codigo: &str,
    limite: u64,
    ar: &A,
    fm: &T,
) -> (r: Result<Vec<String>, Fallo>)
    requires
        aritmetica_valida(ar),
        formato_valido(fm),
    ensures
        vista_de_ejecucion(r) == interpretar_v(codigo@, decimales_de(ar, fm), limite as nat),
{
    let mut lexer = Lexer::new(codigo);
    let tokens = match lexer.tokenizar() {
        Ok(tokens) => tokens,
        Err(e) => {
            let salida: Vec<String> = Vec::new();
            proof {
                assert(vista_salida(salida@) =~= Seq::empty());
            }
            return Err(Fallo { error: ErrorVCode::Lexico(e), salida });
        },
    };
    let mut parser = Parser::new(tokens);
    let programa = match parser.parsear() {
        Ok(programa) => programa,
        Err(e) => {
            let salida: Vec<String> = Vec::new();
            proof {
                assert(vista_salida(salida@) =~= Seq::empty());
            }
            return Err(Fallo { error: ErrorVCode::Sintactico(e), salida });
        },
    };
    let mut ejecutor = Ejecutor::con_limite(limite);
    match ejecutor.ejecutar(&programa, ar, fm) {
        Ok(_) => Ok(ejecutor.tomar_salida()),
        Err(e) => Err(Fallo { error: ErrorVCode::Ejecucion(e), salida: ejecutor.tomar_salida() }),
    }
}

/// Runs the source text `codigo`: the lines it shows, or the error that ended
/// the run with the lines shown before it.
pub fn ejecutar<A: Fn(OperacionDecimal) -> Decimal, T: Fn(Decimal) -> String>(
    codigo: &str,
    ar: &A,
    fm: &T,
) -> (r: Result<Vec<String>, Fallo>)
    requires
        aritmetica_valida(ar),
        formato_valido(fm),
    ensures
        vista_de_ejecucion(r) == interpretar_v(codigo@, decimales_de(ar, fm), u64::MAX as nat),
{
    ejecutar_con_limite(codigo, u64::MAX, ar, fm)
}

} // verus!
