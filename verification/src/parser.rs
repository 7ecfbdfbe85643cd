//! Syntax analysis: from a token stream to the syntax tree of a program.
//!
//! The grammar is stated as functions on the model of a token stream and an
//! index into it; each gives the tree that starts at the index and the index
//! after it, or the first error. The parser computes exactly these functions.

use vstd::prelude::*;
use vstd::string::StringExecFns;
use crate::ast::{
    vista_bloque, vista_parametros, Declaracion, DeclaracionV, Escena, EscenaV, Expresion, ExpresionV,
    Funcion, FuncionV, OperadorBinario, OperadorUnario, Parametro, ParametroV, Posicion, Programa,
    ProgramaV, Sentencia, SentenciaV, Tipo,
};
use crate::lexer::{misma_clase, vista_tokens, TipoToken, TipoTokenV, Token, TokenV};

verus! {

/// What the parser was looking for where it stopped.
#[derive(Debug, Clone, Copy, PartialEq, Eq, Structural)]
pub enum Esperado {
    /// `escena` or `funcion` at the top level.
    EscenaOFuncion,
    NombreDeEscena,
    /// `{` after the name of a scene.
    LlaveAbreDeEscena,
    /// `}` at the end of a scene.
    LlaveCierraDeEscena,
    NombreDeFuncion,
    /// `(` after the name of a function.
    ParentesisAbreDeFuncion,
    NombreDeParametro,
    /// `:` after the name of a parameter.
    DosPuntosDeParametro,
    TipoDeDato,
    /// `)` after the parameters.
    ParentesisCierraDeParametros,
    /// `{` before the body of a function.
    LlaveAbreDeFuncion,
    /// `}` at the end of a function.
    LlaveCierraDeFuncion,
    NombreDeVariable,
    /// `=` after the name of a variable.
    AsignacionDeVariable,
    /// `{` after a condition.
    LlaveAbreDeCondicion,
    /// `}` at the end of the block of a `si`.
    LlaveCierraDeSi,
    /// `{` after `sino`.
    LlaveAbreDeSino,
    /// `}` at the end of the block of a `sino`.
    LlaveCierraDeSino,
    /// `}` at the end of the block of a `mientras`.
    LlaveCierraDeMientras,
    /// `,` between the two ends of a range.
    ComaDeRango,
    /// `{` after a range.
    LlaveAbreDeRango,
    /// `}` at the end of the block of a `para`.
    LlaveCierraDePara,
    /// `)` after the arguments of a call.
    ParentesisCierraDeArgumentos,
    /// `)` after an expression in parentheses.
    ParentesisCierraDeExpresion,
    /// The start of an expression.
    Expresion,
}

/// A syntax error: what was expected, and the token found in its place.
#[derive(Debug, PartialEq)]
pub struct ErrorSintactico {
    pub esperado: Esperado,
    pub encontrado: TipoToken,
    pub pos: Posicion,
}

/// Model of [`ErrorSintactico`].
pub struct ErrorSintacticoV {
    pub esperado: Esperado,
    pub encontrado: TipoTokenV,
    pub pos: Posicion,
}

impl View for ErrorSintactico {
    type V = ErrorSintacticoV;

    open spec fn view(&self) -> ErrorSintacticoV {
        ErrorSintacticoV { esperado: self.esperado, encontrado: self.encontrado@, pos: self.pos }
    }
}

/// A token stream that the parser accepts: not empty, with the end marker last.
pub open spec fn bien_formados(t: Seq<TokenV>) -> bool {
    t.len() > 0 && t.last().tipo is Eof
}

/// How many tokens stand at index `p` and after it.
pub open spec fn restantes(t: Seq<TokenV>, p: int) -> nat {
    if 0 <= p <= t.len() {
        (t.len() - p) as nat
    } else {
        0
    }
}

/// Whether the token at `p` is the end marker.
pub open spec fn en_fin(t: Seq<TokenV>, p: int) -> bool {
    t[p].tipo is Eof
}

/// Whether the token at `p` is of the kind `tipo`, and not the end marker.
pub open spec fn hay(t: Seq<TokenV>, p: int, tipo: TipoTokenV) -> bool {
    !en_fin(t, p) && misma_clase(t[p].tipo, tipo)
}

/// The error of finding the token at `p` where `esperado` was looked for.
pub open spec fn fallo(t: Seq<TokenV>, p: int, esperado: Esperado) -> ErrorSintacticoV {
    ErrorSintacticoV { esperado, encontrado: t[p].tipo, pos: t[p].pos }
}

/// Steps over the token at `p` if it is of the kind `tipo`.
pub open spec fn consumir_v(t: Seq<TokenV>, p: int, tipo: TipoTokenV, esperado: Esperado) -> Result<
    int,
    ErrorSintacticoV,
> {
    if hay(t, p, tipo) {
        Ok(p + 1)
    } else {
        Err(fallo(t, p, esperado))
    }
}

/// The name that a token of kind `tipo` spells where a name is looked for: an
/// identifier's own, and `y` and `o` for the two words that are operators
/// between operands.
pub open spec fn nombre_de_token(tipo: TipoTokenV) -> Option<Seq<char>> {
    match tipo {
        TipoTokenV::Identificador(id) => Some(id),
        TipoTokenV::Y => Some("y"@),
        TipoTokenV::O => Some("o"@),
        _ => None,
    }
}

/// The name at `p`.
pub open spec fn nombre_v(t: Seq<TokenV>, p: int, esperado: Esperado) -> Result<
    (Seq<char>, int),
    ErrorSintacticoV,
> {
    match nombre_de_token(t[p].tipo) {
        Some(id) => Ok((id, p + 1)),
        None => Err(fallo(t, p, esperado)),
    }
}

/// The type name at `p`.
pub open spec fn tipo_v(t: Seq<TokenV>, p: int) -> Result<(Tipo, int), ErrorSintacticoV> {
    match t[p].tipo {
        TipoTokenV::TipoNumero => Ok((Tipo::Numero, p + 1)),
        TipoTokenV::TipoDecimal => Ok((Tipo::Decimal, p + 1)),
        TipoTokenV::TipoTexto => Ok((Tipo::Texto, p + 1)),
        TipoTokenV::TipoBooleano => Ok((Tipo::Booleano, p + 1)),
        TipoTokenV::TipoVector3 => Ok((Tipo::Vector3, p + 1)),
        TipoTokenV::TipoPose => Ok((Tipo::Pose, p + 1)),
        TipoTokenV::TipoMano => Ok((Tipo::Mano, p + 1)),
        TipoTokenV::TipoControlador => Ok((Tipo::Controlador, p + 1)),
        _ => Err(fallo(t, p, Esperado::TipoDeDato)),
    }
}

/// The outcome `r` of reading something from `p`, kept only if it ends after
/// `p`. Every outcome of the grammar does; the test is what shows that the
/// grammar's definitions end.
pub open spec fn adelante<X>(t: Seq<TokenV>, p: int, r: Result<(X, int), ErrorSintacticoV>) -> Result<
    (X, int),
    ErrorSintacticoV,
> {
    match r {
        Ok((x, q)) => if q > p {
            r
        } else {
            Err(fallo(t, p, Esperado::Expresion))
        },
        Err(_) => r,
    }
}

/// The binary operator that a token of kind `tipo` is at precedence level
/// `nivel`. Level 0 binds loosest (`o`), level 5 tightest (`*`, `/`, `%`).
pub open spec fn operador_de(nivel: nat, tipo: TipoTokenV) -> Option<OperadorBinario> {
    match tipo {
        TipoTokenV::O => if nivel == 0 { Some(OperadorBinario::O) } else { None },
        TipoTokenV::Y => if nivel == 1 { Some(OperadorBinario::Y) } else { None },
        TipoTokenV::Igual => if nivel == 2 { Some(OperadorBinario::Igual) } else { None },
        TipoTokenV::Diferente => if nivel == 2 { Some(OperadorBinario::Diferente) } else { None },
        TipoTokenV::Menor => if nivel == 3 { Some(OperadorBinario::Menor) } else { None },
        TipoTokenV::MenorIgual => if nivel == 3 { Some(OperadorBinario::MenorIgual) } else { None },
        TipoTokenV::Mayor => if nivel == 3 { Some(OperadorBinario::Mayor) } else { None },
        TipoTokenV::MayorIgual => if nivel == 3 { Some(OperadorBinario::MayorIgual) } else { None },
        TipoTokenV::Suma => if nivel == 4 { Some(OperadorBinario::Suma) } else { None },
        TipoTokenV::Resta => if nivel == 4 { Some(OperadorBinario::Resta) } else { None },
        TipoTokenV::Multiplicacion => if nivel == 5 { Some(OperadorBinario::Multiplicacion) } else { None },
        TipoTokenV::Division => if nivel == 5 { Some(OperadorBinario::Division) } else { None },
        TipoTokenV::Modulo => if nivel == 5 { Some(OperadorBinario::Modulo) } else { None },
        _ => None,
    }
}

/// The unary operator that a token of kind `tipo` is.
pub open spec fn operador_unario_de(tipo: TipoTokenV) -> Option<OperadorUnario> {
    match tipo {
        TipoTokenV::No => Some(OperadorUnario::No),
        TipoTokenV::Resta => Some(OperadorUnario::Negacion),
        _ => None,
    }
}

/// The primary expression at `p`: a literal, a name, or an expression in parentheses.
pub open spec fn primario_v(t: Seq<TokenV>, p: int) -> Result<(ExpresionV, int), ErrorSintacticoV>
    decreases restantes(t, p), 0nat,
    when 0 <= p < t.len()
{
    match t[p].tipo {
        TipoTokenV::Numero(n) => Ok((ExpresionV::Numero(n, t[p].pos), p + 1)),
        TipoTokenV::Decimal(s) => Ok((ExpresionV::Decimal(s, t[p].pos), p + 1)),
        TipoTokenV::Texto(s) => Ok((ExpresionV::Texto(s, t[p].pos), p + 1)),
        TipoTokenV::Verdadero => Ok((ExpresionV::Booleano(true, t[p].pos), p + 1)),
        TipoTokenV::Falso => Ok((ExpresionV::Booleano(false, t[p].pos), p + 1)),
        TipoTokenV::Identificador(id) => Ok((ExpresionV::Variable(id, t[p].pos), p + 1)),
        TipoTokenV::Y => Ok((ExpresionV::Variable("y"@, t[p].pos), p + 1)),
        TipoTokenV::O => Ok((ExpresionV::Variable("o"@, t[p].pos), p + 1)),
        TipoTokenV::ParentesisAbre => match expresion_v(t, p + 1) {
            Ok((e, q)) => match consumir_v(
                t,
                q,
                TipoTokenV::ParentesisCierra,
                Esperado::ParentesisCierraDeExpresion,
            ) {
                Ok(r) => Ok((e, r)),
                Err(error) => Err(error),
            },
            Err(error) => Err(error),
        },
        _ => Err(fallo(t, p, Esperado::Expresion)),
    }
}

/// The arguments of a call from `p` on, after `acc`: expressions with commas
/// between them.
pub open spec fn argumentos_v(t: Seq<TokenV>, p: int, acc: Seq<ExpresionV>) -> Result<
    (Seq<ExpresionV>, int),
    ErrorSintacticoV,
>
    decreases restantes(t, p), 22nat,
    when 0 <= p < t.len()
{
    match adelante(t, p, expresion_v(t, p)) {
        Ok((e, q)) => if hay(t, q, TipoTokenV::Coma) {
            argumentos_v(t, q + 1, acc.push(e))
        } else {
            Ok((acc.push(e), q))
        },
        Err(error) => Err(error),
    }
}

/// The call or primary expression at `p`. A call is a name with `(` right after it.
pub open spec fn llamada_v(t: Seq<TokenV>, p: int) -> Result<(ExpresionV, int), ErrorSintacticoV>
    decreases restantes(t, p), 1nat,
    when 0 <= p < t.len()
{
    match nombre_de_token(t[p].tipo) {
        Some(id) => if hay(t, p + 1, TipoTokenV::ParentesisAbre) {
            if hay(t, p + 2, TipoTokenV::ParentesisCierra) {
                Ok((ExpresionV::Llamada(id, Seq::empty(), t[p].pos), p + 3))
            } else {
                match argumentos_v(t, p + 2, Seq::empty()) {
                    Ok((args, q)) => match consumir_v(
                        t,
                        q,
                        TipoTokenV::ParentesisCierra,
                        Esperado::ParentesisCierraDeArgumentos,
                    ) {
                        Ok(r) => Ok((ExpresionV::Llamada(id, args, t[p].pos), r)),
                        Err(error) => Err(error),
                    },
                    Err(error) => Err(error),
                }
            }
        } else {
            Ok((ExpresionV::Variable(id, t[p].pos), p + 1))
        },
        None => primario_v(t, p),
    }
}

/// The unary expression at `p`: any number of `no` and `-`, then a call or primary.
pub open spec fn unario_v(t: Seq<TokenV>, p: int) -> Result<(ExpresionV, int), ErrorSintacticoV>
    decreases restantes(t, p), 2nat,
    when 0 <= p < t.len()
{
    match operador_unario_de(t[p].tipo) {
        Some(op) => match unario_v(t, p + 1) {
            Ok((e, q)) => Ok((ExpresionV::Unaria(op, Box::new(e), t[p].pos), q)),
            Err(error) => Err(error),
        },
        None => llamada_v(t, p),
    }
}

/// The operand of a binary operator of level `nivel` at `p`: an expression of
/// the next level, or a unary expression under the tightest level.
pub open spec fn operando_v(t: Seq<TokenV>, p: int, nivel: nat) -> Result<
    (ExpresionV, int),
    ErrorSintacticoV,
>
    decreases restantes(t, p), (if nivel <= 5 { 19 - 2 * nivel } else { 3 }) as nat,
    when 0 <= p < t.len()
{
    if nivel < 5 {
        binaria_v(t, p, nivel + 1)
    } else {
        unario_v(t, p)
    }
}

/// The expression of level `nivel` at `p`: operands of that level joined, from
/// the left, by its operators.
pub open spec fn binaria_v(t: Seq<TokenV>, p: int, nivel: nat) -> Result<
    (ExpresionV, int),
    ErrorSintacticoV,
>
    decreases restantes(t, p), (if nivel <= 5 { 20 - 2 * nivel } else { 4 }) as nat,
    when 0 <= p < t.len()
{
    match adelante(t, p, operando_v(t, p, nivel)) {
        Ok((izq, q)) => binaria_resto_v(t, q, nivel, izq),
        Err(error) => Err(error),
    }
}

/// Continues an expression of level `nivel` whose left part `izq` ends before
/// `p`: while an operator of the level follows, its right operand is read and
/// joined to what was read so far.
pub open spec fn binaria_resto_v(t: Seq<TokenV>, p: int, nivel: nat, izq: ExpresionV) -> Result<
    (ExpresionV, int),
    ErrorSintacticoV,
>
    decreases restantes(t, p), 10nat,
    when 0 <= p < t.len()
{
    match operador_de(nivel, t[p].tipo) {
        Some(op) => match adelante(t, p + 1, operando_v(t, p + 1, nivel)) {
            Ok((der, q)) => binaria_resto_v(
                t,
                q,
                nivel,
                ExpresionV::Binaria(Box::new(izq), op, Box::new(der), t[p].pos),
            ),
            Err(error) => Err(error),
        },
        None => Ok((izq, p)),
    }
}

/// The expression at `p`.
pub open spec fn expresion_v(t: Seq<TokenV>, p: int) -> Result<(ExpresionV, int), ErrorSintacticoV>
    decreases restantes(t, p), 21nat,
    when 0 <= p < t.len()
{
    binaria_v(t, p, 0)
}

/// The statements from `p` up to the `}` or the end marker that closes them, after `acc`.
pub open spec fn bloque_v(t: Seq<TokenV>, p: int, acc: Seq<SentenciaV>) -> Result<
    (Seq<SentenciaV>, int),
    ErrorSintacticoV,
>
    decreases restantes(t, p), 41nat,
    when 0 <= p < t.len()
{
    if hay(t, p, TipoTokenV::LlaveCierra) || en_fin(t, p) {
        Ok((acc, p))
    } else {
        match adelante(t, p, sentencia_v(t, p)) {
            Ok((s, q)) => bloque_v(t, q, acc.push(s)),
            Err(error) => Err(error),
        }
    }
}

/// The block at `p`: `{`, statements, `}`. Where a brace is missing the error
/// says `abre` or `cierra`.
pub open spec fn entre_llaves_v(t: Seq<TokenV>, p: int, abre: Esperado, cierra: Esperado) -> Result<
    (Seq<SentenciaV>, int),
    ErrorSintacticoV,
>
    decreases restantes(t, p), 42nat,
    when 0 <= p < t.len()
{
    if hay(t, p, TipoTokenV::LlaveAbre) {
        match bloque_v(t, p + 1, Seq::empty()) {
            Ok((b, q)) => match consumir_v(t, q, TipoTokenV::LlaveCierra, cierra) {
                Ok(r) => Ok((b, r)),
                Err(error) => Err(error),
            },
            Err(error) => Err(error),
        }
    } else {
        Err(fallo(t, p, abre))
    }
}

/// The `si` statement at `p`: `si`, a condition, a block, and `sino` with a
/// block if it follows.
pub open spec fn sentencia_si_v(t: Seq<TokenV>, p: int) -> Result<(SentenciaV, int), ErrorSintacticoV>
    decreases restantes(t, p), 39nat,
    when 0 <= p < t.len()
{
    match adelante(t, p, expresion_v(t, p + 1)) {
        Ok((c, q)) => match adelante(
            t,
            q,
            entre_llaves_v(t, q, Esperado::LlaveAbreDeCondicion, Esperado::LlaveCierraDeSi),
        ) {
            Ok((entonces, r)) => if hay(t, r, TipoTokenV::Sino) {
                match entre_llaves_v(t, r + 1, Esperado::LlaveAbreDeSino, Esperado::LlaveCierraDeSino) {
                    Ok((sino, u)) => Ok((SentenciaV::Si(c, entonces, Some(sino), t[p].pos), u)),
                    Err(error) => Err(error),
                }
            } else {
                Ok((SentenciaV::Si(c, entonces, None, t[p].pos), r))
            },
            Err(error) => Err(error),
        },
        Err(error) => Err(error),
    }
}

/// The `mientras` statement at `p`: `mientras`, a condition, a block.
pub open spec fn sentencia_mientras_v(t: Seq<TokenV>, p: int) -> Result<
    (SentenciaV, int),
    ErrorSintacticoV,
>
    decreases restantes(t, p), 39nat,
    when 0 <= p < t.len()
{
    match adelante(t, p, expresion_v(t, p + 1)) {
        Ok((c, q)) => match entre_llaves_v(
            t,
            q,
            Esperado::LlaveAbreDeCondicion,
            Esperado::LlaveCierraDeMientras,
        ) {
            Ok((cuerpo, r)) => Ok((SentenciaV::Mientras(c, cuerpo, t[p].pos), r)),
            Err(error) => Err(error),
        },
        Err(error) => Err(error),
    }
}

/// The `para` statement at `p`: its head and a block.
pub open spec fn sentencia_para_v(t: Seq<TokenV>, p: int) -> Result<(SentenciaV, int), ErrorSintacticoV>
    decreases restantes(t, p), 39nat,
    when 0 <= p < t.len()
{
    match adelante(t, p, rango_v(t, p)) {
        Ok(((variable, inicio, fin), q)) => match entre_llaves_v(
            t,
            q,
            Esperado::LlaveAbreDeRango,
            Esperado::LlaveCierraDePara,
        ) {
            Ok((cuerpo, r)) => Ok((SentenciaV::Para(variable, inicio, fin, cuerpo, t[p].pos), r)),
            Err(error) => Err(error),
        },
        Err(error) => Err(error),
    }
}

/// The `mostrar` statement at `p`: `mostrar` and an expression.
pub open spec fn sentencia_mostrar_v(t: Seq<TokenV>, p: int) -> Result<
    (SentenciaV, int),
    ErrorSintacticoV,
> {
    match expresion_v(t, p + 1) {
        Ok((e, q)) => Ok((SentenciaV::Mostrar(e, t[p].pos), q)),
        Err(error) => Err(error),
    }
}

/// The `retornar` statement at `p`: `retornar`, and an expression unless `}` follows.
pub open spec fn sentencia_retornar_v(t: Seq<TokenV>, p: int) -> Result<
    (SentenciaV, int),
    ErrorSintacticoV,
> {
    if hay(t, p + 1, TipoTokenV::LlaveCierra) {
        Ok((SentenciaV::Retornar(None, t[p].pos), p + 1))
    } else {
        match expresion_v(t, p + 1) {
            Ok((e, q)) => Ok((SentenciaV::Retornar(Some(e), t[p].pos), q)),
            Err(error) => Err(error),
        }
    }
}

/// The expression at `p`, as a statement.
pub open spec fn sentencia_expresion_v(t: Seq<TokenV>, p: int) -> Result<
    (SentenciaV, int),
    ErrorSintacticoV,
> {
    match expresion_v(t, p) {
        Ok((e, q)) => Ok((SentenciaV::Expresion(e), q)),
        Err(error) => Err(error),
    }
}

/// The statement at `p` that starts with the name `id`: an assignment where
/// `=` follows the name, else an expression.
pub open spec fn sentencia_de_nombre_v(t: Seq<TokenV>, p: int, id: Seq<char>) -> Result<
    (SentenciaV, int),
    ErrorSintacticoV,
> {
    if hay(t, p + 1, TipoTokenV::Asignacion) {
        match expresion_v(t, p + 2) {
            Ok((e, q)) => Ok((SentenciaV::Asignacion(id, e, t[p].pos), q)),
            Err(error) => Err(error),
        }
    } else {
        sentencia_expresion_v(t, p)
    }
}

/// The statement at `p`.
pub open spec fn sentencia_v(t: Seq<TokenV>, p: int) -> Result<(SentenciaV, int), ErrorSintacticoV>
    decreases restantes(t, p), 40nat,
    when 0 <= p < t.len()
{
    match t[p].tipo {
        TipoTokenV::Mostrar => sentencia_mostrar_v(t, p),
        TipoTokenV::Var => sentencia_var_v(t, p),
        TipoTokenV::Si => sentencia_si_v(t, p),
        TipoTokenV::Mientras => sentencia_mientras_v(t, p),
        TipoTokenV::Para => sentencia_para_v(t, p),
        TipoTokenV::Retornar => sentencia_retornar_v(t, p),
        TipoTokenV::Identificador(id) => sentencia_de_nombre_v(t, p, id),
        TipoTokenV::Y => sentencia_de_nombre_v(t, p, "y"@),
        TipoTokenV::O => sentencia_de_nombre_v(t, p, "o"@),
        _ => sentencia_expresion_v(t, p),
    }
}

/// The declaration of a variable at `p`: `var`, a name, `=`, an expression.
pub open spec fn sentencia_var_v(t: Seq<TokenV>, p: int) -> Result<(SentenciaV, int), ErrorSintacticoV> {
    match nombre_v(t, p + 1, Esperado::NombreDeVariable) {
        Ok((nombre, q)) => match consumir_v(
            t,
            q,
            TipoTokenV::Asignacion,
            Esperado::AsignacionDeVariable,
        ) {
            Ok(r) => match expresion_v(t, r) {
                Ok((e, u)) => Ok((SentenciaV::Var(nombre, e, t[p].pos), u)),
                Err(error) => Err(error),
            },
            Err(error) => Err(error),
        },
        Err(error) => Err(error),
    }
}

/// The head of a `para` at `p`: `para`, a name, `=`, the start, `,`, the end.
pub open spec fn rango_v(t: Seq<TokenV>, p: int) -> Result<
    ((Seq<char>, ExpresionV, ExpresionV), int),
    ErrorSintacticoV,
> {
    match nombre_v(t, p + 1, Esperado::NombreDeVariable) {
        Ok((variable, q)) => match consumir_v(
            t,
            q,
            TipoTokenV::Asignacion,
            Esperado::AsignacionDeVariable,
        ) {
            Ok(r) => match expresion_v(t, r) {
                Ok((inicio, u)) => match consumir_v(t, u, TipoTokenV::Coma, Esperado::ComaDeRango) {
                    Ok(w) => match expresion_v(t, w) {
                        Ok((fin, x)) => Ok(((variable, inicio, fin), x)),
                        Err(error) => Err(error),
                    },
                    Err(error) => Err(error),
                },
                Err(error) => Err(error),
            },
            Err(error) => Err(error),
        },
        Err(error) => Err(error),
    }
}

/// The scene at `p`: `escena`, a name, a block.
pub open spec fn escena_v(t: Seq<TokenV>, p: int) -> Result<(EscenaV, int), ErrorSintacticoV> {
    match nombre_v(t, p + 1, Esperado::NombreDeEscena) {
        Ok((nombre, q)) => match entre_llaves_v(
            t,
            q,
            Esperado::LlaveAbreDeEscena,
            Esperado::LlaveCierraDeEscena,
        ) {
            Ok((cuerpo, r)) => Ok((EscenaV { nombre, cuerpo, pos: t[p].pos }, r)),
            Err(error) => Err(error),
        },
        Err(error) => Err(error),
    }
}

/// The parameters from `p` on, after `acc`: `name: type`, with commas between them.
pub open spec fn parametros_v(t: Seq<TokenV>, p: int, acc: Seq<ParametroV>) -> Result<
    (Seq<ParametroV>, int),
    ErrorSintacticoV,
>
    decreases restantes(t, p),
    when 0 <= p < t.len()
{
    match nombre_v(t, p, Esperado::NombreDeParametro) {
        Ok((nombre, q)) => match consumir_v(
            t,
            q,
            TipoTokenV::DosPuntos,
            Esperado::DosPuntosDeParametro,
        ) {
            Ok(r) => match tipo_v(t, r) {
                Ok((tipo_dato, u)) => if hay(t, u, TipoTokenV::Coma) {
                    parametros_v(t, u + 1, acc.push(ParametroV { nombre, tipo_dato }))
                } else {
                    Ok((acc.push(ParametroV { nombre, tipo_dato }), u))
                },
                Err(error) => Err(error),
            },
            Err(error) => Err(error),
        },
        Err(error) => Err(error),
    }
}

/// The parameter list at `p`, between `(` and `)`.
pub open spec fn lista_de_parametros_v(t: Seq<TokenV>, p: int) -> Result<
    (Seq<ParametroV>, int),
    ErrorSintacticoV,
> {
    match consumir_v(t, p, TipoTokenV::ParentesisAbre, Esperado::ParentesisAbreDeFuncion) {
        Ok(q) => {
            let leidos = if hay(t, q, TipoTokenV::ParentesisCierra) {
                Ok((Seq::empty(), q))
            } else {
                parametros_v(t, q, Seq::empty())
            };
            match leidos {
                Ok((parametros, r)) => match consumir_v(
                    t,
                    r,
                    TipoTokenV::ParentesisCierra,
                    Esperado::ParentesisCierraDeParametros,
                ) {
                    Ok(u) => Ok((parametros, u)),
                    Err(error) => Err(error),
                },
                Err(error) => Err(error),
            }
        },
        Err(error) => Err(error),
    }
}

/// The result type at `p`, if one is written: `:` and a type name.
pub open spec fn tipo_de_retorno_v(t: Seq<TokenV>, p: int) -> Result<
    (Option<Tipo>, int),
    ErrorSintacticoV,
> {
    if hay(t, p, TipoTokenV::DosPuntos) {
        match tipo_v(t, p + 1) {
            Ok((tipo, q)) => Ok((Some(tipo), q)),
            Err(error) => Err(error),
        }
    } else {
        Ok((None, p))
    }
}

/// The function at `p`: `funcion`, a name, parameters, a result type if any, a block.
pub open spec fn funcion_v(t: Seq<TokenV>, p: int) -> Result<(FuncionV, int), ErrorSintacticoV> {
    match nombre_v(t, p + 1, Esperado::NombreDeFuncion) {
        Ok((nombre, q)) => match lista_de_parametros_v(t, q) {
            Ok((parametros, r)) => match tipo_de_retorno_v(t, r) {
                Ok((tipo_retorno, u)) => match entre_llaves_v(
                    t,
                    u,
                    Esperado::LlaveAbreDeFuncion,
                    Esperado::LlaveCierraDeFuncion,
                ) {
                    Ok((cuerpo, w)) => Ok(
                        (FuncionV { nombre, parametros, tipo_retorno, cuerpo, pos: t[p].pos }, w),
                    ),
                    Err(error) => Err(error),
                },
                Err(error) => Err(error),
            },
            Err(error) => Err(error),
        },
        Err(error) => Err(error),
    }
}

/// The declaration at `p`: a scene or a function.
#[verifier::opaque]
pub open spec fn declaracion_v(t: Seq<TokenV>, p: int) -> Result<(DeclaracionV, int), ErrorSintacticoV> {
    match t[p].tipo {
        TipoTokenV::Escena => match escena_v(t, p) {
            Ok((e, q)) => Ok((DeclaracionV::Escena(e), q)),
            Err(error) => Err(error),
        },
        TipoTokenV::Funcion => match funcion_v(t, p) {
            Ok((f, q)) => Ok((DeclaracionV::Funcion(f), q)),
            Err(error) => Err(error),
        },
        _ => Err(fallo(t, p, Esperado::EscenaOFuncion)),
    }
}

/// The declarations from `p` up to the end marker, after `acc`.
pub open spec fn declaraciones_v(t: Seq<TokenV>, p: int, acc: Seq<DeclaracionV>) -> Result<
    Seq<DeclaracionV>,
    ErrorSintacticoV,
>
    decreases restantes(t, p),
    when 0 <= p < t.len()
{
    if en_fin(t, p) {
        Ok(acc)
    } else {
        match adelante(t, p, declaracion_v(t, p)) {
            Ok((d, q)) => declaraciones_v(t, q, acc.push(d)),
            Err(error) => Err(error),
        }
    }
}

/// The program that the token stream `t` spells, or its first syntax error.
pub open spec fn programa_de(t: Seq<TokenV>) -> Result<ProgramaV, ErrorSintacticoV> {
    match declaraciones_v(t, 0, Seq::empty()) {
        Ok(declaraciones) => Ok(ProgramaV { declaraciones }),
        Err(error) => Err(error),
    }
}

/// Whether the outcome `r` of reading from `p` ends after `p` and inside the tokens.
pub open spec fn avanza<X>(t: Seq<TokenV>, p: int, r: Result<(X, int), ErrorSintacticoV>) -> bool {
    match r {
        Ok((_, q)) => p < q < t.len(),
        Err(_) => true,
    }
}

/// Every expression that is read ends after it starts: the guard of
/// [`adelante`] never turns an outcome into an error.
pub proof fn lema_expresion_avanza(t: Seq<TokenV>, p: int)
    requires
        bien_formados(t),
        0 <= p < t.len(),
    ensures
        avanza(t, p, expresion_v(t, p)),
    decreases restantes(t, p), 21nat,
{
    lema_binaria_avanza(t, p, 0);
}

/// A primary expression that is read ends after it starts.
pub proof fn lema_primario_avanza(t: Seq<TokenV>, p: int)
    requires
        bien_formados(t),
        0 <= p < t.len(),
    ensures
        avanza(t, p, primario_v(t, p)),
    decreases restantes(t, p), 0nat,
{
    match t[p].tipo {
        TipoTokenV::ParentesisAbre => {
            lema_expresion_avanza(t, p + 1);
        },
        _ => {},
    }
}

/// A list of arguments that is read ends after it starts.
pub proof fn lema_argumentos_avanzan(t: Seq<TokenV>, p: int, acc: Seq<ExpresionV>)
    requires
        bien_formados(t),
        0 <= p < t.len(),
    ensures
        avanza(t, p, argumentos_v(t, p, acc)),
    decreases restantes(t, p), 22nat,
{
    lema_expresion_avanza(t, p);
    match expresion_v(t, p) {
        Ok((e, q)) => {
            if hay(t, q, TipoTokenV::Coma) {
                lema_argumentos_avanzan(t, q + 1, acc.push(e));
            }
        },
        Err(_) => {},
    }
}

/// A call or primary expression that is read ends after it starts.
pub proof fn lema_llamada_avanza(t: Seq<TokenV>, p: int)
    requires
        bien_formados(t),
        0 <= p < t.len(),
    ensures
        avanza(t, p, llamada_v(t, p)),
    decreases restantes(t, p), 1nat,
{
    match nombre_de_token(t[p].tipo) {
        Some(id) => {
            if hay(t, p + 1, TipoTokenV::ParentesisAbre) && !hay(t, p + 2, TipoTokenV::ParentesisCierra) {
                lema_argumentos_avanzan(t, p + 2, Seq::empty());
            }
        },
        None => {
            lema_primario_avanza(t, p);
        },
    }
}

/// A unary expression that is read ends after it starts.
pub proof fn lema_unario_avanza(t: Seq<TokenV>, p: int)
    requires
        bien_formados(t),
        0 <= p < t.len(),
    ensures
        avanza(t, p, unario_v(t, p)),
    decreases restantes(t, p), 2nat,
{
    match operador_unario_de(t[p].tipo) {
        Some(op) => {
            lema_unario_avanza(t, p + 1);
        },
        None => {
            lema_llamada_avanza(t, p);
        },
    }
}

/// An operand that is read ends after it starts.
pub proof fn lema_operando_avanza(t: Seq<TokenV>, p: int, nivel: nat)
    requires
        bien_formados(t),
        0 <= p < t.len(),
    ensures
        avanza(t, p, operando_v(t, p, nivel)),
    decreases restantes(t, p), (if nivel <= 5 { 19 - 2 * nivel } else { 3 }) as nat,
{
    if nivel < 5 {
        lema_binaria_avanza(t, p, nivel + 1);
    } else {
        lema_unario_avanza(t, p);
    }
}

/// An expression of a level that is read ends after it starts.
pub proof fn lema_binaria_avanza(t: Seq<TokenV>, p: int, nivel: nat)
    requires
        bien_formados(t),
        0 <= p < t.len(),
    ensures
        avanza(t, p, binaria_v(t, p, nivel)),
    decreases restantes(t, p), (if nivel <= 5 { 20 - 2 * nivel } else { 4 }) as nat,
{
    lema_operando_avanza(t, p, nivel);
    match operando_v(t, p, nivel) {
        Ok((izq, q)) => {
            lema_resto_avanza(t, q, nivel, izq);
        },
        Err(_) => {},
    }
}

/// Continuing an expression never moves back.
pub proof fn lema_resto_avanza(t: Seq<TokenV>, p: int, nivel: nat, izq: ExpresionV)
    requires
        bien_formados(t),
        0 <= p < t.len(),
    ensures
        match binaria_resto_v(t, p, nivel, izq) {
            Ok((_, q)) => p <= q < t.len(),
            Err(_) => true,
        },
    decreases restantes(t, p), 10nat,
{
    match operador_de(nivel, t[p].tipo) {
        Some(op) => {
            lema_operando_avanza(t, p + 1, nivel);
            match operando_v(t, p + 1, nivel) {
                Ok((der, q)) => {
                    lema_resto_avanza(
                        t,
                        q,
                        nivel,
                        ExpresionV::Binaria(Box::new(izq), op, Box::new(der), t[p].pos),
                    );
                },
                Err(_) => {},
            }
        },
        None => {},
    }
}

/// Every statement that is read ends after it starts.
pub proof fn lema_sentencia_avanza(t: Seq<TokenV>, p: int)
    requires
        bien_formados(t),
        0 <= p < t.len(),
    ensures
        avanza(t, p, sentencia_v(t, p)),
    decreases restantes(t, p), 40nat,
{
    match t[p].tipo {
        TipoTokenV::Mostrar => {
            lema_expresion_avanza(t, p + 1);
        },
        TipoTokenV::Var => {
            lema_var_avanza(t, p);
        },
        TipoTokenV::Si => {
            lema_si_avanza(t, p);
        },
        TipoTokenV::Mientras => {
            lema_mientras_avanza(t, p);
        },
        TipoTokenV::Para => {
            lema_para_avanza(t, p);
        },
        TipoTokenV::Retornar => {
            if !hay(t, p + 1, TipoTokenV::LlaveCierra) {
                lema_expresion_avanza(t, p + 1);
            }
        },
        TipoTokenV::Identificador(id) => {
            lema_de_nombre_avanza(t, p, id);
        },
        TipoTokenV::Y => {
            lema_de_nombre_avanza(t, p, "y"@);
        },
        TipoTokenV::O => {
            lema_de_nombre_avanza(t, p, "o"@);
        },
        _ => {
            lema_expresion_avanza(t, p);
        },
    }
}

/// A statement that starts with a name and is read ends after it starts.
pub proof fn lema_de_nombre_avanza(t: Seq<TokenV>, p: int, id: Seq<char>)
    requires
        bien_formados(t),
        0 <= p < t.len(),
        nombre_de_token(t[p].tipo) is Some,
    ensures
        avanza(t, p, sentencia_de_nombre_v(t, p, id)),
{
    if hay(t, p + 1, TipoTokenV::Asignacion) {
        lema_expresion_avanza(t, p + 2);
    } else {
        lema_expresion_avanza(t, p);
    }
}

/// A `var` statement that is read ends after it starts.
pub proof fn lema_var_avanza(t: Seq<TokenV>, p: int)
    requires
        bien_formados(t),
        0 <= p < t.len(),
        t[p].tipo is Var,
    ensures
        avanza(t, p, sentencia_var_v(t, p)),
{
    match nombre_v(t, p + 1, Esperado::NombreDeVariable) {
        Ok((nombre, q)) => {
            match consumir_v(t, q, TipoTokenV::Asignacion, Esperado::AsignacionDeVariable) {
                Ok(r) => {
                    lema_expresion_avanza(t, r);
                },
                Err(_) => {},
            }
        },
        Err(_) => {},
    }
}

/// The head of a `para` that is read ends after it starts.
pub proof fn lema_rango_avanza(t: Seq<TokenV>, p: int)
    requires
        bien_formados(t),
        0 <= p < t.len(),
        t[p].tipo is Para,
    ensures
        avanza(t, p, rango_v(t, p)),
{
    match nombre_v(t, p + 1, Esperado::NombreDeVariable) {
        Ok((variable, q)) => {
            match consumir_v(t, q, TipoTokenV::Asignacion, Esperado::AsignacionDeVariable) {
                Ok(r) => {
                    lema_expresion_avanza(t, r);
                    match expresion_v(t, r) {
                        Ok((inicio, u)) => {
                            match consumir_v(t, u, TipoTokenV::Coma, Esperado::ComaDeRango) {
                                Ok(w) => {
                                    lema_expresion_avanza(t, w);
                                },
                                Err(_) => {},
                            }
                        },
                        Err(_) => {},
                    }
                },
                Err(_) => {},
            }
        },
        Err(_) => {},
    }
}

/// Reading the statements of a block never moves back.
pub proof fn lema_bloque_avanza(t: Seq<TokenV>, p: int, acc: Seq<SentenciaV>)
    requires
        bien_formados(t),
        0 <= p < t.len(),
    ensures
        match bloque_v(t, p, acc) {
            Ok((_, q)) => p <= q < t.len(),
            Err(_) => true,
        },
    decreases restantes(t, p), 41nat,
{
    if !(hay(t, p, TipoTokenV::LlaveCierra) || en_fin(t, p)) {
        lema_sentencia_avanza(t, p);
        match sentencia_v(t, p) {
            Ok((s, q)) => {
                lema_bloque_avanza(t, q, acc.push(s));
            },
            Err(_) => {},
        }
    }
}

/// A block in braces that is read ends after it starts.
pub proof fn lema_llaves_avanzan(t: Seq<TokenV>, p: int, abre: Esperado, cierra: Esperado)
    requires
        bien_formados(t),
        0 <= p < t.len(),
    ensures
        avanza(t, p, entre_llaves_v(t, p, abre, cierra)),
    decreases restantes(t, p), 42nat,
{
    if hay(t, p, TipoTokenV::LlaveAbre) {
        lema_bloque_avanza(t, p + 1, Seq::empty());
    }
}

/// A `si` statement that is read ends after it starts.
pub proof fn lema_si_avanza(t: Seq<TokenV>, p: int)
    requires
        bien_formados(t),
        0 <= p < t.len(),
        t[p].tipo is Si,
    ensures
        avanza(t, p, sentencia_si_v(t, p)),
    decreases restantes(t, p), 39nat,
{
    lema_expresion_avanza(t, p + 1);
    match expresion_v(t, p + 1) {
        Ok((c, q)) => {
            lema_llaves_avanzan(t, q, Esperado::LlaveAbreDeCondicion, Esperado::LlaveCierraDeSi);
            match entre_llaves_v(t, q, Esperado::LlaveAbreDeCondicion, Esperado::LlaveCierraDeSi) {
                Ok((entonces, r)) => {
                    if hay(t, r, TipoTokenV::Sino) {
                        lema_llaves_avanzan(
                            t,
                            r + 1,
                            Esperado::LlaveAbreDeSino,
                            Esperado::LlaveCierraDeSino,
                        );
                    }
                },
                Err(_) => {},
            }
        },
        Err(_) => {},
    }
}

/// A `mientras` statement that is read ends after it starts.
pub proof fn lema_mientras_avanza(t: Seq<TokenV>, p: int)
    requires
        bien_formados(t),
        0 <= p < t.len(),
        t[p].tipo is Mientras,
    ensures
        avanza(t, p, sentencia_mientras_v(t, p)),
    decreases restantes(t, p), 39nat,
{
    lema_expresion_avanza(t, p + 1);
    match expresion_v(t, p + 1) {
        Ok((c, q)) => {
            lema_llaves_avanzan(
                t,
                q,
                Esperado::LlaveAbreDeCondicion,
                Esperado::LlaveCierraDeMientras,
            );
        },
        Err(_) => {},
    }
}

/// A `para` statement that is read ends after it starts.
pub proof fn lema_para_avanza(t: Seq<TokenV>, p: int)
    requires
        bien_formados(t),
        0 <= p < t.len(),
        t[p].tipo is Para,
    ensures
        avanza(t, p, sentencia_para_v(t, p)),
    decreases restantes(t, p), 39nat,
{
    lema_rango_avanza(t, p);
    match rango_v(t, p) {
        Ok((_, q)) => {
            lema_llaves_avanzan(t, q, Esperado::LlaveAbreDeRango, Esperado::LlaveCierraDePara);
        },
        Err(_) => {},
    }
}

/// The guard of [`adelante`] changes no outcome of the grammar: each kind
/// of phrase that is read ends after it starts.
pub proof fn lema_adelante(t: Seq<TokenV>, p: int, nivel: nat)
    requires
        bien_formados(t),
        0 <= p < t.len(),
    ensures
        adelante(t, p, expresion_v(t, p)) == expresion_v(t, p),
        adelante(t, p, operando_v(t, p, nivel)) == operando_v(t, p, nivel),
        adelante(t, p, sentencia_v(t, p)) == sentencia_v(t, p),
        forall|abre: Esperado, cierra: Esperado|
            adelante(t, p, #[trigger] entre_llaves_v(t, p, abre, cierra)) == entre_llaves_v(
                t,
                p,
                abre,
                cierra,
            ),
{
    lema_expresion_avanza(t, p);
    lema_operando_avanza(t, p, nivel);
    lema_sentencia_avanza(t, p);
    assert forall|abre: Esperado, cierra: Esperado|
        adelante(t, p, #[trigger] entre_llaves_v(t, p, abre, cierra)) == entre_llaves_v(
            t,
            p,
            abre,
            cierra,
        ) by {
        lema_llaves_avanzan(t, p, abre, cierra);
    }
}

/// Whether a token of kind `z` is no binary operator.
pub open spec fn no_opera(z: TipoTokenV) -> bool {
    forall|nivel: nat| operador_de(nivel, z) is None
}

/// Whether the outcome `r` of reading an expression ends before a token that
/// is no operator of the level `nivel` or of a tighter one.
pub open spec fn termina(t: Seq<TokenV>, r: Result<(ExpresionV, int), ErrorSintacticoV>, nivel: nat) -> bool {
    match r {
        Ok((_, q)) => forall|k: nat| nivel <= k ==> operador_de(k, t[q].tipo) is None,
        Err(_) => true,
    }
}

/// An expression that is read ends before a token that is no binary
/// operator: an operator would have been taken into the expression.
pub proof fn lema_expresion_termina(t: Seq<TokenV>, p: int)
    requires
        bien_formados(t),
        0 <= p < t.len(),
    ensures
        match expresion_v(t, p) {
            Ok((_, q)) => no_opera(t[q].tipo),
            Err(_) => true,
        },
{
    lema_binaria_termina(t, p, 0);
}

/// An operand of the level `nivel` that is read ends before a token that is
/// no operator of a tighter level.
pub proof fn lema_operando_termina(t: Seq<TokenV>, p: int, nivel: nat)
    requires
        bien_formados(t),
        0 <= p < t.len(),
        nivel <= 5,
    ensures
        termina(t, operando_v(t, p, nivel), nivel + 1),
    decreases restantes(t, p), (19 - 2 * nivel) as nat,
{
    if nivel < 5 {
        lema_binaria_termina(t, p, nivel + 1);
    } else {
        assert forall|k: nat, z: TipoTokenV| 6 <= k implies operador_de(k, z) is None by {}
    }
}

/// An expression of the level `nivel` that is read ends before a token that
/// is no operator of that level or of a tighter one.
pub proof fn lema_binaria_termina(t: Seq<TokenV>, p: int, nivel: nat)
    requires
        bien_formados(t),
        0 <= p < t.len(),
        nivel <= 5,
    ensures
        termina(t, binaria_v(t, p, nivel), nivel),
    decreases restantes(t, p), (20 - 2 * nivel) as nat,
{
    lema_operando_termina(t, p, nivel);
    lema_operando_avanza(t, p, nivel);
    match operando_v(t, p, nivel) {
        Ok((izq, q)) => {
            lema_resto_termina(t, q, nivel, izq);
        },
        Err(_) => {},
    }
}

/// Continuing an expression of the level `nivel`, whose left part ends
/// before a token that is no operator of a tighter level, ends before a
/// token that is no operator of that level or of a tighter one.
pub proof fn lema_resto_termina(t: Seq<TokenV>, p: int, nivel: nat, izq: ExpresionV)
    requires
        bien_formados(t),
        0 <= p < t.len(),
        nivel <= 5,
        forall|k: nat| nivel + 1 <= k ==> operador_de(k, t[p].tipo) is None,
    ensures
        termina(t, binaria_resto_v(t, p, nivel, izq), nivel),
    decreases restantes(t, p), 10nat,
{
    match operador_de(nivel, t[p].tipo) {
        Some(op) => {
            lema_operando_termina(t, p + 1, nivel);
            lema_operando_avanza(t, p + 1, nivel);
            match operando_v(t, p + 1, nivel) {
                Ok((der, q)) => {
                    lema_resto_termina(
                        t,
                        q,
                        nivel,
                        ExpresionV::Binaria(Box::new(izq), op, Box::new(der), t[p].pos),
                    );
                },
                Err(_) => {},
            }
        },
        None => {},
    }
}

/// Whether the outcome `r` of a parser step that left the cursor at `q` is the
/// outcome `v` that the grammar gives.
pub open spec fn concuerda<T: View>(
    r: Result<T, ErrorSintactico>,
    q: int,
    v: Result<(T::V, int), ErrorSintacticoV>,
) -> bool {
    match v {
        Ok((x, fin)) => r is Ok && r->Ok_0@ == x && q == fin,
        Err(e) => r is Err && r->Err_0@ == e,
    }
}

/// [`concuerda`] for a step that reads a list of statements.
pub open spec fn concuerda_bloque(
    r: Result<Vec<Sentencia>, ErrorSintactico>,
    q: int,
    v: Result<(Seq<SentenciaV>, int), ErrorSintacticoV>,
) -> bool {
    match v {
        Ok((x, fin)) => r is Ok && vista_bloque(r->Ok_0@) == x && q == fin,
        Err(e) => r is Err && r->Err_0@ == e,
    }
}

/// The parser: a token stream and a cursor into it.
pub struct Parser {
    tokens: Vec<Token>,
    actual: usize,
}

impl Parser {
    #[verifier::type_invariant]
    spec fn valido(self) -> bool {
        bien_formados(vista_tokens(self.tokens@)) && self.actual < self.tokens.len()
    }

    /// The token stream being read.
    pub closed spec fn tokens_v(&self) -> Seq<TokenV> {
        vista_tokens(self.tokens@)
    }

    /// The index of the token under the cursor.
    pub closed spec fn indice(&self) -> int {
        self.actual as int
    }

    /// A parser at the start of `tokens`, which must end with the end marker.
    pub fn new(tokens: Vec<Token>) -> (p: Self)
        requires
            bien_formados(vista_tokens(tokens@)),
        ensures
            p.tokens_v() == vista_tokens(tokens@),
            p.indice() == 0,
    {
        Parser { tokens, actual: 0 }
    }

    /// The token under the cursor.
    fn token_actual(&self) -> (t: &Token)
        ensures
            t@ == self.tokens_v()[self.indice()],
            0 <= self.indice() < self.tokens_v().len(),
            bien_formados(self.tokens_v()),
    {
        proof {
            use_type_invariant(self);
        }
        &self.tokens[self.actual]
    }

    /// Whether the cursor stands on the end marker.
    fn fin(&self) -> (b: bool)
        ensures
            b == en_fin(self.tokens_v(), self.indice()),
            0 <= self.indice() < self.tokens_v().len(),
            bien_formados(self.tokens_v()),
    {
        match self.token_actual().tipo {
            TipoToken::Eof => true,
            _ => false,
        }
    }

    /// Steps over one token, unless it is the end marker.
    fn avanzar(&mut self)
        ensures
            final(self).tokens_v() == old(self).tokens_v(),
            final(self).indice() == if en_fin(old(self).tokens_v(), old(self).indice()) {
                old(self).indice()
            } else {
                old(self).indice() + 1
            },
            0 <= final(self).indice() < final(self).tokens_v().len(),
    {
        proof {
            use_type_invariant(&*self);
        }
        if !self.fin() {
            self.actual += 1;
        }
    }

    /// Whether the token under the cursor is of the kind `tipo`, and not the end marker.
    fn verificar(&self, tipo: &TipoToken) -> (b: bool)
        ensures
            b == hay(self.tokens_v(), self.indice(), tipo@),
            0 <= self.indice() < self.tokens_v().len(),
            bien_formados(self.tokens_v()),
            b ==> self.indice() + 1 < self.tokens_v().len(),
    {
        if self.fin() {
            false
        } else {
            self.token_actual().tipo.misma_clase(tipo)
        }
    }

    /// Steps over the token under the cursor if it is of the kind `tipo`, and says whether it did.
    fn coincidir(&mut self, tipo: &TipoToken) -> (b: bool)
        ensures
            final(self).tokens_v() == old(self).tokens_v(),
            b == hay(old(self).tokens_v(), old(self).indice(), tipo@),
            final(self).indice() == if b {
                old(self).indice() + 1
            } else {
                old(self).indice()
            },
            0 <= final(self).indice() < final(self).tokens_v().len(),
    {
        if self.verificar(tipo) {
            self.avanzar();
            true
        } else {
            false
        }
    }

    /// The error of finding the token under the cursor where `esperado` was looked for.
    fn error(&self, esperado: Esperado) -> (e: ErrorSintactico)
        ensures
            e@ == fallo(self.tokens_v(), self.indice(), esperado),
    {
        let t = self.token_actual();
        ErrorSintactico { esperado, encontrado: t.tipo.clone(), pos: t.pos }
    }

    /// Steps over a token of the kind `tipo`, or fails with `esperado`.
    fn consumir(&mut self, tipo: TipoToken, esperado: Esperado) -> (r: Result<(), ErrorSintactico>)
        ensures
            final(self).tokens_v() == old(self).tokens_v(),
            match consumir_v(old(self).tokens_v(), old(self).indice(), tipo@, esperado) {
                Ok(q) => r is Ok && final(self).indice() == q,
                Err(e) => r is Err && r->Err_0@ == e,
            },
            0 <= final(self).indice() < final(self).tokens_v().len(),
    {
        if self.verificar(&tipo) {
            self.avanzar();
            Ok(())
        } else {
            proof {
                use_type_invariant(&*self);
            }
            Err(self.error(esperado))
        }
    }

    /// The name that the token under the cursor spells, if it spells one.
    fn nombre_actual(&self) -> (r: Option<String>)
        ensures
            match nombre_de_token(self.tokens_v()[self.indice()].tipo) {
                Some(id) => r is Some && r.unwrap()@ == id,
                None => r is None,
            },
            0 <= self.indice() < self.tokens_v().len(),
            bien_formados(self.tokens_v()),
            r is Some ==> !en_fin(self.tokens_v(), self.indice()),
    {
        match &self.token_actual().tipo {
            TipoToken::Identificador(id) => Some(id.clone()),
            TipoToken::Y => Some(String::from_str("y")),
            TipoToken::O => Some(String::from_str("o")),
            _ => None,
        }
    }

    /// Steps over an identifier and gives its name, or fails with `esperado`.
    fn nombre(&mut self, esperado: Esperado) -> (r: Result<String, ErrorSintactico>)
        ensures
            final(self).tokens_v() == old(self).tokens_v(),
            concuerda(r, final(self).indice(), nombre_v(old(self).tokens_v(), old(self).indice(), esperado)),
            0 <= final(self).indice() < final(self).tokens_v().len(),
    {
        proof {
            use_type_invariant(&*self);
        }
        match self.nombre_actual() {
            Some(n) => {
                self.avanzar();
                Ok(n)
            },
            None => Err(self.error(esperado)),
        }
    }

    /// Reads a type name.
    pub fn tipo(&mut self) -> (r: Result<Tipo, ErrorSintactico>)
        ensures
            final(self).tokens_v() == old(self).tokens_v(),
            concuerda(r, final(self).indice(), tipo_v(old(self).tokens_v(), old(self).indice())),
            0 <= final(self).indice() < final(self).tokens_v().len(),
    {
        proof {
            use_type_invariant(&*self);
        }
        let tipo = match self.token_actual().tipo {
            TipoToken::TipoNumero => Tipo::Numero,
            TipoToken::TipoDecimal => Tipo::Decimal,
            TipoToken::TipoTexto => Tipo::Texto,
            TipoToken::TipoBooleano => Tipo::Booleano,
            TipoToken::TipoVector3 => Tipo::Vector3,
            TipoToken::TipoPose => Tipo::Pose,
            TipoToken::TipoMano => Tipo::Mano,
            TipoToken::TipoControlador => Tipo::Controlador,
            _ => {
                return Err(self.error(Esperado::TipoDeDato));
            },
        };
        self.avanzar();
        Ok(tipo)
    }

    /// Reads a primary expression.
    pub fn primario(&mut self) -> (r: Result<Expresion, ErrorSintactico>)
        ensures
            final(self).tokens_v() == old(self).tokens_v(),
            0 <= final(self).indice() < final(self).tokens_v().len(),
            concuerda(r, final(self).indice(), primario_v(old(self).tokens_v(), old(self).indice())),
            r is Ok ==> final(self).indice() > old(self).indice(),
        decreases restantes(old(self).tokens_v(), old(self).indice()), 0nat,
    {
        proof {
            use_type_invariant(&*self);
        }
        let pos = self.token_actual().pos;
        match &self.token_actual().tipo {
            TipoToken::Numero(n) => {
                let v: i64 = *n;
                self.avanzar();
                Ok(Expresion::Numero(v, pos))
            },
            TipoToken::Decimal(d) => {
                let v = d.clone();
                self.avanzar();
                Ok(Expresion::Decimal(v, pos))
            },
            TipoToken::Texto(s) => {
                let v = s.clone();
                self.avanzar();
                Ok(Expresion::Texto(v, pos))
            },
            TipoToken::Verdadero => {
                self.avanzar();
                Ok(Expresion::Booleano(true, pos))
            },
            TipoToken::Falso => {
                self.avanzar();
                Ok(Expresion::Booleano(false, pos))
            },
            TipoToken::Identificador(id) => {
                let v = id.clone();
                self.avanzar();
                Ok(Expresion::Variable(v, pos))
            },
            TipoToken::Y => {
                self.avanzar();
                Ok(Expresion::Variable(String::from_str("y"), pos))
            },
            TipoToken::O => {
                self.avanzar();
                Ok(Expresion::Variable(String::from_str("o"), pos))
            },
            TipoToken::ParentesisAbre => {
                self.avanzar();
                let expr = self.expresion()?;
                self.consumir(TipoToken::ParentesisCierra, Esperado::ParentesisCierraDeExpresion)?;
                Ok(expr)
            },
            _ => Err(self.error(Esperado::Expresion)),
        }
    }

    /// Reads a call or a primary expression.
    pub fn llamada(&mut self) -> (r: Result<Expresion, ErrorSintactico>)
        ensures
            final(self).tokens_v() == old(self).tokens_v(),
            0 <= final(self).indice() < final(self).tokens_v().len(),
            concuerda(r, final(self).indice(), llamada_v(old(self).tokens_v(), old(self).indice())),
            r is Ok ==> final(self).indice() > old(self).indice(),
        decreases restantes(old(self).tokens_v(), old(self).indice()), 1nat,
    {
        proof {
            use_type_invariant(&*self);
        }
        let pos = self.token_actual().pos;
        let nombre = match self.nombre_actual() {
            Some(id) => id,
            None => {
                return self.primario();
            },
        };
        self.avanzar();
        if !self.verificar(&TipoToken::ParentesisAbre) {
            return Ok(Expresion::Variable(nombre, pos));
        }
        self.avanzar();
        let mut argumentos: Vec<Expresion> = Vec::new();
        proof {
            assert(crate::ast::vista_expresiones(argumentos@) =~= Seq::empty());
        }
        if !self.verificar(&TipoToken::ParentesisCierra) {
            let ghost t = self.tokens_v();
            let ghost p0 = self.indice();
            loop
                invariant_except_break
                    argumentos_v(t, self.indice(), crate::ast::vista_expresiones(argumentos@))
                        == argumentos_v(t, p0, Seq::empty()),
                invariant
                    self.tokens_v() == t,
                    t == old(self).tokens_v(),
                    p0 == old(self).indice() + 2,
                    0 <= old(self).indice(),
                    p0 <= self.indice() < t.len(),
                    argumentos_v(t, p0, Seq::empty()) is Err ==> llamada_v(t, old(self).indice())
                        == Err::<(ExpresionV, int), ErrorSintacticoV>(
                        argumentos_v(t, p0, Seq::empty())->Err_0,
                    ),
                ensures
                    argumentos_v(t, p0, Seq::empty()) == Ok::<
                        (Seq<ExpresionV>, int),
                        ErrorSintacticoV,
                    >((crate::ast::vista_expresiones(argumentos@), self.indice())),
                decreases restantes(t, self.indice()),
            {
                let ghost antes = crate::ast::vista_expresiones(argumentos@);
                let e = self.expresion()?;
                let ghost ev = e@;
                argumentos.push(e);
                proof {
                    use_type_invariant(&*self);
                    assert(crate::ast::vista_expresiones(argumentos@) =~= antes.push(ev));
                }
                if !self.coincidir(&TipoToken::Coma) {
                    break;
                }
            }
        }
        self.consumir(TipoToken::ParentesisCierra, Esperado::ParentesisCierraDeArgumentos)?;
        Ok(Expresion::Llamada(nombre, argumentos, pos))
    }

    /// Reads a unary expression.
    pub fn unario(&mut self) -> (r: Result<Expresion, ErrorSintactico>)
        ensures
            final(self).tokens_v() == old(self).tokens_v(),
            0 <= final(self).indice() < final(self).tokens_v().len(),
            concuerda(r, final(self).indice(), unario_v(old(self).tokens_v(), old(self).indice())),
            r is Ok ==> final(self).indice() > old(self).indice(),
        decreases restantes(old(self).tokens_v(), old(self).indice()), 2nat,
    {
        proof {
            use_type_invariant(&*self);
        }
        let pos = self.token_actual().pos;
        let operador = match self.token_actual().tipo {
            TipoToken::No => OperadorUnario::No,
            TipoToken::Resta => OperadorUnario::Negacion,
            _ => {
                return self.llamada();
            },
        };
        self.avanzar();
        let derecha = self.unario()?;
        Ok(Expresion::Unaria(operador, Box::new(derecha), pos))
    }

    /// The binary operator of level `nivel` under the cursor, if there is one.
    fn operador(&self, nivel: u8) -> (r: Option<OperadorBinario>)
        ensures
            r == operador_de(nivel as nat, self.tokens_v()[self.indice()].tipo),
            0 <= self.indice() < self.tokens_v().len(),
            bien_formados(self.tokens_v()),
            r is Some ==> self.indice() + 1 < self.tokens_v().len(),
    {
        match self.token_actual().tipo {
            TipoToken::O => if nivel == 0 { Some(OperadorBinario::O) } else { None },
            TipoToken::Y => if nivel == 1 { Some(OperadorBinario::Y) } else { None },
            TipoToken::Igual => if nivel == 2 { Some(OperadorBinario::Igual) } else { None },
            TipoToken::Diferente => if nivel == 2 { Some(OperadorBinario::Diferente) } else { None },
            TipoToken::Menor => if nivel == 3 { Some(OperadorBinario::Menor) } else { None },
            TipoToken::MenorIgual => if nivel == 3 { Some(OperadorBinario::MenorIgual) } else { None },
            TipoToken::Mayor => if nivel == 3 { Some(OperadorBinario::Mayor) } else { None },
            TipoToken::MayorIgual => if nivel == 3 { Some(OperadorBinario::MayorIgual) } else { None },
            TipoToken::Suma => if nivel == 4 { Some(OperadorBinario::Suma) } else { None },
            TipoToken::Resta => if nivel == 4 { Some(OperadorBinario::Resta) } else { None },
            TipoToken::Multiplicacion => if nivel == 5 { Some(OperadorBinario::Multiplicacion) } else { None },
            TipoToken::Division => if nivel == 5 { Some(OperadorBinario::Division) } else { None },
            TipoToken::Modulo => if nivel == 5 { Some(OperadorBinario::Modulo) } else { None },
            _ => None,
        }
    }

    /// Reads an operand of a binary operator of level `nivel`.
    fn operando(&mut self, nivel: u8) -> (r: Result<Expresion, ErrorSintactico>)
        requires
            nivel <= 5,
        ensures
            final(self).tokens_v() == old(self).tokens_v(),
            0 <= final(self).indice() < final(self).tokens_v().len(),
            concuerda(
                r,
                final(self).indice(),
                operando_v(old(self).tokens_v(), old(self).indice(), nivel as nat),
            ),
            r is Ok ==> final(self).indice() > old(self).indice(),
        decreases restantes(old(self).tokens_v(), old(self).indice()), (29 - 3 * nivel) as nat,
    {
        proof {
            use_type_invariant(&*self);
        }
        if nivel == 0 {
            self.y_logico()
        } else if nivel == 1 {
            self.igualdad()
        } else if nivel == 2 {
            self.comparacion()
        } else if nivel == 3 {
            self.suma_resta()
        } else if nivel == 4 {
            self.multiplicacion_division()
        } else {
            self.unario()
        }
    }

    /// Reads an expression of level `nivel`: operands of that level joined,
    /// from the left, by its operators.
    #[verifier::loop_isolation(false)]
    fn binaria(&mut self, nivel: u8) -> (r: Result<Expresion, ErrorSintactico>)
        requires
            nivel <= 5,
        ensures
            final(self).tokens_v() == old(self).tokens_v(),
            0 <= final(self).indice() < final(self).tokens_v().len(),
            concuerda(
                r,
                final(self).indice(),
                binaria_v(old(self).tokens_v(), old(self).indice(), nivel as nat),
            ),
            r is Ok ==> final(self).indice() > old(self).indice(),
        decreases restantes(old(self).tokens_v(), old(self).indice()), (30 - 3 * nivel) as nat,
    {
        proof {
            use_type_invariant(&*self);
        }
        let ghost t = self.tokens_v();
        let ghost p0 = self.indice();
        let mut expr = self.operando(nivel)?;
        proof {
            use_type_invariant(&*self);
        }
        loop
            invariant
                self.tokens_v() == t,
                p0 < self.indice() < t.len(),
                binaria_resto_v(t, self.indice(), nivel as nat, expr@) == binaria_v(
                    t,
                    p0,
                    nivel as nat,
                ),
            decreases restantes(t, self.indice()),
        {
            match self.operador(nivel) {
                None => {
                    return Ok(expr);
                },
                Some(op) => {
                    let pos = self.token_actual().pos;
                    self.avanzar();
                    let derecha = self.operando(nivel)?;
                    proof {
                        use_type_invariant(&*self);
                    }
                    expr = Expresion::Binaria(Box::new(expr), op, Box::new(derecha), pos);
                },
            }
        }
    }

    /// Reads a disjunction: conjunctions joined by `o`.
    pub fn o_logico(&mut self) -> (r: Result<Expresion, ErrorSintactico>)
        ensures
            final(self).tokens_v() == old(self).tokens_v(),
            0 <= final(self).indice() < final(self).tokens_v().len(),
            concuerda(r, final(self).indice(), binaria_v(old(self).tokens_v(), old(self).indice(), 0)),
            r is Ok ==> final(self).indice() > old(self).indice(),
        decreases restantes(old(self).tokens_v(), old(self).indice()), 31nat,
    {
        self.binaria(0)
    }

    /// Reads a conjunction: equalities joined by `y`.
    pub fn y_logico(&mut self) -> (r: Result<Expresion, ErrorSintactico>)
        ensures
            final(self).tokens_v() == old(self).tokens_v(),
            0 <= final(self).indice() < final(self).tokens_v().len(),
            concuerda(r, final(self).indice(), binaria_v(old(self).tokens_v(), old(self).indice(), 1)),
            r is Ok ==> final(self).indice() > old(self).indice(),
        decreases restantes(old(self).tokens_v(), old(self).indice()), 28nat,
    {
        self.binaria(1)
    }

    /// Reads an equality: comparisons joined by `==` and `!=`.
    pub fn igualdad(&mut self) -> (r: Result<Expresion, ErrorSintactico>)
        ensures
            final(self).tokens_v() == old(self).tokens_v(),
            0 <= final(self).indice() < final(self).tokens_v().len(),
            concuerda(r, final(self).indice(), binaria_v(old(self).tokens_v(), old(self).indice(), 2)),
            r is Ok ==> final(self).indice() > old(self).indice(),
        decreases restantes(old(self).tokens_v(), old(self).indice()), 25nat,
    {
        self.binaria(2)
    }

    /// Reads a comparison: sums joined by `<`, `<=`, `>` and `>=`.
    pub fn comparacion(&mut self) -> (r: Result<Expresion, ErrorSintactico>)
        ensures
            final(self).tokens_v() == old(self).tokens_v(),
            0 <= final(self).indice() < final(self).tokens_v().len(),
            concuerda(r, final(self).indice(), binaria_v(old(self).tokens_v(), old(self).indice(), 3)),
            r is Ok ==> final(self).indice() > old(self).indice(),
        decreases restantes(old(self).tokens_v(), old(self).indice()), 22nat,
    {
        self.binaria(3)
    }

    /// Reads a sum: products joined by `+` and `-`.
    pub fn suma_resta(&mut self) -> (r: Result<Expresion, ErrorSintactico>)
        ensures
            final(self).tokens_v() == old(self).tokens_v(),
            0 <= final(self).indice() < final(self).tokens_v().len(),
            concuerda(r, final(self).indice(), binaria_v(old(self).tokens_v(), old(self).indice(), 4)),
            r is Ok ==> final(self).indice() > old(self).indice(),
        decreases restantes(old(self).tokens_v(), old(self).indice()), 19nat,
    {
        self.binaria(4)
    }

    /// Reads a product: unary expressions joined by `*`, `/` and `%`.
    pub fn multiplicacion_division(&mut self) -> (r: Result<Expresion, ErrorSintactico>)
        ensures
            final(self).tokens_v() == old(self).tokens_v(),
            0 <= final(self).indice() < final(self).tokens_v().len(),
            concuerda(r, final(self).indice(), binaria_v(old(self).tokens_v(), old(self).indice(), 5)),
            r is Ok ==> final(self).indice() > old(self).indice(),
        decreases restantes(old(self).tokens_v(), old(self).indice()), 16nat,
    {
        self.binaria(5)
    }

    /// Reads an expression.
    pub fn expresion(&mut self) -> (r: Result<Expresion, ErrorSintactico>)
        ensures
            final(self).tokens_v() == old(self).tokens_v(),
            0 <= final(self).indice() < final(self).tokens_v().len(),
            concuerda(r, final(self).indice(), expresion_v(old(self).tokens_v(), old(self).indice())),
            r is Ok ==> final(self).indice() > old(self).indice(),
        decreases restantes(old(self).tokens_v(), old(self).indice()), 32nat,
    {
        proof {
            use_type_invariant(&*self);
        }
        self.o_logico()
    }
    /// Reads statements up to the `}` or the end marker that closes them.
    pub fn bloque(&mut self) -> (r: Result<Vec<Sentencia>, ErrorSintactico>)
        ensures
            final(self).tokens_v() == old(self).tokens_v(),
            0 <= final(self).indice() < final(self).tokens_v().len(),
            concuerda_bloque(
                r,
                final(self).indice(),
                bloque_v(old(self).tokens_v(), old(self).indice(), Seq::empty()),
            ),
            r is Ok ==> final(self).indice() >= old(self).indice(),
        decreases restantes(old(self).tokens_v(), old(self).indice()), 41nat,
    {
        proof {
            use_type_invariant(&*self);
        }
        let ghost t = self.tokens_v();
        let ghost p0 = self.indice();
        let mut cuerpo: Vec<Sentencia> = Vec::new();
        proof {
            assert(vista_bloque(cuerpo@) =~= Seq::empty());
        }
        while !self.verificar(&TipoToken::LlaveCierra) && !self.fin()
            invariant
                self.tokens_v() == t,
                t == old(self).tokens_v(),
                p0 == old(self).indice(),
                0 <= p0 <= self.indice() < t.len(),
                bloque_v(t, self.indice(), vista_bloque(cuerpo@)) == bloque_v(t, p0, Seq::empty()),
            decreases restantes(t, self.indice()),
        {
            let ghost antes = vista_bloque(cuerpo@);
            let s = self.sentencia()?;
            let ghost sv = s@;
            cuerpo.push(s);
            proof {
                use_type_invariant(&*self);
                assert(vista_bloque(cuerpo@) =~= antes.push(sv));
            }
        }
        Ok(cuerpo)
    }

    /// Reads a block: `{`, statements, `}`.
    pub fn entre_llaves(&mut self, abre: Esperado, cierra: Esperado) -> (r: Result<
        Vec<Sentencia>,
        ErrorSintactico,
    >)
        ensures
            final(self).tokens_v() == old(self).tokens_v(),
            0 <= final(self).indice() < final(self).tokens_v().len(),
            concuerda_bloque(
                r,
                final(self).indice(),
                entre_llaves_v(old(self).tokens_v(), old(self).indice(), abre, cierra),
            ),
            r is Ok ==> final(self).indice() > old(self).indice(),
        decreases restantes(old(self).tokens_v(), old(self).indice()), 42nat,
    {
        proof {
            use_type_invariant(&*self);
        }
        self.consumir(TipoToken::LlaveAbre, abre)?;
        let cuerpo = self.bloque()?;
        self.consumir(TipoToken::LlaveCierra, cierra)?;
        Ok(cuerpo)
    }

    /// Reads a statement.
    pub fn sentencia(&mut self) -> (r: Result<Sentencia, ErrorSintactico>)
        ensures
            final(self).tokens_v() == old(self).tokens_v(),
            0 <= final(self).indice() < final(self).tokens_v().len(),
            concuerda(r, final(self).indice(), sentencia_v(old(self).tokens_v(), old(self).indice())),
            r is Ok ==> final(self).indice() > old(self).indice(),
        decreases restantes(old(self).tokens_v(), old(self).indice()), 40nat,
    {
        proof {
            use_type_invariant(&*self);
        }
        let pos = self.token_actual().pos;
        match &self.token_actual().tipo {
            TipoToken::Mostrar => self.sentencia_mostrar(),
            TipoToken::Var => self.sentencia_var(),
            TipoToken::Si => self.sentencia_si(),
            TipoToken::Mientras => self.sentencia_mientras(),
            TipoToken::Para => self.sentencia_para(),
            TipoToken::Retornar => self.sentencia_retornar(),
            TipoToken::Identificador(_) => self.sentencia_de_nombre(),
            TipoToken::Y => self.sentencia_de_nombre(),
            TipoToken::O => self.sentencia_de_nombre(),
            _ => {
                let expr = self.expresion()?;
                Ok(Sentencia::Expresion(expr))
            },
        }
    }

    /// Reads a statement that starts with a name: an assignment where `=`
    /// follows the name, else an expression.
    fn sentencia_de_nombre(&mut self) -> (r: Result<Sentencia, ErrorSintactico>)
        requires
            nombre_de_token(old(self).tokens_v()[old(self).indice()].tipo) is Some,
        ensures
            final(self).tokens_v() == old(self).tokens_v(),
            0 <= final(self).indice() < final(self).tokens_v().len(),
            concuerda(
                r,
                final(self).indice(),
                sentencia_de_nombre_v(
                    old(self).tokens_v(),
                    old(self).indice(),
                    nombre_de_token(old(self).tokens_v()[old(self).indice()].tipo).unwrap(),
                ),
            ),
            r is Ok ==> final(self).indice() > old(self).indice(),
        decreases restantes(old(self).tokens_v(), old(self).indice()), 39nat,
    {
        proof {
            use_type_invariant(&*self);
        }
        let pos = self.token_actual().pos;
        let nombre = match self.nombre_actual() {
            Some(id) => id,
            None => String::new(),
        };
        let guardada: usize = self.actual;
        self.avanzar();
        if self.verificar(&TipoToken::Asignacion) {
            self.avanzar();
            let valor = self.expresion()?;
            Ok(Sentencia::Asignacion(nombre, valor, pos))
        } else {
            self.actual = guardada;
            let expr = self.expresion()?;
            Ok(Sentencia::Expresion(expr))
        }
    }

    /// Reads a `mostrar` statement, whose keyword is under the cursor.
    fn sentencia_mostrar(&mut self) -> (r: Result<Sentencia, ErrorSintactico>)
        requires
            !en_fin(old(self).tokens_v(), old(self).indice()),
        ensures
            final(self).tokens_v() == old(self).tokens_v(),
            0 <= final(self).indice() < final(self).tokens_v().len(),
            concuerda(
                r,
                final(self).indice(),
                sentencia_mostrar_v(old(self).tokens_v(), old(self).indice()),
            ),
            r is Ok ==> final(self).indice() > old(self).indice(),
        decreases restantes(old(self).tokens_v(), old(self).indice()), 39nat,
    {
        proof {
            use_type_invariant(&*self);
        }
        let pos = self.token_actual().pos;
        self.avanzar();
        let expr = self.expresion()?;
        Ok(Sentencia::Mostrar(expr, pos))
    }

    /// Reads a `var` statement, whose keyword is under the cursor.
    fn sentencia_var(&mut self) -> (r: Result<Sentencia, ErrorSintactico>)
        requires
            !en_fin(old(self).tokens_v(), old(self).indice()),
        ensures
            final(self).tokens_v() == old(self).tokens_v(),
            0 <= final(self).indice() < final(self).tokens_v().len(),
            concuerda(
                r,
                final(self).indice(),
                sentencia_var_v(old(self).tokens_v(), old(self).indice()),
            ),
            r is Ok ==> final(self).indice() > old(self).indice(),
        decreases restantes(old(self).tokens_v(), old(self).indice()), 39nat,
    {
        proof {
            use_type_invariant(&*self);
        }
        let pos = self.token_actual().pos;
        self.avanzar();
        let nombre = self.nombre(Esperado::NombreDeVariable)?;
        self.consumir(TipoToken::Asignacion, Esperado::AsignacionDeVariable)?;
        let valor = self.expresion()?;
        Ok(Sentencia::Var(nombre, valor, pos))
    }

    /// Reads a `si` statement, whose keyword is under the cursor.
    fn sentencia_si(&mut self) -> (r: Result<Sentencia, ErrorSintactico>)
        requires
            !en_fin(old(self).tokens_v(), old(self).indice()),
        ensures
            final(self).tokens_v() == old(self).tokens_v(),
            0 <= final(self).indice() < final(self).tokens_v().len(),
            concuerda(
                r,
                final(self).indice(),
                sentencia_si_v(old(self).tokens_v(), old(self).indice()),
            ),
            r is Ok ==> final(self).indice() > old(self).indice(),
        decreases restantes(old(self).tokens_v(), old(self).indice()), 39nat,
    {
        proof {
            use_type_invariant(&*self);
        }
        let pos = self.token_actual().pos;
        self.avanzar();
        let condicion = self.expresion()?;
        let entonces = self.entre_llaves(Esperado::LlaveAbreDeCondicion, Esperado::LlaveCierraDeSi)?;
        let sino = if self.coincidir(&TipoToken::Sino) {
            Some(self.entre_llaves(Esperado::LlaveAbreDeSino, Esperado::LlaveCierraDeSino)?)
        } else {
            None
        };
        Ok(Sentencia::Si(condicion, entonces, sino, pos))
    }

    /// Reads a `mientras` statement, whose keyword is under the cursor.
    fn sentencia_mientras(&mut self) -> (r: Result<Sentencia, ErrorSintactico>)
        requires
            !en_fin(old(self).tokens_v(), old(self).indice()),
        ensures
            final(self).tokens_v() == old(self).tokens_v(),
            0 <= final(self).indice() < final(self).tokens_v().len(),
            concuerda(
                r,
                final(self).indice(),
                sentencia_mientras_v(old(self).tokens_v(), old(self).indice()),
            ),
            r is Ok ==> final(self).indice() > old(self).indice(),
        decreases restantes(old(self).tokens_v(), old(self).indice()), 39nat,
    {
        proof {
            use_type_invariant(&*self);
        }
        let pos = self.token_actual().pos;
        self.avanzar();
        let condicion = self.expresion()?;
        let cuerpo = self.entre_llaves(
            Esperado::LlaveAbreDeCondicion,
            Esperado::LlaveCierraDeMientras,
        )?;
        Ok(Sentencia::Mientras(condicion, cuerpo, pos))
    }

    /// Reads a `para` statement, whose keyword is under the cursor.
    fn sentencia_para(&mut self) -> (r: Result<Sentencia, ErrorSintactico>)
        requires
            !en_fin(old(self).tokens_v(), old(self).indice()),
        ensures
            final(self).tokens_v() == old(self).tokens_v(),
            0 <= final(self).indice() < final(self).tokens_v().len(),
            concuerda(
                r,
                final(self).indice(),
                sentencia_para_v(old(self).tokens_v(), old(self).indice()),
            ),
            r is Ok ==> final(self).indice() > old(self).indice(),
        decreases restantes(old(self).tokens_v(), old(self).indice()), 39nat,
    {
        proof {
            use_type_invariant(&*self);
        }
        let pos = self.token_actual().pos;
        self.avanzar();
        let variable = self.nombre(Esperado::NombreDeVariable)?;
        self.consumir(TipoToken::Asignacion, Esperado::AsignacionDeVariable)?;
        let inicio = self.expresion()?;
        self.consumir(TipoToken::Coma, Esperado::ComaDeRango)?;
        let fin = self.expresion()?;
        let cuerpo = self.entre_llaves(Esperado::LlaveAbreDeRango, Esperado::LlaveCierraDePara)?;
        Ok(Sentencia::Para(variable, inicio, fin, cuerpo, pos))
    }

    /// Reads a `retornar` statement, whose keyword is under the cursor.
    fn sentencia_retornar(&mut self) -> (r: Result<Sentencia, ErrorSintactico>)
        requires
            !en_fin(old(self).tokens_v(), old(self).indice()),
        ensures
            final(self).tokens_v() == old(self).tokens_v(),
            0 <= final(self).indice() < final(self).tokens_v().len(),
            concuerda(
                r,
                final(self).indice(),
                sentencia_retornar_v(old(self).tokens_v(), old(self).indice()),
            ),
            r is Ok ==> final(self).indice() > old(self).indice(),
        decreases restantes(old(self).tokens_v(), old(self).indice()), 39nat,
    {
        proof {
            use_type_invariant(&*self);
        }
        let pos = self.token_actual().pos;
        self.avanzar();
        let valor = if self.verificar(&TipoToken::LlaveCierra) {
            None
        } else {
            Some(self.expresion()?)
        };
        Ok(Sentencia::Retornar(valor, pos))
    }

    /// Reads a scene, whose keyword is under the cursor.
    fn escena(&mut self) -> (r: Result<Escena, ErrorSintactico>)
        requires
            old(self).tokens_v()[old(self).indice()].tipo is Escena,
        ensures
            final(self).tokens_v() == old(self).tokens_v(),
            0 <= final(self).indice() < final(self).tokens_v().len(),
            concuerda(r, final(self).indice(), escena_v(old(self).tokens_v(), old(self).indice())),
            r is Ok ==> final(self).indice() > old(self).indice(),
    {
        proof {
            use_type_invariant(&*self);
        }
        let pos = self.token_actual().pos;
        self.avanzar();
        let nombre = self.nombre(Esperado::NombreDeEscena)?;
        let cuerpo = self.entre_llaves(Esperado::LlaveAbreDeEscena, Esperado::LlaveCierraDeEscena)?;
        Ok(Escena { nombre, cuerpo, pos })
    }

    /// Reads the parameters of a function, between `(` and `)`.
    fn parametros(&mut self) -> (r: Result<Vec<Parametro>, ErrorSintactico>)
        ensures
            final(self).tokens_v() == old(self).tokens_v(),
            0 <= final(self).indice() < final(self).tokens_v().len(),
            match lista_de_parametros_v(old(self).tokens_v(), old(self).indice()) {
                Ok((x, fin)) => r is Ok && vista_parametros(r->Ok_0@) == x && final(self).indice()
                    == fin,
                Err(e) => r is Err && r->Err_0@ == e,
            },
            r is Ok ==> final(self).indice() > old(self).indice(),
    {
        proof {
            use_type_invariant(&*self);
        }
        let ghost t = self.tokens_v();
        self.consumir(TipoToken::ParentesisAbre, Esperado::ParentesisAbreDeFuncion)?;
        let ghost p0 = self.indice();
        let mut parametros: Vec<Parametro> = Vec::new();
        proof {
            assert(vista_parametros(parametros@) =~= Seq::empty());
        }
        if !self.verificar(&TipoToken::ParentesisCierra) {
            loop
                invariant_except_break
                    parametros_v(t, self.indice(), vista_parametros(parametros@)) == parametros_v(
                        t,
                        p0,
                        Seq::empty(),
                    ),
                invariant
                    self.tokens_v() == t,
                    t == old(self).tokens_v(),
                    p0 == old(self).indice() + 1,
                    0 <= old(self).indice(),
                    p0 <= self.indice() < t.len(),
                    parametros_v(t, p0, Seq::empty()) is Err ==> lista_de_parametros_v(
                        t,
                        old(self).indice(),
                    ) == Err::<(Seq<ParametroV>, int), ErrorSintacticoV>(
                        parametros_v(t, p0, Seq::empty())->Err_0,
                    ),
                ensures
                    parametros_v(t, p0, Seq::empty()) == Ok::<
                        (Seq<ParametroV>, int),
                        ErrorSintacticoV,
                    >((vista_parametros(parametros@), self.indice())),
                decreases restantes(t, self.indice()),
            {
                let ghost antes = vista_parametros(parametros@);
                let nombre = self.nombre(Esperado::NombreDeParametro)?;
                self.consumir(TipoToken::DosPuntos, Esperado::DosPuntosDeParametro)?;
                let tipo_dato = self.tipo()?;
                let parametro = Parametro { nombre, tipo_dato };
                let ghost pv = parametro@;
                parametros.push(parametro);
                proof {
                    assert(vista_parametros(parametros@) =~= antes.push(pv));
                }
                if !self.coincidir(&TipoToken::Coma) {
                    break;
                }
            }
        }
        self.consumir(TipoToken::ParentesisCierra, Esperado::ParentesisCierraDeParametros)?;
        Ok(parametros)
    }

    /// Reads a function, whose keyword is under the cursor.
    fn funcion(&mut self) -> (r: Result<Funcion, ErrorSintactico>)
        requires
            old(self).tokens_v()[old(self).indice()].tipo is Funcion,
        ensures
            final(self).tokens_v() == old(self).tokens_v(),
            0 <= final(self).indice() < final(self).tokens_v().len(),
            concuerda(r, final(self).indice(), funcion_v(old(self).tokens_v(), old(self).indice())),
            r is Ok ==> final(self).indice() > old(self).indice(),
    {
        proof {
            use_type_invariant(&*self);
        }
        let pos = self.token_actual().pos;
        self.avanzar();
        let nombre = self.nombre(Esperado::NombreDeFuncion)?;
        let parametros = self.parametros()?;
        let tipo_retorno = if self.coincidir(&TipoToken::DosPuntos) {
            Some(self.tipo()?)
        } else {
            None
        };
        let cuerpo = self.entre_llaves(
            Esperado::LlaveAbreDeFuncion,
            Esperado::LlaveCierraDeFuncion,
        )?;
        Ok(Funcion { nombre, parametros, tipo_retorno, cuerpo, pos })
    }

    /// Reads a top-level declaration.
    pub fn declaracion(&mut self) -> (r: Result<Declaracion, ErrorSintactico>)
        ensures
            final(self).tokens_v() == old(self).tokens_v(),
            0 <= final(self).indice() < final(self).tokens_v().len(),
            concuerda(r, final(self).indice(), declaracion_v(old(self).tokens_v(), old(self).indice())),
            r is Ok ==> final(self).indice() > old(self).indice(),
    {
        proof {
            use_type_invariant(&*self);
        }
        proof {
            reveal(declaracion_v);
        }
        match self.token_actual().tipo {
            TipoToken::Escena => {
                let escena = self.escena()?;
                Ok(Declaracion::Escena(escena))
            },
            TipoToken::Funcion => {
                let funcion = self.funcion()?;
                Ok(Declaracion::Funcion(funcion))
            },
            _ => Err(self.error(Esperado::EscenaOFuncion)),
        }
    }

    /// Reads declarations up to the end marker.
    ///
    /// From a parser at the start of its tokens, the result is the program
    /// that the tokens spell, or the first syntax error in them.
    pub fn parsear(&mut self) -> (r: Result<Programa, ErrorSintactico>)
        ensures
            final(self).tokens_v() == old(self).tokens_v(),
            0 <= final(self).indice() < final(self).tokens_v().len(),
            match declaraciones_v(old(self).tokens_v(), old(self).indice(), Seq::empty()) {
                Ok(d) => r is Ok && r->Ok_0@.declaraciones == d,
                Err(e) => r is Err && r->Err_0@ == e,
            },
            old(self).indice() == 0 ==> match programa_de(old(self).tokens_v()) {
                Ok(programa) => r is Ok && r->Ok_0@ == programa,
                Err(e) => r is Err && r->Err_0@ == e,
            },
            r is Ok ==> en_fin(final(self).tokens_v(), final(self).indice()),
    {
        proof {
            use_type_invariant(&*self);
        }
        let ghost t = self.tokens_v();
        let ghost p0 = self.indice();
        let mut declaraciones: Vec<Declaracion> = Vec::new();
        proof {
            assert(crate::ast::vista_declaraciones(declaraciones@) =~= Seq::empty());
        }
        while !self.fin()
            invariant
                self.tokens_v() == t,
                t == old(self).tokens_v(),
                p0 == old(self).indice(),
                0 <= self.indice() < t.len(),
                declaraciones_v(t, self.indice(), crate::ast::vista_declaraciones(declaraciones@))
                    == declaraciones_v(t, p0, Seq::empty()),
            decreases restantes(t, self.indice()),
        {
            let ghost antes = crate::ast::vista_declaraciones(declaraciones@);
            let d = self.declaracion()?;
            let ghost dv = d@;
            declaraciones.push(d);
            proof {
                use_type_invariant(&*self);
                assert(crate::ast::vista_declaraciones(declaraciones@) =~= antes.push(dv));
            }
        }
        Ok(Programa { declaraciones })
    }
}

} // verus!
