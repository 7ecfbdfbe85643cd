//! What a program means: the value of each expression and the effect of each
//! statement, as functions on models.
//!
//! Evaluation may not end, so each function takes a budget: a call spends one
//! unit of it on the body it runs, and a `mientras` spends one on each turn.
//! Where the budget is spent the outcome is an error.

use vstd::prelude::*;
use crate::ast::{DeclaracionV, ExpresionV, ParametroV, SentenciaV};
use crate::decimal::{Decimales, OperacionDecimalV};
use crate::entorno::EntornoV;
use crate::error::{ErrorEjecucionV, Extremo};
use crate::operadores::{aplicar_unario_v, aplicar_v};
use crate::valor::ValorV;

verus! {

/// Model of a function as the evaluator keeps it.
pub struct FuncionDefinidaV {
    pub parametros: Seq<ParametroV>,
    pub cuerpo: Seq<SentenciaV>,
}

/// What evaluation reads and never changes: the functions of the program and
/// the host's decimals.
pub struct Contexto {
    pub funciones: Map<Seq<char>, FuncionDefinidaV>,
    pub decimales: Decimales,
}

/// What statements change: the variables and the lines shown so far.
pub struct EstadoV {
    pub entorno: EntornoV,
    pub salida: Seq<Seq<char>>,
}

/// The line that `mostrar` shows for `v`.
pub open spec fn linea(dec: Decimales, v: ValorV) -> Seq<char> {
    "📺 "@ + v.texto(dec.escritura)
}

/// The environment `ent` with the parameters from the `i`-th on bound to the
/// values at their places.
pub open spec fn ligar_v(ent: EntornoV, parametros: Seq<ParametroV>, valores: Seq<ValorV>, i: int) -> EntornoV
    decreases parametros.len() - i,
{
    if 0 <= i < parametros.len() {
        ligar_v(ent.definir(parametros[i].nombre, valores[i]), parametros, valores, i + 1)
    } else {
        ent
    }
}

/// The value of the expression `e` in the environment `ent`, and the lines
/// shown once it is evaluated.
pub open spec fn evaluar_v(cx: Contexto, ent: EntornoV, e: ExpresionV, sal: Seq<Seq<char>>, n: nat) -> (
    Result<ValorV, ErrorEjecucionV>,
    Seq<Seq<char>>,
)
    decreases n, 0nat, e, 1nat, 0nat,
{
    match e {
        ExpresionV::Numero(k, _) => (Ok(ValorV::Numero(k)), sal),
        ExpresionV::Decimal(s, _) => (
            Ok(ValorV::Decimal((cx.decimales.calculo)(OperacionDecimalV::Analizar(s)))),
            sal,
        ),
        ExpresionV::Texto(s, _) => (Ok(ValorV::Texto(s)), sal),
        ExpresionV::Booleano(b, _) => (Ok(ValorV::Booleano(b)), sal),
        ExpresionV::Variable(nombre, pos) => (
            match ent.obtener(nombre) {
                Some(v) => Ok(v),
                None => Err(ErrorEjecucionV::VariableNoDefinida { nombre, pos }),
            },
            sal,
        ),
        ExpresionV::Binaria(a, op, b, pos) => match evaluar_v(cx, ent, *a, sal, n) {
            (Ok(x), s1) => match evaluar_v(cx, ent, *b, s1, n) {
                (Ok(y), s2) => (aplicar_v(cx.decimales, x, op, y, pos), s2),
                (Err(error), s2) => (Err(error), s2),
            },
            (Err(error), s1) => (Err(error), s1),
        },
        ExpresionV::Unaria(op, a, pos) => match evaluar_v(cx, ent, *a, sal, n) {
            (Ok(x), s1) => (aplicar_unario_v(op, x, pos), s1),
            (Err(error), s1) => (Err(error), s1),
        },
        ExpresionV::Llamada(_, _, _) => llamar_v(cx, ent, e, sal, n),
    }
}

/// The values of the expressions `args[i..]`, from the left, after `acc`.
pub open spec fn evaluar_lista_v(
    cx: Contexto,
    ent: EntornoV,
    args: Seq<ExpresionV>,
    i: int,
    acc: Seq<ValorV>,
    sal: Seq<Seq<char>>,
    n: nat,
) -> (Result<Seq<ValorV>, ErrorEjecucionV>, Seq<Seq<char>>)
    decreases n, 0nat, args, 0nat, args.len() - i,
{
    if 0 <= i < args.len() {
        match evaluar_v(cx, ent, args[i], sal, n) {
            (Ok(v), s1) => evaluar_lista_v(cx, ent, args, i + 1, acc.push(v), s1, n),
            (Err(error), s1) => (Err(error), s1),
        }
    } else {
        (Ok(acc), sal)
    }
}

/// The value of the call `e`. The function must be known and take as many
/// parameters as there are arguments. The arguments are evaluated in the
/// caller's environment; the body runs in a new frame inside a copy of that
/// environment, with the parameters bound, and what it does to variables is
/// lost when it ends. The value is what the body returns, or null.
pub open spec fn llamar_v(cx: Contexto, ent: EntornoV, e: ExpresionV, sal: Seq<Seq<char>>, n: nat) -> (
    Result<ValorV, ErrorEjecucionV>,
    Seq<Seq<char>>,
)
    decreases n, 0nat, e, 0nat, 0nat,
{
    match e {
        ExpresionV::Llamada(nombre, args, pos) => if !cx.funciones.contains_key(nombre) {
            (Err(ErrorEjecucionV::FuncionNoDefinida { nombre, pos }), sal)
        } else if args.len() != cx.funciones[nombre].parametros.len() {
            (
                Err(
                    ErrorEjecucionV::Aridad {
                        nombre,
                        esperados: cx.funciones[nombre].parametros.len() as usize,
                        recibidos: args.len() as usize,
                        pos,
                    },
                ),
                sal,
            )
        } else {
            match evaluar_lista_v(cx, ent, args, 0, Seq::empty(), sal, n) {
                (Ok(valores), s1) => if n == 0 {
                    (Err(ErrorEjecucionV::LimiteExcedido), s1)
                } else {
                    let f = cx.funciones[nombre];
                    let local = ligar_v(EntornoV::con_padre(ent), f.parametros, valores, 0);
                    let (flujo, fin) = ejecutar_bloque_v(
                        cx,
                        EstadoV { entorno: local, salida: s1 },
                        f.cuerpo,
                        0,
                        (n - 1) as nat,
                    );
                    (
                        match flujo {
                            Ok(Some(v)) => Ok(v),
                            Ok(None) => Ok(ValorV::Nulo),
                            Err(error) => Err(error),
                        },
                        fin.salida,
                    )
                },
                (Err(error), s1) => (Err(error), s1),
            }
        },
        _ => (Ok(ValorV::Nulo), sal),
    }
}

/// The effect of the statements `b[i..]`, in order: the first that returns or
/// fails ends the block.
pub open spec fn ejecutar_bloque_v(cx: Contexto, est: EstadoV, b: Seq<SentenciaV>, i: int, n: nat) -> (
    Result<Option<ValorV>, ErrorEjecucionV>,
    EstadoV,
)
    decreases n, 1nat, b, 0nat, b.len() - i,
{
    if 0 <= i < b.len() {
        match ejecutar_sentencia_v(cx, est, b[i], n) {
            (Ok(None), e1) => ejecutar_bloque_v(cx, e1, b, i + 1, n),
            otro => otro,
        }
    } else {
        (Ok(None), est)
    }
}

/// `mostrar e`: the line of the value of `e` is added to the lines shown.
pub open spec fn mostrar_v(cx: Contexto, est: EstadoV, e: ExpresionV, n: nat) -> (
    Result<Option<ValorV>, ErrorEjecucionV>,
    EstadoV,
)
    decreases n, 0nat, e, 2nat, 0nat,
{
    match evaluar_v(cx, est.entorno, e, est.salida, n) {
        (Ok(v), sal) => (
            Ok(None),
            EstadoV { entorno: est.entorno, salida: sal.push(linea(cx.decimales, v)) },
        ),
        (Err(error), sal) => (Err(error), EstadoV { entorno: est.entorno, salida: sal }),
    }
}

/// `var nombre = e`: the name is bound to the value of `e` in the current frame.
pub open spec fn declarar_v(cx: Contexto, est: EstadoV, nombre: Seq<char>, e: ExpresionV, n: nat) -> (
    Result<Option<ValorV>, ErrorEjecucionV>,
    EstadoV,
)
    decreases n, 0nat, e, 2nat, 0nat,
{
    match evaluar_v(cx, est.entorno, e, est.salida, n) {
        (Ok(v), sal) => (Ok(None), EstadoV { entorno: est.entorno.definir(nombre, v), salida: sal }),
        (Err(error), sal) => (Err(error), EstadoV { entorno: est.entorno, salida: sal }),
    }
}

/// `nombre = e`: the name is bound to the value of `e` in the innermost frame
/// that binds it; it is an error if none does.
pub open spec fn asignar_v(
    cx: Contexto,
    est: EstadoV,
    nombre: Seq<char>,
    e: ExpresionV,
    pos: crate::ast::Posicion,
    n: nat,
) -> (Result<Option<ValorV>, ErrorEjecucionV>, EstadoV)
    decreases n, 0nat, e, 2nat, 0nat,
{
    match evaluar_v(cx, est.entorno, e, est.salida, n) {
        (Ok(v), sal) => match est.entorno.asignar(nombre, v) {
            Some(entorno) => (Ok(None), EstadoV { entorno, salida: sal }),
            None => (
                Err(ErrorEjecucionV::VariableNoDefinida { nombre, pos }),
                EstadoV { entorno: est.entorno, salida: sal },
            ),
        },
        (Err(error), sal) => (Err(error), EstadoV { entorno: est.entorno, salida: sal }),
    }
}

/// `retornar e`: the value of `e`, or null without `e`, is returned.
pub open spec fn retornar_v(cx: Contexto, est: EstadoV, e: Option<ExpresionV>, n: nat) -> (
    Result<Option<ValorV>, ErrorEjecucionV>,
    EstadoV,
)
    decreases n, 0nat, e, 2nat, 0nat,
{
    match e {
        Some(x) => match evaluar_v(cx, est.entorno, x, est.salida, n) {
            (Ok(v), sal) => (Ok(Some(v)), EstadoV { entorno: est.entorno, salida: sal }),
            (Err(error), sal) => (Err(error), EstadoV { entorno: est.entorno, salida: sal }),
        },
        None => (Ok(Some(ValorV::Nulo)), est),
    }
}

/// An expression as a statement: it is evaluated and its value dropped.
pub open spec fn descartar_v(cx: Contexto, est: EstadoV, e: ExpresionV, n: nat) -> (
    Result<Option<ValorV>, ErrorEjecucionV>,
    EstadoV,
)
    decreases n, 0nat, e, 2nat, 0nat,
{
    match evaluar_v(cx, est.entorno, e, est.salida, n) {
        (Ok(_), sal) => (Ok(None), EstadoV { entorno: est.entorno, salida: sal }),
        (Err(error), sal) => (Err(error), EstadoV { entorno: est.entorno, salida: sal }),
    }
}

/// `si`: the first block runs where the condition counts as true, else the
/// second, if there is one.
pub open spec fn si_v(cx: Contexto, est: EstadoV, s: SentenciaV, n: nat) -> (
    Result<Option<ValorV>, ErrorEjecucionV>,
    EstadoV,
)
    decreases n, 1nat, s, 2nat, 0nat,
{
    match s {
        SentenciaV::Si(c, entonces, sino, _) => match evaluar_v(cx, est.entorno, c, est.salida, n) {
            (Ok(v), sal) => {
                let e1 = EstadoV { entorno: est.entorno, salida: sal };
                if v.verdad() {
                    ejecutar_bloque_v(cx, e1, entonces, 0, n)
                } else {
                    match sino {
                        Some(bloque) => ejecutar_bloque_v(cx, e1, bloque, 0, n),
                        None => (Ok(None), e1),
                    }
                }
            },
            (Err(error), sal) => (Err(error), EstadoV { entorno: est.entorno, salida: sal }),
        },
        _ => (Ok(None), est),
    }
}

/// `mientras`: the condition is evaluated before each turn, and the block
/// runs while it counts as true. A turn that returns or fails ends the loop.
pub open spec fn mientras_v(cx: Contexto, est: EstadoV, s: SentenciaV, n: nat) -> (
    Result<Option<ValorV>, ErrorEjecucionV>,
    EstadoV,
)
    decreases n, 1nat, s, 2nat, 0nat,
{
    match s {
        SentenciaV::Mientras(c, cuerpo, _) => match evaluar_v(cx, est.entorno, c, est.salida, n) {
            (Ok(v), sal) => {
                let e1 = EstadoV { entorno: est.entorno, salida: sal };
                if !v.verdad() {
                    (Ok(None), e1)
                } else if n == 0 {
                    (Err(ErrorEjecucionV::LimiteExcedido), e1)
                } else {
                    match ejecutar_bloque_v(cx, e1, cuerpo, 0, (n - 1) as nat) {
                        (Ok(None), e2) => mientras_v(cx, e2, s, (n - 1) as nat),
                        otro => otro,
                    }
                }
            },
            (Err(error), sal) => (Err(error), EstadoV { entorno: est.entorno, salida: sal }),
        },
        _ => (Ok(None), est),
    }
}

/// The turns of a `para` from `i` up to, not including, `fin`: each binds the
/// variable to its number in the current frame and runs the block. A turn
/// that returns or fails ends the loop.
pub open spec fn vueltas_v(
    cx: Contexto,
    est: EstadoV,
    variable: Seq<char>,
    cuerpo: Seq<SentenciaV>,
    i: int,
    fin: int,
    n: nat,
) -> (Result<Option<ValorV>, ErrorEjecucionV>, EstadoV)
    decreases n, 1nat, cuerpo, 1nat, fin - i,
{
    if i < fin {
        let e1 = EstadoV {
            entorno: est.entorno.definir(variable, ValorV::Numero(i as i64)),
            salida: est.salida,
        };
        match ejecutar_bloque_v(cx, e1, cuerpo, 0, n) {
            (Ok(None), e2) => vueltas_v(cx, e2, variable, cuerpo, i + 1, fin, n),
            otro => otro,
        }
    } else {
        (Ok(None), est)
    }
}

/// An end of a range as an integer, or the error of its not being a number.
pub open spec fn extremo_v(v: ValorV, extremo: Extremo, pos: crate::ast::Posicion) -> Result<
    i64,
    ErrorEjecucionV,
> {
    match v.numero() {
        Some(k) => Ok(k),
        None => Err(ErrorEjecucionV::RangoNoNumerico { extremo, valor: v, pos }),
    }
}

/// `para`: both ends are evaluated once, the start first, and must be
/// numbers; then the turns run.
pub open spec fn para_v(cx: Contexto, est: EstadoV, s: SentenciaV, n: nat) -> (
    Result<Option<ValorV>, ErrorEjecucionV>,
    EstadoV,
)
    decreases n, 1nat, s, 2nat, 0nat,
{
    match s {
        SentenciaV::Para(variable, inicio, fin, cuerpo, pos) => match evaluar_v(
            cx,
            est.entorno,
            inicio,
            est.salida,
            n,
        ) {
            (Ok(a), s1) => match extremo_v(a, Extremo::Inicio, pos) {
                Ok(i) => match evaluar_v(cx, est.entorno, fin, s1, n) {
                    (Ok(b), s2) => match extremo_v(b, Extremo::Fin, pos) {
                        Ok(f) => vueltas_v(
                            cx,
                            EstadoV { entorno: est.entorno, salida: s2 },
                            variable,
                            cuerpo,
                            i as int,
                            f as int,
                            n,
                        ),
                        Err(error) => (Err(error), EstadoV { entorno: est.entorno, salida: s2 }),
                    },
                    (Err(error), s2) => (Err(error), EstadoV { entorno: est.entorno, salida: s2 }),
                },
                Err(error) => (Err(error), EstadoV { entorno: est.entorno, salida: s1 }),
            },
            (Err(error), s1) => (Err(error), EstadoV { entorno: est.entorno, salida: s1 }),
        },
        _ => (Ok(None), est),
    }
}

/// The effect of the statement `s`: what it returns, if it returns, and the
/// state it leaves.
pub open spec fn ejecutar_sentencia_v(cx: Contexto, est: EstadoV, s: SentenciaV, n: nat) -> (
    Result<Option<ValorV>, ErrorEjecucionV>,
    EstadoV,
)
    decreases n, 1nat, s, 3nat, 0nat,
{
    match s {
        SentenciaV::Mostrar(e, _) => mostrar_v(cx, est, e, n),
        SentenciaV::Var(nombre, e, _) => declarar_v(cx, est, nombre, e, n),
        SentenciaV::Asignacion(nombre, e, pos) => asignar_v(cx, est, nombre, e, pos, n),
        SentenciaV::Si(_, _, _, _) => si_v(cx, est, s, n),
        SentenciaV::Mientras(_, _, _) => mientras_v(cx, est, s, n),
        SentenciaV::Para(_, _, _, _, _) => para_v(cx, est, s, n),
        SentenciaV::Retornar(e, _) => retornar_v(cx, est, e, n),
        SentenciaV::Expresion(e) => descartar_v(cx, est, e, n),
    }
}

/// The table of functions `fs` with the functions among `decls[i..]` written
/// into it, in order: a later function of a name replaces an earlier one.
pub open spec fn registrar_v(
    fs: Map<Seq<char>, FuncionDefinidaV>,
    decls: Seq<DeclaracionV>,
    i: int,
) -> Map<Seq<char>, FuncionDefinidaV>
    decreases decls.len() - i,
{
    if 0 <= i < decls.len() {
        match decls[i] {
            DeclaracionV::Funcion(f) => registrar_v(
                fs.insert(f.nombre, FuncionDefinidaV { parametros: f.parametros, cuerpo: f.cuerpo }),
                decls,
                i + 1,
            ),
            DeclaracionV::Escena(_) => registrar_v(fs, decls, i + 1),
        }
    } else {
        fs
    }
}

/// The effect of the scenes among `decls[i..]`, in order. A scene ends where
/// its block does, or where a statement of it returns; an error ends the run.
pub open spec fn escenas_v(cx: Contexto, est: EstadoV, decls: Seq<DeclaracionV>, i: int, n: nat) -> (
    Result<(), ErrorEjecucionV>,
    EstadoV,
)
    decreases decls.len() - i,
{
    if 0 <= i < decls.len() {
        match decls[i] {
            DeclaracionV::Escena(escena) => match ejecutar_bloque_v(cx, est, escena.cuerpo, 0, n) {
                (Ok(_), e1) => escenas_v(cx, e1, decls, i + 1, n),
                (Err(error), e1) => (Err(error), e1),
            },
            DeclaracionV::Funcion(_) => escenas_v(cx, est, decls, i + 1, n),
        }
    } else {
        (Ok(()), est)
    }
}

/// What running the program `decls` from nothing gives: every function is
/// registered, then every scene runs, in source order, with the budget `n`
/// each. The result holds the lines shown, also where the run fails.
pub open spec fn programa_v(dec: Decimales, decls: Seq<DeclaracionV>, n: nat) -> (
    Result<(), ErrorEjecucionV>,
    Seq<Seq<char>>,
) {
    let cx = Contexto { funciones: registrar_v(Map::empty(), decls, 0), decimales: dec };
    let (r, est) = escenas_v(
        cx,
        EstadoV { entorno: EntornoV::nuevo(), salida: Seq::empty() },
        decls,
        0,
        n,
    );
    (r, est.salida)
}

} // verus!
