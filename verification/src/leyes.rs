//! Laws of the language, proved from the semantics.

use vstd::prelude::*;
use crate::ast::{DeclaracionV, ExpresionV, Posicion, SentenciaV};
use crate::decimal::Decimales;
use crate::error::ErrorEjecucionV;
use crate::entorno::EntornoV;
use crate::operadores::{cociente, envolver, resto, valor_absoluto};
use crate::semantica::{
    declarar_v, ejecutar_bloque_v, ejecutar_sentencia_v, escenas_v, evaluar_lista_v, evaluar_v,
    llamar_v, mientras_v, programa_v, registrar_v, vueltas_v, Contexto, EstadoV, FuncionDefinidaV,
};
use crate::valor::ValorV;

verus! {

/// An integer within the 64-bit range wraps to itself.
pub proof fn lema_envolver_en_rango(x: int)
    requires
        -0x8000_0000_0000_0000 <= x < 0x8000_0000_0000_0000,
    ensures
        envolver(x) == x,
{
}

/// Division and remainder fit together: for integers `a` and `b`, `b` not
/// zero, `(a / b) * b + a % b` is `a`, in the wrapping arithmetic of the
/// language.
pub proof fn ley_division_y_resto(a: i64, b: i64)
    requires
        b != 0,
    ensures
        envolver(envolver(envolver(cociente(a as int, b as int)) * b) + resto(a as int, b as int))
            == a,
{
    let x = valor_absoluto(a as int);
    let d = valor_absoluto(b as int);
    let q = cociente(a as int, b as int);
    let r = resto(a as int, b as int);
    vstd::arithmetic::div_mod::lemma_fundamental_div_mod(x, d);
    vstd::arithmetic::div_mod::lemma_mod_division_less_than_divisor(x, d);
    vstd::arithmetic::div_mod::lemma_div_pos_is_pos(x, d);
    vstd::arithmetic::div_mod::lemma_div_basics_5(x, d);
    assert(0 <= x / d <= x);
    assert(0 <= x % d < d);
    if a == i64::MIN && b == -1 {
        vstd::arithmetic::div_mod::lemma_div_basics_2(x);
        assert(q == 0x8000_0000_0000_0000);
        assert(x % 1 == 0);
        assert(r == 0);
        assert(envolver(q) == -0x8000_0000_0000_0000);
        let w = envolver(q);
        assert(w * b == 0x8000_0000_0000_0000) by (nonlinear_arith)
            requires
                w == -0x8000_0000_0000_0000,
                b == -1,
        ;
        assert(envolver(envolver(q) * b) == -0x8000_0000_0000_0000);
    } else {
        assert(-0x8000_0000_0000_0000 <= q < 0x8000_0000_0000_0000) by {
            if a == i64::MIN && b < 0 {
                vstd::arithmetic::div_mod::lemma_div_is_ordered_by_denominator(x, 2, d);
            }
        }
        lema_envolver_en_rango(q);
        assert(q * b + r == a) by (nonlinear_arith)
            requires
                x == d * (x / d) + (x % d),
                x == (if a < 0 { -a } else { a as int }),
                d == (if b < 0 { -b } else { b as int }),
                q == (if (a >= 0) == (b > 0) { x / d } else { -(x / d) }),
                r == (if a >= 0 { x % d } else { -(x % d) }),
                b != 0,
        ;
        assert(a >= 0 ==> 0 <= r <= a);
        assert(a < 0 ==> a <= r <= 0);
        lema_envolver_en_rango(q * b);
        lema_envolver_en_rango(a as int);
    }
}

/// Equality is reflexive within a variant, but for a decimal that is not a number.
pub proof fn ley_igualdad_reflexiva(v: ValorV)
    requires
        !(v is Decimal && v->Decimal_0.es_nan()),
    ensures
        v.igual_a(v),
{
}

/// Values of distinct variants are never equal.
pub proof fn ley_igualdad_entre_variantes(a: ValorV, b: ValorV)
    requires
        !((a is Numero && b is Numero) || (a is Decimal && b is Decimal) || (a is Texto && b is Texto)
            || (a is Booleano && b is Booleano) || (a is Nulo && b is Nulo)),
    ensures
        !a.igual_a(b),
{
}

/// After `var nombre = e`, reading `nombre` gives the value that `e` had.
pub proof fn ley_var_y_lectura(
    cx: Contexto,
    est: EstadoV,
    nombre: Seq<char>,
    e: ExpresionV,
    pos: Posicion,
    n: nat,
    m: nat,
)
    requires
        est.entorno.marcos.len() > 0,
        evaluar_v(cx, est.entorno, e, est.salida, n).0 is Ok,
    ensures
        declarar_v(cx, est, nombre, e, n).0 == Ok::<Option<ValorV>, crate::error::ErrorEjecucionV>(None),
        evaluar_v(
            cx,
            declarar_v(cx, est, nombre, e, n).1.entorno,
            ExpresionV::Variable(nombre, pos),
            declarar_v(cx, est, nombre, e, n).1.salida,
            m,
        ).0 == evaluar_v(cx, est.entorno, e, est.salida, n).0,
{
    let v = evaluar_v(cx, est.entorno, e, est.salida, n).0->Ok_0;
    crate::entorno::lema_definir_y_obtener(est.entorno, nombre, v);
}

/// A `para` whose start is not below its end runs no turn: nothing changes.
pub proof fn ley_para_sin_vueltas(
    cx: Contexto,
    est: EstadoV,
    variable: Seq<char>,
    cuerpo: Seq<SentenciaV>,
    i: int,
    fin: int,
    n: nat,
)
    requires
        i >= fin,
    ensures
        vueltas_v(cx, est, variable, cuerpo, i, fin, n) == (
            Ok::<Option<ValorV>, crate::error::ErrorEjecucionV>(None),
            est,
        ),
{
}

/// Whether the statement holds no `mostrar`, at any depth.
pub open spec fn sin_mostrar(s: SentenciaV) -> bool
    decreases s,
{
    match s {
        SentenciaV::Mostrar(_, _) => false,
        SentenciaV::Si(_, entonces, sino, _) => bloque_sin_mostrar(entonces) && match sino {
            Some(bloque) => bloque_sin_mostrar(bloque),
            None => true,
        },
        SentenciaV::Mientras(_, cuerpo, _) => bloque_sin_mostrar(cuerpo),
        SentenciaV::Para(_, _, _, cuerpo, _) => bloque_sin_mostrar(cuerpo),
        _ => true,
    }
}

/// Whether no statement of the block holds a `mostrar`.
pub open spec fn bloque_sin_mostrar(b: Seq<SentenciaV>) -> bool
    decreases b,
{
    forall|i: int| 0 <= i < b.len() ==> sin_mostrar(#[trigger] b[i])
}

/// Whether no function holds a `mostrar`.
pub open spec fn funciones_sin_mostrar(fs: Map<Seq<char>, FuncionDefinidaV>) -> bool {
    forall|k: Seq<char>| fs.contains_key(k) ==> bloque_sin_mostrar((#[trigger] fs[k]).cuerpo)
}

/// Whether no function and no scene of the program holds a `mostrar`.
pub open spec fn programa_sin_mostrar(decls: Seq<DeclaracionV>) -> bool {
    forall|i: int|
        0 <= i < decls.len() ==> match #[trigger] decls[i] {
            DeclaracionV::Escena(e) => bloque_sin_mostrar(e.cuerpo),
            DeclaracionV::Funcion(f) => bloque_sin_mostrar(f.cuerpo),
        }
}

/// Where no function holds a `mostrar`, evaluating an expression shows nothing.
pub proof fn lema_evaluar_no_muestra(
    cx: Contexto,
    ent: EntornoV,
    e: ExpresionV,
    sal: Seq<Seq<char>>,
    n: nat,
)
    requires
        funciones_sin_mostrar(cx.funciones),
    ensures
        evaluar_v(cx, ent, e, sal, n).1 == sal,
    decreases n, 0nat, e, 1nat, 0nat,
{
    match e {
        ExpresionV::Binaria(a, op, b, pos) => {
            lema_evaluar_no_muestra(cx, ent, *a, sal, n);
            lema_evaluar_no_muestra(cx, ent, *b, sal, n);
        },
        ExpresionV::Unaria(op, a, pos) => {
            lema_evaluar_no_muestra(cx, ent, *a, sal, n);
        },
        ExpresionV::Llamada(nombre, args, pos) => {
            lema_llamar_no_muestra(cx, ent, e, sal, n);
        },
        _ => {},
    }
}

/// Where no function holds a `mostrar`, evaluating arguments shows nothing.
pub proof fn lema_lista_no_muestra(
    cx: Contexto,
    ent: EntornoV,
    args: Seq<ExpresionV>,
    i: int,
    acc: Seq<ValorV>,
    sal: Seq<Seq<char>>,
    n: nat,
)
    requires
        funciones_sin_mostrar(cx.funciones),
    ensures
        evaluar_lista_v(cx, ent, args, i, acc, sal, n).1 == sal,
    decreases n, 0nat, args, 0nat, args.len() - i,
{
    if 0 <= i < args.len() {
        lema_evaluar_no_muestra(cx, ent, args[i], sal, n);
        match evaluar_v(cx, ent, args[i], sal, n) {
            (Ok(v), s1) => {
                lema_lista_no_muestra(cx, ent, args, i + 1, acc.push(v), s1, n);
            },
            _ => {},
        }
    }
}

/// Where no function holds a `mostrar`, a call shows nothing.
pub proof fn lema_llamar_no_muestra(
    cx: Contexto,
    ent: EntornoV,
    e: ExpresionV,
    sal: Seq<Seq<char>>,
    n: nat,
)
    requires
        funciones_sin_mostrar(cx.funciones),
    ensures
        llamar_v(cx, ent, e, sal, n).1 == sal,
    decreases n, 0nat, e, 0nat, 0nat,
{
    match e {
        ExpresionV::Llamada(nombre, args, pos) => {
            if cx.funciones.contains_key(nombre) && args.len() == cx.funciones[nombre].parametros.len() {
                lema_lista_no_muestra(cx, ent, args, 0, Seq::empty(), sal, n);
                match evaluar_lista_v(cx, ent, args, 0, Seq::empty(), sal, n) {
                    (Ok(valores), s1) => {
                        if n > 0 {
                            let f = cx.funciones[nombre];
                            let local = crate::semantica::ligar_v(
                                EntornoV::con_padre(ent),
                                f.parametros,
                                valores,
                                0,
                            );
                            lema_bloque_no_muestra(
                                cx,
                                EstadoV { entorno: local, salida: s1 },
                                f.cuerpo,
                                0,
                                (n - 1) as nat,
                            );
                        }
                    },
                    _ => {},
                }
            }
        },
        _ => {},
    }
}

/// Where neither the functions nor the block hold a `mostrar`, the block shows nothing.
pub proof fn lema_bloque_no_muestra(cx: Contexto, est: EstadoV, b: Seq<SentenciaV>, i: int, n: nat)
    requires
        funciones_sin_mostrar(cx.funciones),
        bloque_sin_mostrar(b),
    ensures
        ejecutar_bloque_v(cx, est, b, i, n).1.salida == est.salida,
    decreases n, 1nat, b, 0nat, b.len() - i,
{
    if 0 <= i < b.len() {
        lema_sentencia_no_muestra(cx, est, b[i], n);
        match ejecutar_sentencia_v(cx, est, b[i], n) {
            (Ok(None), e1) => {
                lema_bloque_no_muestra(cx, e1, b, i + 1, n);
            },
            _ => {},
        }
    }
}

/// Where neither the functions nor the statement hold a `mostrar`, the
/// statement shows nothing.
pub proof fn lema_sentencia_no_muestra(cx: Contexto, est: EstadoV, s: SentenciaV, n: nat)
    requires
        funciones_sin_mostrar(cx.funciones),
        sin_mostrar(s),
    ensures
        ejecutar_sentencia_v(cx, est, s, n).1.salida == est.salida,
    decreases n, 1nat, s, 3nat, 0nat,
{
    match s {
        SentenciaV::Mostrar(_, _) => {},
        SentenciaV::Var(nombre, e, _) => {
            lema_evaluar_no_muestra(cx, est.entorno, e, est.salida, n);
        },
        SentenciaV::Asignacion(nombre, e, pos) => {
            lema_evaluar_no_muestra(cx, est.entorno, e, est.salida, n);
        },
        SentenciaV::Si(c, entonces, sino, _) => {
            lema_evaluar_no_muestra(cx, est.entorno, c, est.salida, n);
            let e1 = EstadoV { entorno: est.entorno, salida: est.salida };
            lema_bloque_no_muestra(cx, e1, entonces, 0, n);
            match sino {
                Some(bloque) => {
                    lema_bloque_no_muestra(cx, e1, bloque, 0, n);
                },
                None => {},
            }
        },
        SentenciaV::Mientras(_, _, _) => {
            lema_mientras_no_muestra(cx, est, s, n);
        },
        SentenciaV::Para(variable, inicio, fin, cuerpo, pos) => {
            lema_evaluar_no_muestra(cx, est.entorno, inicio, est.salida, n);
            lema_evaluar_no_muestra(cx, est.entorno, fin, est.salida, n);
            match (
                evaluar_v(cx, est.entorno, inicio, est.salida, n).0,
                evaluar_v(cx, est.entorno, fin, est.salida, n).0,
            ) {
                (Ok(a), Ok(b)) => {
                    match (a.numero(), b.numero()) {
                        (Some(i), Some(f)) => {
                            lema_vueltas_no_muestra(
                                cx,
                                EstadoV { entorno: est.entorno, salida: est.salida },
                                variable,
                                cuerpo,
                                i as int,
                                f as int,
                                n,
                            );
                        },
                        _ => {},
                    }
                },
                _ => {},
            }
        },
        SentenciaV::Retornar(e, _) => {
            match e {
                Some(x) => {
                    lema_evaluar_no_muestra(cx, est.entorno, x, est.salida, n);
                },
                None => {},
            }
        },
        SentenciaV::Expresion(e) => {
            lema_evaluar_no_muestra(cx, est.entorno, e, est.salida, n);
        },
    }
}

/// Where neither the functions nor the loop hold a `mostrar`, the loop shows nothing.
pub proof fn lema_mientras_no_muestra(cx: Contexto, est: EstadoV, s: SentenciaV, n: nat)
    requires
        funciones_sin_mostrar(cx.funciones),
        sin_mostrar(s),
        s is Mientras,
    ensures
        mientras_v(cx, est, s, n).1.salida == est.salida,
    decreases n, 1nat, s, 2nat, 0nat,
{
    match s {
        SentenciaV::Mientras(c, cuerpo, _) => {
            lema_evaluar_no_muestra(cx, est.entorno, c, est.salida, n);
            match evaluar_v(cx, est.entorno, c, est.salida, n) {
                (Ok(v), sal) => {
                    let e1 = EstadoV { entorno: est.entorno, salida: sal };
                    if v.verdad() && n > 0 {
                        lema_bloque_no_muestra(cx, e1, cuerpo, 0, (n - 1) as nat);
                        match ejecutar_bloque_v(cx, e1, cuerpo, 0, (n - 1) as nat) {
                            (Ok(None), e2) => {
                                lema_mientras_no_muestra(cx, e2, s, (n - 1) as nat);
                            },
                            _ => {},
                        }
                    }
                },
                _ => {},
            }
        },
        _ => {},
    }
}

/// Where neither the functions nor the block hold a `mostrar`, the turns of
/// a `para` show nothing.
pub proof fn lema_vueltas_no_muestra(
    cx: Contexto,
    est: EstadoV,
    variable: Seq<char>,
    cuerpo: Seq<SentenciaV>,
    i: int,
    fin: int,
    n: nat,
)
    requires
        funciones_sin_mostrar(cx.funciones),
        bloque_sin_mostrar(cuerpo),
    ensures
        vueltas_v(cx, est, variable, cuerpo, i, fin, n).1.salida == est.salida,
    decreases n, 1nat, cuerpo, 1nat, fin - i,
{
    if i < fin {
        let e1 = EstadoV {
            entorno: est.entorno.definir(variable, ValorV::Numero(i as i64)),
            salida: est.salida,
        };
        lema_bloque_no_muestra(cx, e1, cuerpo, 0, n);
        match ejecutar_bloque_v(cx, e1, cuerpo, 0, n) {
            (Ok(None), e2) => {
                lema_vueltas_no_muestra(cx, e2, variable, cuerpo, i + 1, fin, n);
            },
            _ => {},
        }
    }
}

/// Registering the functions of a program without `mostrar` keeps the table without it.
pub proof fn lema_registrar_sin_mostrar(
    fs: Map<Seq<char>, FuncionDefinidaV>,
    decls: Seq<DeclaracionV>,
    i: int,
)
    requires
        funciones_sin_mostrar(fs),
        programa_sin_mostrar(decls),
    ensures
        funciones_sin_mostrar(registrar_v(fs, decls, i)),
    decreases decls.len() - i,
{
    if 0 <= i < decls.len() {
        match decls[i] {
            DeclaracionV::Funcion(f) => {
                let g = fs.insert(
                    f.nombre,
                    FuncionDefinidaV { parametros: f.parametros, cuerpo: f.cuerpo },
                );
                assert(funciones_sin_mostrar(g));
                lema_registrar_sin_mostrar(g, decls, i + 1);
            },
            DeclaracionV::Escena(_) => {
                lema_registrar_sin_mostrar(fs, decls, i + 1);
            },
        }
    }
}

/// The scenes of a program without `mostrar` show nothing.
pub proof fn lema_escenas_no_muestran(
    cx: Contexto,
    est: EstadoV,
    decls: Seq<DeclaracionV>,
    i: int,
    n: nat,
)
    requires
        funciones_sin_mostrar(cx.funciones),
        programa_sin_mostrar(decls),
    ensures
        escenas_v(cx, est, decls, i, n).1.salida == est.salida,
    decreases decls.len() - i,
{
    if 0 <= i < decls.len() {
        match decls[i] {
            DeclaracionV::Escena(escena) => {
                lema_bloque_no_muestra(cx, est, escena.cuerpo, 0, n);
                match ejecutar_bloque_v(cx, est, escena.cuerpo, 0, n) {
                    (Ok(_), e1) => {
                        lema_escenas_no_muestran(cx, e1, decls, i + 1, n);
                    },
                    _ => {},
                }
            },
            DeclaracionV::Funcion(_) => {
                lema_escenas_no_muestran(cx, est, decls, i + 1, n);
            },
        }
    }
}

/// A program without `mostrar` shows nothing, however it ends.
pub proof fn ley_sin_mostrar_no_hay_salida(dec: Decimales, decls: Seq<DeclaracionV>, n: nat)
    requires
        programa_sin_mostrar(decls),
    ensures
        programa_v(dec, decls, n).1 == Seq::<Seq<char>>::empty(),
{
    lema_registrar_sin_mostrar(Map::empty(), decls, 0);
    let cx = Contexto { funciones: registrar_v(Map::empty(), decls, 0), decimales: dec };
    lema_escenas_no_muestran(
        cx,
        EstadoV { entorno: EntornoV::nuevo(), salida: Seq::empty() },
        decls,
        0,
        n,
    );
}

/// The state in which turn `k` of a `para` that starts at `i` runs its block:
/// the variable is bound to `i + k` in the state that turn `k - 1` left, or
/// in `est` for the first turn. There is none where an earlier turn returned
/// or failed.
pub open spec fn inicio_de_vuelta(
    cx: Contexto,
    est: EstadoV,
    variable: Seq<char>,
    cuerpo: Seq<SentenciaV>,
    i: int,
    k: nat,
    n: nat,
) -> Option<EstadoV>
    decreases k,
{
    if k == 0 {
        Some(
            EstadoV {
                entorno: est.entorno.definir(variable, ValorV::Numero(i as i64)),
                salida: est.salida,
            },
        )
    } else {
        match inicio_de_vuelta(cx, est, variable, cuerpo, i, (k - 1) as nat, n) {
            Some(e) => match ejecutar_bloque_v(cx, e, cuerpo, 0, n) {
                (Ok(None), e2) => Some(
                    EstadoV {
                        entorno: e2.entorno.definir(variable, ValorV::Numero((i + k) as i64)),
                        salida: e2.salida,
                    },
                ),
                _ => None,
            },
            None => None,
        }
    }
}

/// Turn `k + 1` of a loop from `i` is turn `k` of the loop from `i + 1` that
/// starts where the first turn ended.
pub proof fn lema_vuelta_siguiente(
    cx: Contexto,
    est: EstadoV,
    variable: Seq<char>,
    cuerpo: Seq<SentenciaV>,
    i: int,
    k: nat,
    n: nat,
)
    requires
        ejecutar_bloque_v(
            cx,
            inicio_de_vuelta(cx, est, variable, cuerpo, i, 0, n).unwrap(),
            cuerpo,
            0,
            n,
        ).0 == Ok::<Option<ValorV>, ErrorEjecucionV>(None),
    ensures
        inicio_de_vuelta(cx, est, variable, cuerpo, i, k + 1, n) == inicio_de_vuelta(
            cx,
            ejecutar_bloque_v(
                cx,
                inicio_de_vuelta(cx, est, variable, cuerpo, i, 0, n).unwrap(),
                cuerpo,
                0,
                n,
            ).1,
            variable,
            cuerpo,
            i + 1,
            k,
            n,
        ),
    decreases k,
{
    if k > 0 {
        lema_vuelta_siguiente(cx, est, variable, cuerpo, i, (k - 1) as nat, n);
    }
}

/// A `para` from `i` to `fin` that ends without returning or failing has run
/// exactly `fin - i` turns: for each `k` below that, turn `k` ran the block
/// with the variable bound to `i + k`, the turns following one another in
/// rising order, and the state it leaves is the one that the last turn left.
pub proof fn ley_para_cuenta_vueltas(
    cx: Contexto,
    est: EstadoV,
    variable: Seq<char>,
    cuerpo: Seq<SentenciaV>,
    i: int,
    fin: int,
    n: nat,
)
    requires
        i < fin,
        vueltas_v(cx, est, variable, cuerpo, i, fin, n).0 == Ok::<Option<ValorV>, ErrorEjecucionV>(
            None,
        ),
    ensures
        forall|k: nat|
            k < fin - i ==> {
                &&& (#[trigger] inicio_de_vuelta(cx, est, variable, cuerpo, i, k, n)) is Some
                &&& ejecutar_bloque_v(
                    cx,
                    inicio_de_vuelta(cx, est, variable, cuerpo, i, k, n).unwrap(),
                    cuerpo,
                    0,
                    n,
                ).0 == Ok::<Option<ValorV>, ErrorEjecucionV>(None)
            },
        vueltas_v(cx, est, variable, cuerpo, i, fin, n).1 == ejecutar_bloque_v(
            cx,
            inicio_de_vuelta(cx, est, variable, cuerpo, i, (fin - i - 1) as nat, n).unwrap(),
            cuerpo,
            0,
            n,
        ).1,
    decreases fin - i,
{
    let e1 = inicio_de_vuelta(cx, est, variable, cuerpo, i, 0, n).unwrap();
    let (flujo, e2) = ejecutar_bloque_v(cx, e1, cuerpo, 0, n);
    assert(flujo == Ok::<Option<ValorV>, ErrorEjecucionV>(None)) by {
        if flujo != Ok::<Option<ValorV>, ErrorEjecucionV>(None) {
            assert(vueltas_v(cx, est, variable, cuerpo, i, fin, n) == (flujo, e2));
        }
    }
    assert(vueltas_v(cx, est, variable, cuerpo, i, fin, n) == vueltas_v(
        cx,
        e2,
        variable,
        cuerpo,
        i + 1,
        fin,
        n,
    ));
    if i + 1 < fin {
        ley_para_cuenta_vueltas(cx, e2, variable, cuerpo, i + 1, fin, n);
        assert forall|k: nat| k < fin - i implies {
            &&& (#[trigger] inicio_de_vuelta(cx, est, variable, cuerpo, i, k, n)) is Some
            &&& ejecutar_bloque_v(
                cx,
                inicio_de_vuelta(cx, est, variable, cuerpo, i, k, n).unwrap(),
                cuerpo,
                0,
                n,
            ).0 == Ok::<Option<ValorV>, ErrorEjecucionV>(None)
        } by {
            if k > 0 {
                lema_vuelta_siguiente(cx, est, variable, cuerpo, i, (k - 1) as nat, n);
                let j = (k - 1) as nat;
                assert(inicio_de_vuelta(cx, e2, variable, cuerpo, i + 1, j, n) is Some);
            }
        }
        lema_vuelta_siguiente(cx, est, variable, cuerpo, i, (fin - i - 2) as nat, n);
    } else {
        assert forall|k: nat| k < fin - i implies {
            &&& (#[trigger] inicio_de_vuelta(cx, est, variable, cuerpo, i, k, n)) is Some
            &&& ejecutar_bloque_v(
                cx,
                inicio_de_vuelta(cx, est, variable, cuerpo, i, k, n).unwrap(),
                cuerpo,
                0,
                n,
            ).0 == Ok::<Option<ValorV>, ErrorEjecucionV>(None)
        } by {
            assert(k == 0);
        }
    }
}

/// Whether an outcome is the error of a spent budget.
pub open spec fn agotado<T>(r: Result<T, ErrorEjecucionV>) -> bool {
    match r {
        Err(ErrorEjecucionV::LimiteExcedido) => true,
        _ => false,
    }
}

/// The budget decides only whether it is spent: an expression that is
/// evaluated within the budget `n` has the same outcome with any larger one.
pub proof fn ley_presupuesto_de_expresion(
    cx: Contexto,
    ent: EntornoV,
    e: ExpresionV,
    sal: Seq<Seq<char>>,
    n: nat,
    m: nat,
)
    requires
        n <= m,
        !agotado(evaluar_v(cx, ent, e, sal, n).0),
    ensures
        evaluar_v(cx, ent, e, sal, m) == evaluar_v(cx, ent, e, sal, n),
    decreases n, 0nat, e, 1nat, 0nat,
{
    match e {
        ExpresionV::Binaria(a, op, b, pos) => {
            match evaluar_v(cx, ent, *a, sal, n) {
                (Ok(x), s1) => {
                    ley_presupuesto_de_expresion(cx, ent, *a, sal, n, m);
                    match evaluar_v(cx, ent, *b, s1, n) {
                        (Ok(y), s2) => {
                            ley_presupuesto_de_expresion(cx, ent, *b, s1, n, m);
                        },
                        (Err(_), _) => {
                            ley_presupuesto_de_expresion(cx, ent, *b, s1, n, m);
                        },
                    }
                },
                (Err(_), _) => {
                    ley_presupuesto_de_expresion(cx, ent, *a, sal, n, m);
                },
            }
        },
        ExpresionV::Unaria(op, a, pos) => {
            match evaluar_v(cx, ent, *a, sal, n) {
                (Ok(x), s1) => {
                    ley_presupuesto_de_expresion(cx, ent, *a, sal, n, m);
                },
                (Err(_), _) => {
                    ley_presupuesto_de_expresion(cx, ent, *a, sal, n, m);
                },
            }
        },
        ExpresionV::Llamada(nombre, args, pos) => {
            lema_presupuesto_de_llamada(cx, ent, e, sal, n, m);
        },
        _ => {},
    }
}

/// Arguments that are evaluated within a budget have the same outcome with any larger one.
pub proof fn lema_presupuesto_de_lista(
    cx: Contexto,
    ent: EntornoV,
    args: Seq<ExpresionV>,
    i: int,
    acc: Seq<ValorV>,
    sal: Seq<Seq<char>>,
    n: nat,
    m: nat,
)
    requires
        n <= m,
        !agotado(evaluar_lista_v(cx, ent, args, i, acc, sal, n).0),
    ensures
        evaluar_lista_v(cx, ent, args, i, acc, sal, m) == evaluar_lista_v(cx, ent, args, i, acc, sal, n),
    decreases n, 0nat, args, 0nat, args.len() - i,
{
    if 0 <= i < args.len() {
        ley_presupuesto_de_expresion(cx, ent, args[i], sal, n, m);
        match evaluar_v(cx, ent, args[i], sal, n) {
            (Ok(v), s1) => {
                lema_presupuesto_de_lista(cx, ent, args, i + 1, acc.push(v), s1, n, m);
            },
            _ => {},
        }
    }
}

/// A call that is evaluated within a budget has the same outcome with any larger one.
pub proof fn lema_presupuesto_de_llamada(
    cx: Contexto,
    ent: EntornoV,
    e: ExpresionV,
    sal: Seq<Seq<char>>,
    n: nat,
    m: nat,
)
    requires
        n <= m,
        !agotado(llamar_v(cx, ent, e, sal, n).0),
    ensures
        llamar_v(cx, ent, e, sal, m) == llamar_v(cx, ent, e, sal, n),
    decreases n, 0nat, e, 0nat, 0nat,
{
    match e {
        ExpresionV::Llamada(nombre, args, pos) => {
            if cx.funciones.contains_key(nombre) && args.len() == cx.funciones[nombre].parametros.len() {
                lema_presupuesto_de_lista(cx, ent, args, 0, Seq::empty(), sal, n, m);
                match evaluar_lista_v(cx, ent, args, 0, Seq::empty(), sal, n) {
                    (Ok(valores), s1) => {
                        let f = cx.funciones[nombre];
                        let local = crate::semantica::ligar_v(
                            EntornoV::con_padre(ent),
                            f.parametros,
                            valores,
                            0,
                        );
                        ley_presupuesto_de_bloque(
                            cx,
                            EstadoV { entorno: local, salida: s1 },
                            f.cuerpo,
                            0,
                            (n - 1) as nat,
                            (m - 1) as nat,
                        );
                    },
                    _ => {},
                }
            }
        },
        _ => {},
    }
}

/// A block that runs within the budget `n` has the same outcome with any larger one.
pub proof fn ley_presupuesto_de_bloque(
    cx: Contexto,
    est: EstadoV,
    b: Seq<SentenciaV>,
    i: int,
    n: nat,
    m: nat,
)
    requires
        n <= m,
        !agotado(ejecutar_bloque_v(cx, est, b, i, n).0),
    ensures
        ejecutar_bloque_v(cx, est, b, i, m) == ejecutar_bloque_v(cx, est, b, i, n),
    decreases n, 1nat, b, 0nat, b.len() - i,
{
    if 0 <= i < b.len() {
        lema_presupuesto_de_sentencia(cx, est, b[i], n, m);
        match ejecutar_sentencia_v(cx, est, b[i], n) {
            (Ok(None), e1) => {
                ley_presupuesto_de_bloque(cx, e1, b, i + 1, n, m);
            },
            _ => {},
        }
    }
}

/// A statement that runs within a budget has the same outcome with any larger one.
pub proof fn lema_presupuesto_de_sentencia(cx: Contexto, est: EstadoV, s: SentenciaV, n: nat, m: nat)
    requires
        n <= m,
        !agotado(ejecutar_sentencia_v(cx, est, s, n).0),
    ensures
        ejecutar_sentencia_v(cx, est, s, m) == ejecutar_sentencia_v(cx, est, s, n),
    decreases n, 1nat, s, 3nat, 0nat,
{
    match s {
        SentenciaV::Mostrar(e, _) => {
            ley_presupuesto_de_expresion(cx, est.entorno, e, est.salida, n, m);
        },
        SentenciaV::Var(nombre, e, _) => {
            ley_presupuesto_de_expresion(cx, est.entorno, e, est.salida, n, m);
        },
        SentenciaV::Asignacion(nombre, e, pos) => {
            ley_presupuesto_de_expresion(cx, est.entorno, e, est.salida, n, m);
        },
        SentenciaV::Si(c, entonces, sino, _) => {
            ley_presupuesto_de_expresion(cx, est.entorno, c, est.salida, n, m);
            match evaluar_v(cx, est.entorno, c, est.salida, n) {
                (Ok(v), sal) => {
                    let e1 = EstadoV { entorno: est.entorno, salida: sal };
                    if v.verdad() {
                        ley_presupuesto_de_bloque(cx, e1, entonces, 0, n, m);
                    } else {
                        match sino {
                            Some(bloque) => {
                                ley_presupuesto_de_bloque(cx, e1, bloque, 0, n, m);
                            },
                            None => {},
                        }
                    }
                },
                _ => {},
            }
        },
        SentenciaV::Mientras(_, _, _) => {
            lema_presupuesto_de_mientras(cx, est, s, n, m);
        },
        SentenciaV::Para(variable, inicio, fin, cuerpo, pos) => {
            ley_presupuesto_de_expresion(cx, est.entorno, inicio, est.salida, n, m);
            match evaluar_v(cx, est.entorno, inicio, est.salida, n) {
                (Ok(a), s1) => {
                    match a.numero() {
                        Some(i) => {
                            ley_presupuesto_de_expresion(cx, est.entorno, fin, s1, n, m);
                            match evaluar_v(cx, est.entorno, fin, s1, n) {
                                (Ok(b), s2) => {
                                    match b.numero() {
                                        Some(f) => {
                                            lema_presupuesto_de_vueltas(
                                                cx,
                                                EstadoV { entorno: est.entorno, salida: s2 },
                                                variable,
                                                cuerpo,
                                                i as int,
                                                f as int,
                                                n,
                                                m,
                                            );
                                        },
                                        None => {},
                                    }
                                },
                                _ => {},
                            }
                        },
                        None => {},
                    }
                },
                _ => {},
            }
        },
        SentenciaV::Retornar(e, _) => {
            match e {
                Some(x) => {
                    ley_presupuesto_de_expresion(cx, est.entorno, x, est.salida, n, m);
                },
                None => {},
            }
        },
        SentenciaV::Expresion(e) => {
            ley_presupuesto_de_expresion(cx, est.entorno, e, est.salida, n, m);
        },
    }
}

/// A `mientras` that runs within a budget has the same outcome with any larger one.
pub proof fn lema_presupuesto_de_mientras(cx: Contexto, est: EstadoV, s: SentenciaV, n: nat, m: nat)
    requires
        n <= m,
        s is Mientras,
        !agotado(mientras_v(cx, est, s, n).0),
    ensures
        mientras_v(cx, est, s, m) == mientras_v(cx, est, s, n),
    decreases n, 1nat, s, 2nat, 0nat,
{
    match s {
        SentenciaV::Mientras(c, cuerpo, _) => {
            ley_presupuesto_de_expresion(cx, est.entorno, c, est.salida, n, m);
            match evaluar_v(cx, est.entorno, c, est.salida, n) {
                (Ok(v), sal) => {
                    let e1 = EstadoV { entorno: est.entorno, salida: sal };
                    if v.verdad() {
                        ley_presupuesto_de_bloque(cx, e1, cuerpo, 0, (n - 1) as nat, (m - 1) as nat);
                        match ejecutar_bloque_v(cx, e1, cuerpo, 0, (n - 1) as nat) {
                            (Ok(None), e2) => {
                                lema_presupuesto_de_mientras(
                                    cx,
                                    e2,
                                    s,
                                    (n - 1) as nat,
                                    (m - 1) as nat,
                                );
                            },
                            _ => {},
                        }
                    }
                },
                _ => {},
            }
        },
        _ => {},
    }
}

/// The turns of a `para` that run within a budget have the same outcome with any larger one.
pub proof fn lema_presupuesto_de_vueltas(
    cx: Contexto,
    est: EstadoV,
    variable: Seq<char>,
    cuerpo: Seq<SentenciaV>,
    i: int,
    fin: int,
    n: nat,
    m: nat,
)
    requires
        n <= m,
        !agotado(vueltas_v(cx, est, variable, cuerpo, i, fin, n).0),
    ensures
        vueltas_v(cx, est, variable, cuerpo, i, fin, m) == vueltas_v(cx, est, variable, cuerpo, i, fin, n),
    decreases n, 1nat, cuerpo, 1nat, fin - i,
{
    if i < fin {
        let e1 = EstadoV {
            entorno: est.entorno.definir(variable, ValorV::Numero(i as i64)),
            salida: est.salida,
        };
        ley_presupuesto_de_bloque(cx, e1, cuerpo, 0, n, m);
        match ejecutar_bloque_v(cx, e1, cuerpo, 0, n) {
            (Ok(None), e2) => {
                lema_presupuesto_de_vueltas(cx, e2, variable, cuerpo, i + 1, fin, n, m);
            },
            _ => {},
        }
    }
}

} // verus!
