//! What the operators compute.
//!
//! Integers are 64-bit and wrap around. Division cuts toward zero. Where an
//! integer meets a decimal the integer is turned into a decimal first, and the
//! host does the arithmetic.

use vstd::prelude::*;
use crate::ast::{OperadorBinario, OperadorUnario, Posicion};
use crate::decimal::{
    aritmetica_valida, calcular, calculo_de, decimales_de, escritura_de, formato_valido, Decimal,
    Decimales, OperacionDecimal, OperacionDecimalV,
};
use crate::error::{ErrorEjecucion, ErrorEjecucionV};
use crate::valor::{Valor, ValorV};

verus! {

/// The 64-bit integer that `x` wraps around to.
pub open spec fn envolver(x: int) -> i64 {
    let r = x % 0x1_0000_0000_0000_0000;
    if r >= 0x8000_0000_0000_0000 {
        (r - 0x1_0000_0000_0000_0000) as i64
    } else {
        r as i64
    }
}

/// The size of `x`, without its sign.
pub open spec fn valor_absoluto(x: int) -> int {
    if x < 0 {
        -x
    } else {
        x
    }
}

/// The quotient of `a` by `b`, cut toward zero.
pub open spec fn cociente(a: int, b: int) -> int
    recommends
        b != 0,
{
    if (a >= 0) == (b > 0) {
        valor_absoluto(a) / valor_absoluto(b)
    } else {
        -(valor_absoluto(a) / valor_absoluto(b))
    }
}

/// The remainder of `a` by `b`: it has the sign of `a` and is smaller than `b` in size.
pub open spec fn resto(a: int, b: int) -> int
    recommends
        b != 0,
{
    if a >= 0 {
        valor_absoluto(a) % valor_absoluto(b)
    } else {
        -(valor_absoluto(a) % valor_absoluto(b))
    }
}

/// The sum of two integers, wrapped.
pub fn sumar_enteros(a: i64, b: i64) -> (r: i64)
    ensures
        r == envolver(a + b),
{
    a.wrapping_add(b)
}

/// The difference of two integers, wrapped.
pub fn restar_enteros(a: i64, b: i64) -> (r: i64)
    ensures
        r == envolver(a - b),
{
    a.wrapping_sub(b)
}

/// The product of two integers, wrapped.
pub fn multiplicar_enteros(a: i64, b: i64) -> (r: i64)
    ensures
        r == envolver(a * b),
{
    a.wrapping_mul(b)
}

/// The quotient of two integers, cut toward zero and wrapped.
pub fn dividir_enteros(a: i64, b: i64) -> (r: i64)
    requires
        b != 0,
    ensures
        r == envolver(cociente(a as int, b as int)),
{
    proof {
        let x = valor_absoluto(a as int);
        let d = valor_absoluto(b as int);
        vstd::arithmetic::div_mod::lemma_div_basics_5(x, d);
        vstd::arithmetic::div_mod::lemma_div_pos_is_pos(x, d);
        if a == 0 {
            vstd::arithmetic::div_mod::lemma_div_basics_1(d);
        }
        assert(a < 0 ==> a * -1 == x);
        assert(b < 0 ==> b * -1 == d);
    }
    match a.checked_div(b) {
        Some(q) => q,
        None => i64::MIN,
    }
}

/// The remainder of two integers.
pub fn resto_de_enteros(a: i64, b: i64) -> (r: i64)
    requires
        b != 0,
    ensures
        r == resto(a as int, b as int),
{
    proof {
        let x = valor_absoluto(a as int);
        let d = valor_absoluto(b as int);
        vstd::arithmetic::div_mod::lemma_mod_division_less_than_divisor(x, d);
        if a == 0 {
            vstd::arithmetic::div_mod::lemma_small_mod(0, d as nat);
        }
        assert(a < 0 ==> a * -1 == x);
        assert(b < 0 ==> b * -1 == d);
    }
    match a.checked_rem(b) {
        Some(q) => q,
        None => 0,
    }
}

/// The opposite of an integer, wrapped.
pub fn negar_entero(a: i64) -> (r: i64)
    ensures
        r == envolver(-a),
{
    0i64.wrapping_sub(a)
}

/// The outcome of an evaluation, as a model.
pub open spec fn vista_de_resultado(r: Result<Valor, ErrorEjecucion>) -> Result<ValorV, ErrorEjecucionV> {
    match r {
        Ok(v) => Ok(v@),
        Err(e) => Err(e@),
    }
}

/// A number as a decimal: an integer is turned into the decimal nearest to it.
pub open spec fn decimal_de(dec: Decimales, v: ValorV) -> Decimal {
    match v {
        ValorV::Numero(n) => (dec.calculo)(OperacionDecimalV::DeEntero(n)),
        ValorV::Decimal(d) => d,
        _ => Decimal { bits: 0 },
    }
}

/// Whether a divisor is zero.
pub open spec fn es_cero(v: ValorV) -> bool {
    match v {
        ValorV::Numero(n) => n == 0,
        ValorV::Decimal(d) => d.es_cero(),
        _ => false,
    }
}

/// What `+`, `-`, `*`, `/` and `%` give on two integers, the divisor not zero.
pub open spec fn aritmetica_entera(op: OperadorBinario, a: i64, b: i64) -> i64 {
    match op {
        OperadorBinario::Suma => envolver(a + b),
        OperadorBinario::Resta => envolver(a - b),
        OperadorBinario::Multiplicacion => envolver(a * b),
        OperadorBinario::Division => envolver(cociente(a as int, b as int)),
        _ => resto(a as int, b as int) as i64,
    }
}

/// What is asked of the host for `+`, `-`, `*` and `/` on two decimals.
pub open spec fn operacion_decimal(op: OperadorBinario, a: Decimal, b: Decimal) -> OperacionDecimalV {
    match op {
        OperadorBinario::Suma => OperacionDecimalV::Sumar(a, b),
        OperadorBinario::Resta => OperacionDecimalV::Restar(a, b),
        OperadorBinario::Multiplicacion => OperacionDecimalV::Multiplicar(a, b),
        _ => OperacionDecimalV::Dividir(a, b),
    }
}

/// The error of an operator on operands it is not defined on.
pub open spec fn no_aplicable(op: OperadorBinario, izq: ValorV, der: ValorV, pos: Posicion) -> Result<
    ValorV,
    ErrorEjecucionV,
> {
    Err(ErrorEjecucionV::OperadorNoAplicable { operador: op, izquierda: izq, derecha: der, pos })
}

/// `+`, `-`, `*` or `/` on two numbers: integer arithmetic on two integers,
/// decimal arithmetic where a decimal takes part, and an error on a zero divisor.
pub open spec fn aritmetica_v(
    dec: Decimales,
    izq: ValorV,
    op: OperadorBinario,
    der: ValorV,
    pos: Posicion,
) -> Result<ValorV, ErrorEjecucionV> {
    if !izq.es_numerico() || !der.es_numerico() {
        no_aplicable(op, izq, der, pos)
    } else if op is Division && es_cero(der) {
        Err(ErrorEjecucionV::DivisionPorCero { operador: op, pos })
    } else {
        match (izq, der) {
            (ValorV::Numero(a), ValorV::Numero(b)) => Ok(ValorV::Numero(aritmetica_entera(op, a, b))),
            _ => Ok(
                ValorV::Decimal(
                    (dec.calculo)(operacion_decimal(op, decimal_de(dec, izq), decimal_de(dec, der))),
                ),
            ),
        }
    }
}

/// `+`: arithmetic on two numbers; where either side is a text, the two
/// sides as written, joined.
pub open spec fn suma_v(dec: Decimales, izq: ValorV, der: ValorV, pos: Posicion) -> Result<
    ValorV,
    ErrorEjecucionV,
> {
    if izq.es_numerico() && der.es_numerico() {
        aritmetica_v(dec, izq, OperadorBinario::Suma, der, pos)
    } else if izq is Texto || der is Texto {
        Ok(ValorV::Texto(izq.texto(dec.escritura) + der.texto(dec.escritura)))
    } else {
        no_aplicable(OperadorBinario::Suma, izq, der, pos)
    }
}

/// `%`: on two integers only, with an error on a zero divisor.
pub open spec fn modulo_v(izq: ValorV, der: ValorV, pos: Posicion) -> Result<ValorV, ErrorEjecucionV> {
    match (izq, der) {
        (ValorV::Numero(a), ValorV::Numero(b)) => if b == 0 {
            Err(ErrorEjecucionV::DivisionPorCero { operador: OperadorBinario::Modulo, pos })
        } else {
            Ok(ValorV::Numero(aritmetica_entera(OperadorBinario::Modulo, a, b)))
        },
        _ => no_aplicable(OperadorBinario::Modulo, izq, der, pos),
    }
}

/// What `<`, `<=`, `>` and `>=` give on two integers.
pub open spec fn orden_entero(op: OperadorBinario, a: i64, b: i64) -> bool {
    match op {
        OperadorBinario::Menor => a < b,
        OperadorBinario::MenorIgual => a <= b,
        OperadorBinario::Mayor => a > b,
        _ => a >= b,
    }
}

/// What `<`, `<=`, `>` and `>=` give on two decimals: false wherever either is not a number.
pub open spec fn orden_decimal(op: OperadorBinario, a: Decimal, b: Decimal) -> bool {
    match op {
        OperadorBinario::Menor => a.menor_que(b),
        OperadorBinario::MenorIgual => a.menor_que(b) || a.igual_a(b),
        OperadorBinario::Mayor => b.menor_que(a),
        _ => b.menor_que(a) || a.igual_a(b),
    }
}

/// `<`, `<=`, `>` or `>=`: on two numbers only.
pub open spec fn comparacion_v(
    dec: Decimales,
    izq: ValorV,
    op: OperadorBinario,
    der: ValorV,
    pos: Posicion,
) -> Result<ValorV, ErrorEjecucionV> {
    if !izq.es_numerico() || !der.es_numerico() {
        no_aplicable(op, izq, der, pos)
    } else {
        match (izq, der) {
            (ValorV::Numero(a), ValorV::Numero(b)) => Ok(ValorV::Booleano(orden_entero(op, a, b))),
            _ => Ok(
                ValorV::Booleano(orden_decimal(op, decimal_de(dec, izq), decimal_de(dec, der))),
            ),
        }
    }
}

/// What the binary operator `op`, written at `pos`, gives on `izq` and `der`.
pub open spec fn aplicar_v(
    dec: Decimales,
    izq: ValorV,
    op: OperadorBinario,
    der: ValorV,
    pos: Posicion,
) -> Result<ValorV, ErrorEjecucionV> {
    match op {
        OperadorBinario::Suma => suma_v(dec, izq, der, pos),
        OperadorBinario::Resta => aritmetica_v(dec, izq, op, der, pos),
        OperadorBinario::Multiplicacion => aritmetica_v(dec, izq, op, der, pos),
        OperadorBinario::Division => aritmetica_v(dec, izq, op, der, pos),
        OperadorBinario::Modulo => modulo_v(izq, der, pos),
        OperadorBinario::Igual => Ok(ValorV::Booleano(izq.igual_a(der))),
        OperadorBinario::Diferente => Ok(ValorV::Booleano(!izq.igual_a(der))),
        OperadorBinario::Menor => comparacion_v(dec, izq, op, der, pos),
        OperadorBinario::MenorIgual => comparacion_v(dec, izq, op, der, pos),
        OperadorBinario::Mayor => comparacion_v(dec, izq, op, der, pos),
        OperadorBinario::MayorIgual => comparacion_v(dec, izq, op, der, pos),
        OperadorBinario::Y => Ok(ValorV::Booleano(izq.verdad() && der.verdad())),
        OperadorBinario::O => Ok(ValorV::Booleano(izq.verdad() || der.verdad())),
    }
}

/// What the unary operator `op`, written at `pos`, gives on `v`.
pub open spec fn aplicar_unario_v(op: OperadorUnario, v: ValorV, pos: Posicion) -> Result<
    ValorV,
    ErrorEjecucionV,
> {
    match op {
        OperadorUnario::Negacion => match v {
            ValorV::Numero(n) => Ok(ValorV::Numero(envolver(-n))),
            ValorV::Decimal(d) => Ok(ValorV::Decimal(d.opuesto())),
            _ => Err(ErrorEjecucionV::NegacionNoAplicable { valor: v, pos }),
        },
        OperadorUnario::No => Ok(ValorV::Booleano(!v.verdad())),
    }
}

/// Whether `v` is an integer or a decimal.
fn numerico(v: &Valor) -> (b: bool)
    ensures
        b == v@.es_numerico(),
{
    match v {
        Valor::Numero(_) => true,
        Valor::Decimal(_) => true,
        _ => false,
    }
}

/// The number `v` as a decimal.
fn como_decimal<A: Fn(OperacionDecimal) -> Decimal>(v: &Valor, ar: &A) -> (d: Decimal)
    requires
        aritmetica_valida(ar),
        v@.es_numerico(),
    ensures
        forall|esc: spec_fn(Decimal) -> Seq<char>|
            d == decimal_de(Decimales { calculo: calculo_de(ar), escritura: esc }, v@),
{
    match v {
        Valor::Numero(n) => calcular(ar, OperacionDecimal::DeEntero(*n)),
        Valor::Decimal(d) => *d,
        _ => Decimal { bits: 0 },
    }
}

/// The error of `op` on operands it is not defined on.
fn error_de_operador(op: OperadorBinario, izq: Valor, der: Valor, pos: Posicion) -> (r: Result<
    Valor,
    ErrorEjecucion,
>)
    ensures
        vista_de_resultado(r) == no_aplicable(op, izq@, der@, pos),
{
    Err(ErrorEjecucion::OperadorNoAplicable { operador: op, izquierda: izq, derecha: der, pos })
}

/// `+`, `-`, `*` or `/` on two values.
fn aritmetica<A: Fn(OperacionDecimal) -> Decimal, T: Fn(Decimal) -> String>(
    izq: Valor,
    op: OperadorBinario,
    der: Valor,
    pos: Posicion,
    ar: &A,
    fm: &T,
) -> (r: Result<Valor, ErrorEjecucion>)
    requires
        aritmetica_valida(ar),
        op is Suma || op is Resta || op is Multiplicacion || op is Division,
    ensures
        vista_de_resultado(r) == aritmetica_v(decimales_de(ar, fm), izq@, op, der@, pos),
{
    if !numerico(&izq) || !numerico(&der) {
        return error_de_operador(op, izq, der, pos);
    }
    let divisor_cero = match &der {
        Valor::Numero(b) => *b == 0,
        Valor::Decimal(b) => b.cero(),
        _ => false,
    };
    if divisor_cero {
        match op {
            OperadorBinario::Division => {
                return Err(ErrorEjecucion::DivisionPorCero { operador: op, pos });
            },
            _ => {},
        }
    }
    match (&izq, &der) {
        (Valor::Numero(a), Valor::Numero(b)) => {
            let n: i64 = match op {
                OperadorBinario::Suma => sumar_enteros(*a, *b),
                OperadorBinario::Resta => restar_enteros(*a, *b),
                OperadorBinario::Multiplicacion => multiplicar_enteros(*a, *b),
                _ => dividir_enteros(*a, *b),
            };
            Ok(Valor::Numero(n))
        },
        _ => {
            let a = como_decimal(&izq, ar);
            let b = como_decimal(&der, ar);
            let pedido = match op {
                OperadorBinario::Suma => OperacionDecimal::Sumar(a, b),
                OperadorBinario::Resta => OperacionDecimal::Restar(a, b),
                OperadorBinario::Multiplicacion => OperacionDecimal::Multiplicar(a, b),
                _ => OperacionDecimal::Dividir(a, b),
            };
            Ok(Valor::Decimal(calcular(ar, pedido)))
        },
    }
}

/// `<`, `<=`, `>` or `>=` on two values.
fn comparacion<A: Fn(OperacionDecimal) -> Decimal, T: Fn(Decimal) -> String>(
    izq: Valor,
    op: OperadorBinario,
    der: Valor,
    pos: Posicion,
    ar: &A,
    fm: &T,
) -> (r: Result<Valor, ErrorEjecucion>)
    requires
        aritmetica_valida(ar),
        op is Menor || op is MenorIgual || op is Mayor || op is MayorIgual,
    ensures
        vista_de_resultado(r) == comparacion_v(decimales_de(ar, fm), izq@, op, der@, pos),
{
    if !numerico(&izq) || !numerico(&der) {
        return error_de_operador(op, izq, der, pos);
    }
    match (&izq, &der) {
        (Valor::Numero(a), Valor::Numero(b)) => {
            let r: bool = match op {
                OperadorBinario::Menor => *a < *b,
                OperadorBinario::MenorIgual => *a <= *b,
                OperadorBinario::Mayor => *a > *b,
                _ => *a >= *b,
            };
            Ok(Valor::Booleano(r))
        },
        _ => {
            let a = como_decimal(&izq, ar);
            let b = como_decimal(&der, ar);
            let r: bool = match op {
                OperadorBinario::Menor => a.menor(&b),
                OperadorBinario::MenorIgual => a.menor(&b) || a.igual(&b),
                OperadorBinario::Mayor => b.menor(&a),
                _ => b.menor(&a) || a.igual(&b),
            };
            Ok(Valor::Booleano(r))
        },
    }
}

/// Applies the binary operator `op`, written at `pos`, to `izq` and `der`.
pub fn aplicar_operador_binario<A: Fn(OperacionDecimal) -> Decimal, T: Fn(Decimal) -> String>(
    izq: Valor,
    op: &OperadorBinario,
    der: Valor,
    pos: &Posicion,
    ar: &A,
    fm: &T,
) -> (r: Result<Valor, ErrorEjecucion>)
    requires
        aritmetica_valida(ar),
        formato_valido(fm),
    ensures
        vista_de_resultado(r) == aplicar_v(decimales_de(ar, fm), izq@, *op, der@, *pos),
{
    match op {
        OperadorBinario::Suma => {
            if numerico(&izq) && numerico(&der) {
                aritmetica(izq, *op, der, *pos, ar, fm)
            } else {
                let textual = match (&izq, &der) {
                    (Valor::Texto(_), _) => true,
                    (_, Valor::Texto(_)) => true,
                    _ => false,
                };
                if textual {
                    let mut s = String::new();
                    izq.agregar_a(&mut s, fm);
                    der.agregar_a(&mut s, fm);
                    proof {
                        assert(s@ =~= izq@.texto(escritura_de(fm)) + der@.texto(escritura_de(fm)));
                    }
                    Ok(Valor::Texto(s))
                } else {
                    error_de_operador(*op, izq, der, *pos)
                }
            }
        },
        OperadorBinario::Resta => aritmetica(izq, *op, der, *pos, ar, fm),
        OperadorBinario::Multiplicacion => aritmetica(izq, *op, der, *pos, ar, fm),
        OperadorBinario::Division => aritmetica(izq, *op, der, *pos, ar, fm),
        OperadorBinario::Modulo => match (&izq, &der) {
            (Valor::Numero(a), Valor::Numero(b)) => {
                if *b == 0 {
                    Err(ErrorEjecucion::DivisionPorCero { operador: *op, pos: *pos })
                } else {
                    Ok(Valor::Numero(resto_de_enteros(*a, *b)))
                }
            },
            _ => error_de_operador(*op, izq, der, *pos),
        },
        OperadorBinario::Igual => Ok(Valor::Booleano(izq.igual(&der))),
        OperadorBinario::Diferente => Ok(Valor::Booleano(!izq.igual(&der))),
        OperadorBinario::Menor => comparacion(izq, *op, der, *pos, ar, fm),
        OperadorBinario::MenorIgual => comparacion(izq, *op, der, *pos, ar, fm),
        OperadorBinario::Mayor => comparacion(izq, *op, der, *pos, ar, fm),
        OperadorBinario::MayorIgual => comparacion(izq, *op, der, *pos, ar, fm),
        OperadorBinario::Y => {
            let a = izq.es_verdadero();
            let b = der.es_verdadero();
            Ok(Valor::Booleano(a && b))
        },
        OperadorBinario::O => {
            let a = izq.es_verdadero();
            let b = der.es_verdadero();
            Ok(Valor::Booleano(a || b))
        },
    }
}

/// Applies the unary operator `op`, written at `pos`, to `v`.
pub fn aplicar_operador_unario(op: &OperadorUnario, v: Valor, pos: &Posicion) -> (r: Result<
    Valor,
    ErrorEjecucion,
>)
    ensures
        vista_de_resultado(r) == aplicar_unario_v(*op, v@, *pos),
{
    match op {
        OperadorUnario::Negacion => match v {
            Valor::Numero(n) => Ok(Valor::Numero(negar_entero(n))),
            Valor::Decimal(d) => Ok(Valor::Decimal(d.negar())),
            _ => Err(ErrorEjecucion::NegacionNoAplicable { valor: v, pos: *pos }),
        },
        OperadorUnario::No => Ok(Valor::Booleano(!v.es_verdadero())),
    }
}

} // verus!
