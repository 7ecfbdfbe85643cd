//! Decimal numbers, held as the 64 bits of IEEE 754 double precision.
//!
//! What can be read off the bits is computed here: sign, zero, order,
//! equality, negation and truncation to an integer. Arithmetic, the reading
//! of a literal and the writing of a value are the host's: the evaluator asks
//! for them through two functions that it is handed, and is proved for
//! whatever functions those are.

use vstd::prelude::*;
use vstd::arithmetic::power2::{lemma2_to64, lemma2_to64_rest, lemma_pow2_strictly_increases, lemma_pow2_unfold, pow2};

verus! {

/// Two to the power 63: the sign bit.
pub const SIGNO: u64 = 0x8000_0000_0000_0000u64;

/// Two to the power 52: the first bit of the exponent field.
pub const UNIDAD: u64 = 0x10_0000_0000_0000u64;

/// The bits of infinity: every greater magnitude is not a number.
pub const INFINITO: u64 = 0x7ff0_0000_0000_0000u64;

/// A decimal number: the bits of a double.
///
/// The derived `==` compares bits; [`Decimal::igual`] compares numbers.
#[derive(Debug, Clone, Copy, PartialEq, Eq, Structural)]
pub struct Decimal {
    pub bits: u64,
}

impl View for Decimal {
    type V = Decimal;

    open spec fn view(&self) -> Decimal {
        *self
    }
}

impl Decimal {
    /// The bits without the sign.
    pub open spec fn magnitud(self) -> int {
        if self.bits >= SIGNO {
            self.bits - SIGNO
        } else {
            self.bits as int
        }
    }

    /// Whether the sign bit is set.
    pub open spec fn negativo(self) -> bool {
        self.bits >= SIGNO
    }

    /// Whether the bits stand for no number.
    pub open spec fn es_nan(self) -> bool {
        self.magnitud() > INFINITO
    }

    /// Whether the number is zero, of either sign.
    pub open spec fn es_cero(self) -> bool {
        self.magnitud() == 0
    }

    /// A key that orders the numbers as their values are ordered: the
    /// magnitude, taken negative under the sign. Both zeros have key 0.
    pub open spec fn clave(self) -> int {
        if self.negativo() {
            -self.magnitud()
        } else {
            self.magnitud()
        }
    }

    /// Equality of numbers: false where either is not a number, true of the two zeros.
    pub open spec fn igual_a(self, otro: Decimal) -> bool {
        !self.es_nan() && !otro.es_nan() && self.clave() == otro.clave()
    }

    /// Strict order of numbers: false where either is not a number.
    pub open spec fn menor_que(self, otro: Decimal) -> bool {
        !self.es_nan() && !otro.es_nan() && self.clave() < otro.clave()
    }

    /// The number with the opposite sign.
    pub open spec fn opuesto(self) -> Decimal {
        if self.bits >= SIGNO {
            Decimal { bits: (self.bits - SIGNO) as u64 }
        } else {
            Decimal { bits: (self.bits + SIGNO) as u64 }
        }
    }

    /// The exponent field: the number is its significand times two to the
    /// power of this field less 1075.
    pub open spec fn exponente(self) -> int {
        self.magnitud() / (UNIDAD as int)
    }

    /// The significand of a normal number, with its leading bit.
    pub open spec fn significando(self) -> int {
        UNIDAD + self.magnitud() % (UNIDAD as int)
    }

    /// The whole part of the size of a number whose exponent field is from
    /// 1023 to 1085: between 1 and two to the power 63.
    pub open spec fn parte_entera(self) -> int {
        if self.exponente() >= 1075 {
            self.significando() * pow2((self.exponente() - 1075) as nat)
        } else {
            self.significando() / (pow2((1075 - self.exponente()) as nat) as int)
        }
    }

    /// The number cut to an integer, toward zero: 0 where it is not a number
    /// or smaller than 1 in size, and the nearest end of the 64-bit range
    /// where it lies beyond it.
    pub open spec fn truncado(self) -> i64 {
        if self.es_nan() || self.exponente() < 1023 {
            0
        } else if self.exponente() >= 1086 {
            if self.negativo() {
                i64::MIN
            } else {
                i64::MAX
            }
        } else if self.negativo() {
            (-self.parte_entera()) as i64
        } else {
            self.parte_entera() as i64
        }
    }

    /// The bits without the sign.
    pub fn magnitud_de(&self) -> (m: u64)
        ensures
            m == self.magnitud(),
            m < SIGNO,
    {
        if self.bits >= SIGNO {
            self.bits - SIGNO
        } else {
            self.bits
        }
    }

    /// Whether the sign bit is set.
    pub fn es_negativo(&self) -> (b: bool)
        ensures
            b == self.negativo(),
    {
        self.bits >= SIGNO
    }

    /// Whether the bits stand for no number.
    pub fn no_es_numero(&self) -> (b: bool)
        ensures
            b == self.es_nan(),
    {
        self.magnitud_de() > INFINITO
    }

    /// Whether the number is zero, of either sign.
    pub fn cero(&self) -> (b: bool)
        ensures
            b == self.es_cero(),
    {
        self.magnitud_de() == 0
    }

    fn clave_de(&self) -> (k: i64)
        ensures
            k == self.clave(),
    {
        let m: u64 = self.magnitud_de();
        if self.bits >= SIGNO {
            -(m as i64)
        } else {
            m as i64
        }
    }

    /// Whether `self` and `otro` are equal numbers.
    pub fn igual(&self, otro: &Decimal) -> (b: bool)
        ensures
            b == self.igual_a(*otro),
    {
        !self.no_es_numero() && !otro.no_es_numero() && self.clave_de() == otro.clave_de()
    }

    /// Whether `self` is a smaller number than `otro`.
    pub fn menor(&self, otro: &Decimal) -> (b: bool)
        ensures
            b == self.menor_que(*otro),
    {
        !self.no_es_numero() && !otro.no_es_numero() && self.clave_de() < otro.clave_de()
    }

    /// The number with the opposite sign.
    pub fn negar(&self) -> (d: Decimal)
        ensures
            d == self.opuesto(),
    {
        if self.bits >= SIGNO {
            Decimal { bits: self.bits - SIGNO }
        } else {
            Decimal { bits: self.bits + SIGNO }
        }
    }

    /// The number cut to an integer, toward zero and kept within 64 bits.
    pub fn truncar(&self) -> (n: i64)
        ensures
            n == self.truncado(),
    {
        let m: u64 = self.magnitud_de();
        let e: u64 = m / UNIDAD;
        let s: u64 = UNIDAD + m % UNIDAD;
        if m > INFINITO || e < 1023 {
            0
        } else if e >= 1086 {
            if self.bits >= SIGNO {
                i64::MIN
            } else {
                i64::MAX
            }
        } else {
            let valor: u64 = if e >= 1075 {
                let k: u64 = potencia_de_dos((e - 1075) as u32);
                proof {
                    lemma2_to64();
                    if e - 1075 < 10 {
                        lemma_pow2_strictly_increases((e - 1075) as nat, 10);
                    }
                    assert(s * k < 0x8000_0000_0000_0000) by (nonlinear_arith)
                        requires
                            0 <= s < 0x20_0000_0000_0000,
                            0 < k <= 1024,
                    ;
                }
                s * k
            } else {
                let k: u64 = potencia_de_dos((1075 - e) as u32);
                proof {
                    assert(s / k <= s) by (nonlinear_arith)
                        requires
                            0 <= s,
                            0 < k,
                    ;
                }
                s / k
            };
            if self.bits >= SIGNO {
                -(valor as i64)
            } else {
                valor as i64
            }
        }
    }
}

/// Two to the power `n`.
pub fn potencia_de_dos(n: u32) -> (r: u64)
    requires
        n <= 62,
    ensures
        r == pow2(n as nat),
        r > 0,
{
    let mut r: u64 = 1;
    let mut i: u32 = 0;
    proof {
        lemma2_to64();
    }
    while i < n
        invariant
            i <= n <= 62,
            r == pow2(i as nat),
            r > 0,
        decreases n - i,
    {
        proof {
            lemma_pow2_unfold((i + 1) as nat);
            lemma_pow2_strictly_increases((i + 1) as nat, 63);
            lemma2_to64_rest();
        }
        r = r * 2;
        i += 1;
    }
    r
}

/// What the evaluator asks of the host's arithmetic.
#[derive(Debug, Clone, PartialEq)]
pub enum OperacionDecimal {
    /// The value of a literal: digits, a point, digits.
    Analizar(String),
    /// The decimal nearest to an integer.
    DeEntero(i64),
    Sumar(Decimal, Decimal),
    Restar(Decimal, Decimal),
    Multiplicar(Decimal, Decimal),
    Dividir(Decimal, Decimal),
}

/// Model of [`OperacionDecimal`].
pub enum OperacionDecimalV {
    Analizar(Seq<char>),
    DeEntero(i64),
    Sumar(Decimal, Decimal),
    Restar(Decimal, Decimal),
    Multiplicar(Decimal, Decimal),
    Dividir(Decimal, Decimal),
}

impl View for OperacionDecimal {
    type V = OperacionDecimalV;

    open spec fn view(&self) -> OperacionDecimalV {
        match self {
            OperacionDecimal::Analizar(s) => OperacionDecimalV::Analizar(s@),
            OperacionDecimal::DeEntero(n) => OperacionDecimalV::DeEntero(*n),
            OperacionDecimal::Sumar(a, b) => OperacionDecimalV::Sumar(*a, *b),
            OperacionDecimal::Restar(a, b) => OperacionDecimalV::Restar(*a, *b),
            OperacionDecimal::Multiplicar(a, b) => OperacionDecimalV::Multiplicar(*a, *b),
            OperacionDecimal::Dividir(a, b) => OperacionDecimalV::Dividir(*a, *b),
        }
    }
}

/// The host's decimal arithmetic and decimal writing, as functions.
pub struct Decimales {
    pub calculo: spec_fn(OperacionDecimalV) -> Decimal,
    pub escritura: spec_fn(Decimal) -> Seq<char>,
}

/// Whether `ar` can do the arithmetic: it takes every operation, and what it
/// answers depends on the operation alone.
pub open spec fn aritmetica_valida<A: Fn(OperacionDecimal) -> Decimal>(ar: &A) -> bool {
    &&& forall|op: OperacionDecimal| #[trigger] ar.requires((op,))
    &&& forall|op1: OperacionDecimal, op2: OperacionDecimal, r1: Decimal, r2: Decimal|
        op1@ == op2@ && #[trigger] ar.ensures((op1,), r1) && #[trigger] ar.ensures((op2,), r2)
            ==> r1 == r2
}

/// Whether `fm` can write decimals: it takes every decimal, and what it
/// writes depends on the decimal alone.
pub open spec fn formato_valido<T: Fn(Decimal) -> String>(fm: &T) -> bool {
    &&& forall|d: Decimal| #[trigger] fm.requires((d,))
    &&& forall|d: Decimal, s1: String, s2: String|
        #[trigger] fm.ensures((d,), s1) && #[trigger] fm.ensures((d,), s2) ==> s1@ == s2@
}

/// The function that `ar` computes.
pub open spec fn calculo_de<A: Fn(OperacionDecimal) -> Decimal>(ar: &A) -> spec_fn(
    OperacionDecimalV,
) -> Decimal {
    |v: OperacionDecimalV|
        (choose|par: (OperacionDecimal, Decimal)|
            par.0@ == v && #[trigger] ar.ensures((par.0,), par.1)).1
}

/// The function that `fm` computes.
pub open spec fn escritura_de<T: Fn(Decimal) -> String>(fm: &T) -> spec_fn(Decimal) -> Seq<char> {
    |d: Decimal| (choose|r: String| #[trigger] fm.ensures((d,), r))@
}

/// The host that the functions `ar` and `fm` make.
pub open spec fn decimales_de<A: Fn(OperacionDecimal) -> Decimal, T: Fn(Decimal) -> String>(
    ar: &A,
    fm: &T,
) -> Decimales {
    Decimales { calculo: calculo_de(ar), escritura: escritura_de(fm) }
}

/// Asks the host's arithmetic for the result of `op`.
pub fn calcular<A: Fn(OperacionDecimal) -> Decimal>(ar: &A, op: OperacionDecimal) -> (r: Decimal)
    requires
        aritmetica_valida(ar),
    ensures
        r == calculo_de(ar)(op@),
{
    let ghost v = op@;
    let ghost pedido = op;
    let r = ar(op);
    proof {
        let dado = (pedido, r);
        assert(dado.0@ == v && ar.ensures((dado.0,), dado.1));
        let par = choose|par: (OperacionDecimal, Decimal)|
            par.0@ == v && #[trigger] ar.ensures((par.0,), par.1);
        assert(par.0@ == v && ar.ensures((par.0,), par.1));
        assert(par.1 == r);
    }
    r
}

/// Asks the host for the writing of `d`.
pub fn escribir<T: Fn(Decimal) -> String>(fm: &T, d: Decimal) -> (s: String)
    requires
        formato_valido(fm),
    ensures
        s@ == escritura_de(fm)(d),
{
    let s = fm(d);
    proof {
        let elegido = choose|r: String| #[trigger] fm.ensures((d,), r);
        assert(fm.ensures((d,), s));
        assert(fm.ensures((d,), elegido));
    }
    s
}

} // verus!
