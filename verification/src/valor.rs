//! Runtime values: what they are, what they count as in a condition, how they
//! are written and when two of them are equal.

use vstd::prelude::*;
use vstd::string::StringExecFns;
use crate::decimal::{
    aritmetica_valida, calcular, calculo_de, escribir, formato_valido, Decimal, OperacionDecimal,
    OperacionDecimalV,
};
use crate::texto::{agregar_entero, texto_entero};

verus! {

/// A value that an expression evaluates to.
#[derive(Debug, PartialEq)]
pub enum Valor {
    Numero(i64),
    Decimal(Decimal),
    Texto(String),
    Booleano(bool),
    Nulo,
}

/// Model of [`Valor`].
pub enum ValorV {
    Numero(i64),
    Decimal(Decimal),
    Texto(Seq<char>),
    Booleano(bool),
    Nulo,
}

impl View for Valor {
    type V = ValorV;

    open spec fn view(&self) -> ValorV {
        match self {
            Valor::Numero(n) => ValorV::Numero(*n),
            Valor::Decimal(d) => ValorV::Decimal(*d),
            Valor::Texto(s) => ValorV::Texto(s@),
            Valor::Booleano(b) => ValorV::Booleano(*b),
            Valor::Nulo => ValorV::Nulo,
        }
    }
}

impl Clone for Valor {
    fn clone(&self) -> (r: Self)
        ensures
            r@ == self@,
    {
        match self {
            Valor::Numero(n) => Valor::Numero(*n),
            Valor::Decimal(d) => Valor::Decimal(*d),
            Valor::Texto(s) => Valor::Texto(s.clone()),
            Valor::Booleano(b) => Valor::Booleano(*b),
            Valor::Nulo => Valor::Nulo,
        }
    }
}

/// A value that is neither an integer nor a decimal, where a number was needed.
#[derive(Debug, Clone, Copy, PartialEq, Eq, Structural)]
pub struct NoNumerico;

impl ValorV {
    /// What the value counts as in a condition: a boolean as itself, null as
    /// false, a number as whether it is not zero, a text as whether it is not
    /// empty.
    pub open spec fn verdad(self) -> bool {
        match self {
            ValorV::Booleano(b) => b,
            ValorV::Nulo => false,
            ValorV::Numero(n) => n != 0,
            ValorV::Decimal(d) => !d.es_cero(),
            ValorV::Texto(s) => s.len() > 0,
        }
    }

    /// The value as an integer: a decimal is cut toward zero; other values have none.
    pub open spec fn numero(self) -> Option<i64> {
        match self {
            ValorV::Numero(n) => Some(n),
            ValorV::Decimal(d) => Some(d.truncado()),
            _ => None,
        }
    }

    /// The value as a decimal, where `calculo` is the host's arithmetic: an
    /// integer is turned into the decimal nearest to it; other values have none.
    pub open spec fn decimal(self, calculo: spec_fn(OperacionDecimalV) -> Decimal) -> Option<Decimal> {
        match self {
            ValorV::Numero(n) => Some(calculo(OperacionDecimalV::DeEntero(n))),
            ValorV::Decimal(d) => Some(d),
            _ => None,
        }
    }

    /// Whether the value is an integer or a decimal.
    pub open spec fn es_numerico(self) -> bool {
        self is Numero || self is Decimal
    }

    /// Equality of values: within one variant, that of what the variant
    /// holds, where decimals are compared as numbers; across variants, false.
    pub open spec fn igual_a(self, otro: ValorV) -> bool {
        match (self, otro) {
            (ValorV::Numero(a), ValorV::Numero(b)) => a == b,
            (ValorV::Decimal(a), ValorV::Decimal(b)) => a.igual_a(b),
            (ValorV::Texto(a), ValorV::Texto(b)) => a == b,
            (ValorV::Booleano(a), ValorV::Booleano(b)) => a == b,
            (ValorV::Nulo, ValorV::Nulo) => true,
            _ => false,
        }
    }

    /// How the value is written, where `escritura` writes decimals.
    pub open spec fn texto(self, escritura: spec_fn(Decimal) -> Seq<char>) -> Seq<char> {
        match self {
            ValorV::Numero(n) => texto_entero(n as int),
            ValorV::Decimal(d) => escritura(d),
            ValorV::Texto(s) => s,
            ValorV::Booleano(b) => if b {
                "verdadero"@
            } else {
                "falso"@
            },
            ValorV::Nulo => "nulo"@,
        }
    }
}

impl Valor {
    /// What the value counts as in a condition.
    pub fn es_verdadero(&self) -> (b: bool)
        ensures
            b == self@.verdad(),
    {
        match self {
            Valor::Booleano(b) => *b,
            Valor::Nulo => false,
            Valor::Numero(n) => *n != 0,
            Valor::Decimal(d) => !d.cero(),
            Valor::Texto(s) => !s.as_str().is_empty(),
        }
    }

    /// The value as an integer, if it is a number.
    pub fn a_numero(&self) -> (r: Result<i64, NoNumerico>)
        ensures
            match self@.numero() {
                Some(n) => r == Ok::<i64, NoNumerico>(n),
                None => r is Err,
            },
    {
        match self {
            Valor::Numero(n) => Ok(*n),
            Valor::Decimal(d) => Ok(d.truncar()),
            _ => Err(NoNumerico),
        }
    }

    /// The value as a decimal, if it is a number, where `ar` is the host's arithmetic.
    pub fn a_decimal<A: Fn(OperacionDecimal) -> Decimal>(&self, ar: &A) -> (r: Result<Decimal, NoNumerico>)
        requires
            aritmetica_valida(ar),
        ensures
            match self@.decimal(calculo_de(ar)) {
                Some(d) => r == Ok::<Decimal, NoNumerico>(d),
                None => r is Err,
            },
    {
        match self {
            Valor::Numero(n) => Ok(calcular(ar, OperacionDecimal::DeEntero(*n))),
            Valor::Decimal(d) => Ok(*d),
            _ => Err(NoNumerico),
        }
    }

    /// Whether `self` and `otro` are equal values.
    pub fn igual(&self, otro: &Valor) -> (b: bool)
        ensures
            b == self@.igual_a(otro@),
    {
        match (self, otro) {
            (Valor::Numero(a), Valor::Numero(b)) => *a == *b,
            (Valor::Decimal(a), Valor::Decimal(b)) => a.igual(b),
            (Valor::Texto(a), Valor::Texto(b)) => *a == *b,
            (Valor::Booleano(a), Valor::Booleano(b)) => *a == *b,
            (Valor::Nulo, Valor::Nulo) => true,
            _ => false,
        }
    }

    /// Appends the writing of the value to `s`, where `fm` writes decimals.
    pub fn agregar_a<T: Fn(Decimal) -> String>(&self, s: &mut String, fm: &T)
        requires
            formato_valido(fm),
        ensures
            final(s)@ == old(s)@ + self@.texto(crate::decimal::escritura_de(fm)),
    {
        match self {
            Valor::Numero(n) => agregar_entero(s, *n),
            Valor::Decimal(d) => {
                let t = escribir(fm, *d);
                s.append(t.as_str());
            },
            Valor::Texto(t) => s.append(t.as_str()),
            Valor::Booleano(b) => if *b {
                s.append("verdadero");
            } else {
                s.append("falso");
            },
            Valor::Nulo => s.append("nulo"),
        }
    }

    /// The writing of the value, where `fm` writes decimals.
    pub fn texto<T: Fn(Decimal) -> String>(&self, fm: &T) -> (s: String)
        requires
            formato_valido(fm),
        ensures
            s@ == self@.texto(crate::decimal::escritura_de(fm)),
    {
        let mut s = String::new();
        self.agregar_a(&mut s, fm);
        assert(s@ =~= self@.texto(crate::decimal::escritura_de(fm)));
        s
    }
}

} // verus!
