//! Text helpers: characters of a string, building strings, decimal digits.

use vstd::prelude::*;
use vstd::string::StringExecFns;

verus! {

/// The characters of `s`, in order.
pub fn caracteres(s: &str) -> (v: Vec<char>)
    ensures
        v@ == s@,
{
    let mut v: Vec<char> = Vec::new();
    for c in it: s.chars()
        invariant
            v.len() == it.index(),
            it.seq() == s@,
            forall|j: int| 0 <= j < v.len() ==> v@[j] == it.seq()[j],
    {
        v.push(c);
    }
    assert(v@ =~= s@);
    v
}

/// Appends `c` to `s`.
///
/// Trusted: this is `String::push` of the standard library, which is
/// documented to append the given character to the end of the string.
#[verifier::external_body]
pub(crate) fn agregar_caracter(s: &mut String, c: char)
    ensures
        final(s)@ == old(s)@.push(c),
{
    s.push(c)
}

/// The string made of the characters `v[desde..hasta]`.
pub fn texto_de(v: &Vec<char>, desde: usize, hasta: usize) -> (s: String)
    requires
        desde <= hasta <= v.len(),
    ensures
        s@ == v@.subrange(desde as int, hasta as int),
{
    let mut s = String::new();
    let mut i: usize = desde;
    while i < hasta
        invariant
            desde <= i <= hasta <= v.len(),
            s@ == v@.subrange(desde as int, i as int),
        decreases hasta - i,
    {
        agregar_caracter(&mut s, v[i]);
        i += 1;
        assert(s@ =~= v@.subrange(desde as int, i as int));
    }
    s
}

/// The character that writes the digit `d`.
pub open spec fn digito(d: int) -> char {
    (('0' as int) + d) as char
}

/// The decimal digits of `n`, most significant first, without leading zeros.
pub open spec fn digitos(n: nat) -> Seq<char>
    decreases n,
{
    if n < 10 {
        seq![digito(n as int)]
    } else {
        digitos(n / 10).push(digito((n % 10) as int))
    }
}

/// The decimal writing of an integer, with `-` before a negative one.
pub open spec fn texto_entero(n: int) -> Seq<char> {
    if n < 0 {
        seq!['-'] + digitos((-n) as nat)
    } else {
        digitos(n as nat)
    }
}

/// Appends the decimal digits of `n` to `s`.
pub fn agregar_natural(s: &mut String, n: u64)
    ensures
        final(s)@ == old(s)@ + digitos(n as nat),
    decreases n,
{
    if n >= 10 {
        agregar_natural(s, n / 10);
    }
    let d: u8 = (n % 10) as u8;
    let c: char = (48u8 + d) as char;
    assert(c == digito((n % 10) as int));
    agregar_caracter(s, c);
    assert(final(s)@ =~= old(s)@ + digitos(n as nat));
}

/// Appends the decimal writing of `n` to `s`.
pub fn agregar_entero(s: &mut String, n: i64)
    ensures
        final(s)@ == old(s)@ + texto_entero(n as int),
{
    if n < 0 {
        agregar_caracter(s, '-');
        let m: u64 = if n == i64::MIN {
            9223372036854775808u64
        } else {
            (-n) as u64
        };
        agregar_natural(s, m);
        assert(final(s)@ =~= old(s)@ + texto_entero(n as int));
    } else {
        agregar_natural(s, n as u64);
    }
}

/// Appends the text `t` to `s`.
pub fn agregar_texto(s: &mut String, t: &str)
    ensures
        final(s)@ == old(s)@ + t@,
{
    s.append(t);
}

/// The decimal writing of `n`.
pub fn entero_a_texto(n: i64) -> (s: String)
    ensures
        s@ == texto_entero(n as int),
{
    let mut s = String::new();
    agregar_entero(&mut s, n);
    assert(s@ =~= texto_entero(n as int));
    s
}

} // verus!
