//! The canonical writing of a program as text, and the proof that lexing and
//! parsing the text gives the program back.

use vstd::prelude::*;
use crate::ast::{DeclaracionV, ExpresionV, ParametroV, Programa, ProgramaV, SentenciaV};
use crate::formato::{
    en_llaves, entre_parentesis, formatear, formato_argumentos, formato_bloque,
    formato_declaracion, formato_declaraciones, formato_expresion, formato_parametros,
    formato_programa, formato_sentencia, formato_tipo_de_retorno, junto,
    lema_declaraciones_leidas, lema_lee_programa, lema_lista_avanza, mismo_programa,
    sin_identificadores_reservados, tipos_de, token_de_nombre, token_de_operador, token_de_tipo,
    token_de_unario, tras,
};
use crate::lexer::{
    es_continuacion, es_digito, es_inicial, escape, fin_de_digitos, fin_de_nombre,
    lema_fin_de_digitos, lema_saltar, leer_texto, palabra, saltar, token_en, tokens_de,
    tokens_desde, valor_de_digitos, vista_tokens, Cursor, ErrorLexicoV, TipoToken, TipoTokenV,
    TokenV,
};
use crate::parser::{
    argumentos_v, bien_formados, binaria_resto_v, binaria_v, bloque_v, consumir_v, declaracion_v,
    declaraciones_v, en_fin, entre_llaves_v, escena_v, expresion_v, funcion_v, hay,
    lema_expresion_avanza, lema_llaves_avanzan, lema_operando_avanza, lema_rango_avanza,
    lema_sentencia_avanza, lista_de_parametros_v, llamada_v, nombre_de_token, nombre_v,
    operador_de, operador_unario_de, operando_v, parametros_v, primario_v, programa_de, rango_v,
    restantes, sentencia_de_nombre_v, sentencia_mientras_v, sentencia_para_v, sentencia_si_v,
    sentencia_v, sentencia_var_v, tipo_de_retorno_v, tipo_v, unario_v, Esperado,
};
use crate::texto::{agregar_caracter, agregar_entero, agregar_texto, digito, digitos, texto_entero};

verus! {

/// Whether `w` has the shape of a word: a letter or `_`, then letters, digits and `_`.
pub open spec fn es_palabra(w: Seq<char>) -> bool {
    &&& w.len() > 0
    &&& es_inicial(w[0])
    &&& forall|i: int| 0 <= i < w.len() ==> es_continuacion(#[trigger] w[i])
}

/// Whether `x` can be written as an identifier: it has the shape of a word
/// and is no reserved word.
pub open spec fn es_nombre(x: Seq<char>) -> bool {
    es_palabra(x) && palabra(x) == TipoTokenV::Identificador(x)
}

/// Whether every character of `d` is a digit.
pub open spec fn son_digitos(d: Seq<char>) -> bool {
    forall|i: int| 0 <= i < d.len() ==> es_digito(#[trigger] d[i])
}

/// Whether `d` has the shape of a decimal literal: digits, a point, digits.
pub open spec fn es_decimal(d: Seq<char>) -> bool {
    exists|k: int|
        0 < k < d.len() - 1 && #[trigger] d[k] == '.' && son_digitos(d.subrange(0, k)) && son_digitos(
            d.subrange(k + 1, d.len() as int),
        )
}

/// The text of a string value with `"` and `\` escaped.
pub open spec fn escapado(v: Seq<char>) -> Seq<char>
    decreases v.len(),
{
    if v.len() == 0 {
        Seq::empty()
    } else {
        (if v[0] == '"' || v[0] == '\\' {
            seq!['\\', v[0]]
        } else {
            seq![v[0]]
        }) + escapado(v.drop_first())
    }
}

/// Whether a token of kind `z` can be written as text that the lexer reads
/// back as `z`: every kind but the end marker and the line break, where an
/// integer is not negative, a decimal has the shape of one and an identifier
/// that of a name.
pub open spec fn escribible(z: TipoTokenV) -> bool {
    match z {
        TipoTokenV::Numero(n) => n >= 0,
        TipoTokenV::Decimal(d) => es_decimal(d),
        TipoTokenV::Identificador(x) => es_nombre(x),
        TipoTokenV::Eof => false,
        TipoTokenV::NuevaLinea => false,
        _ => true,
    }
}

/// The text that writes a token.
pub open spec fn texto_de_token(z: TipoTokenV) -> Seq<char> {
    match z {
        TipoTokenV::Escena => "escena"@,
        TipoTokenV::Mostrar => "mostrar"@,
        TipoTokenV::Var => "var"@,
        TipoTokenV::Constante => "constante"@,
        TipoTokenV::Si => "si"@,
        TipoTokenV::Sino => "sino"@,
        TipoTokenV::Mientras => "mientras"@,
        TipoTokenV::Para => "para"@,
        TipoTokenV::Funcion => "funcion"@,
        TipoTokenV::Retornar => "retornar"@,
        TipoTokenV::Verdadero => "verdadero"@,
        TipoTokenV::Falso => "falso"@,
        TipoTokenV::Cada => "cada"@,
        TipoTokenV::Frame => "frame"@,
        TipoTokenV::Cuando => "cuando"@,
        TipoTokenV::Y => "y"@,
        TipoTokenV::O => "o"@,
        TipoTokenV::No => "no"@,
        TipoTokenV::TipoNumero => "numero"@,
        TipoTokenV::TipoDecimal => "decimal"@,
        TipoTokenV::TipoTexto => "texto"@,
        TipoTokenV::TipoBooleano => "booleano"@,
        TipoTokenV::TipoVector3 => "vector3"@,
        TipoTokenV::TipoPose => "pose"@,
        TipoTokenV::TipoMano => "mano"@,
        TipoTokenV::TipoControlador => "controlador"@,
        TipoTokenV::Suma => seq!['+'],
        TipoTokenV::Resta => seq!['-'],
        TipoTokenV::Multiplicacion => seq!['*'],
        TipoTokenV::Division => seq!['/'],
        TipoTokenV::Modulo => seq!['%'],
        TipoTokenV::Asignacion => seq!['='],
        TipoTokenV::Igual => seq!['=', '='],
        TipoTokenV::Diferente => seq!['!', '='],
        TipoTokenV::Menor => seq!['<'],
        TipoTokenV::MenorIgual => seq!['<', '='],
        TipoTokenV::Mayor => seq!['>'],
        TipoTokenV::MayorIgual => seq!['>', '='],
        TipoTokenV::ParentesisAbre => seq!['('],
        TipoTokenV::ParentesisCierra => seq![')'],
        TipoTokenV::LlaveAbre => seq!['{'],
        TipoTokenV::LlaveCierra => seq!['}'],
        TipoTokenV::Coma => seq![','],
        TipoTokenV::DosPuntos => seq![':'],
        TipoTokenV::Punto => seq!['.'],
        TipoTokenV::Numero(n) => texto_entero(n as int),
        TipoTokenV::Decimal(d) => d,
        TipoTokenV::Texto(v) => seq!['"'] + escapado(v) + seq!['"'],
        TipoTokenV::Identificador(x) => x,
        TipoTokenV::NuevaLinea => Seq::empty(),
        TipoTokenV::Eof => Seq::empty(),
    }
}

/// The reserved words are words, and each is read as its own kind.
pub proof fn lema_palabras_reservadas()
    ensures
        es_palabra("escena"@) && palabra("escena"@) == TipoTokenV::Escena,
        es_palabra("mostrar"@) && palabra("mostrar"@) == TipoTokenV::Mostrar,
        es_palabra("var"@) && palabra("var"@) == TipoTokenV::Var,
        es_palabra("constante"@) && palabra("constante"@) == TipoTokenV::Constante,
        es_palabra("si"@) && palabra("si"@) == TipoTokenV::Si,
        es_palabra("sino"@) && palabra("sino"@) == TipoTokenV::Sino,
        es_palabra("mientras"@) && palabra("mientras"@) == TipoTokenV::Mientras,
        es_palabra("para"@) && palabra("para"@) == TipoTokenV::Para,
        es_palabra("funcion"@) && palabra("funcion"@) == TipoTokenV::Funcion,
        es_palabra("retornar"@) && palabra("retornar"@) == TipoTokenV::Retornar,
        es_palabra("verdadero"@) && palabra("verdadero"@) == TipoTokenV::Verdadero,
        es_palabra("falso"@) && palabra("falso"@) == TipoTokenV::Falso,
        es_palabra("cada"@) && palabra("cada"@) == TipoTokenV::Cada,
        es_palabra("frame"@) && palabra("frame"@) == TipoTokenV::Frame,
        es_palabra("cuando"@) && palabra("cuando"@) == TipoTokenV::Cuando,
        es_palabra("y"@) && palabra("y"@) == TipoTokenV::Y,
        es_palabra("o"@) && palabra("o"@) == TipoTokenV::O,
        es_palabra("no"@) && palabra("no"@) == TipoTokenV::No,
        es_palabra("numero"@) && palabra("numero"@) == TipoTokenV::TipoNumero,
        es_palabra("decimal"@) && palabra("decimal"@) == TipoTokenV::TipoDecimal,
        es_palabra("texto"@) && palabra("texto"@) == TipoTokenV::TipoTexto,
        es_palabra("booleano"@) && palabra("booleano"@) == TipoTokenV::TipoBooleano,
        es_palabra("vector3"@) && palabra("vector3"@) == TipoTokenV::TipoVector3,
        es_palabra("pose"@) && palabra("pose"@) == TipoTokenV::TipoPose,
        es_palabra("mano"@) && palabra("mano"@) == TipoTokenV::TipoMano,
        es_palabra("controlador"@) && palabra("controlador"@) == TipoTokenV::TipoControlador,
{
    reveal_strlit("escena");
    reveal_strlit("mostrar");
    reveal_strlit("var");
    reveal_strlit("constante");
    reveal_strlit("si");
    reveal_strlit("sino");
    reveal_strlit("mientras");
    reveal_strlit("para");
    reveal_strlit("funcion");
    reveal_strlit("retornar");
    reveal_strlit("verdadero");
    reveal_strlit("falso");
    reveal_strlit("cada");
    reveal_strlit("frame");
    reveal_strlit("cuando");
    reveal_strlit("y");
    reveal_strlit("o");
    reveal_strlit("no");
    reveal_strlit("numero");
    reveal_strlit("decimal");
    reveal_strlit("texto");
    reveal_strlit("booleano");
    reveal_strlit("vector3");
    reveal_strlit("pose");
    reveal_strlit("mano");
    reveal_strlit("controlador");
    assert("para"@[0] != "sino"@[0]);
    assert("funcion"@[0] != "mostrar"@[0]);
    assert("retornar"@[0] != "mientras"@[0]);
    assert("verdadero"@[0] != "constante"@[0]);
    assert("cada"@[0] != "sino"@[0]);
    assert("cada"@[0] != "para"@[0]);
    assert("frame"@[1] != "falso"@[1]);
    assert("cuando"@[0] != "escena"@[0]);
    assert("o"@[0] != "y"@[0]);
    assert("no"@[0] != "si"@[0]);
    assert("numero"@[0] != "escena"@[0]);
    assert("numero"@[0] != "cuando"@[0]);
    assert("decimal"@[0] != "mostrar"@[0]);
    assert("decimal"@[0] != "funcion"@[0]);
    assert("texto"@[0] != "falso"@[0]);
    assert("texto"@[0] != "frame"@[0]);
    assert("booleano"@[0] != "mientras"@[0]);
    assert("booleano"@[0] != "retornar"@[0]);
    assert("vector3"@[0] != "mostrar"@[0]);
    assert("vector3"@[0] != "funcion"@[0]);
    assert("vector3"@[0] != "decimal"@[0]);
    assert("pose"@[0] != "sino"@[0]);
    assert("pose"@[1] != "para"@[1]);
    assert("pose"@[0] != "cada"@[0]);
    assert("mano"@[0] != "sino"@[0]);
    assert("mano"@[0] != "para"@[0]);
    assert("mano"@[0] != "cada"@[0]);
    assert("mano"@[0] != "pose"@[0]);
}

/// Whether, in `s` from index `j` on, the characters `x` stand and a blank after them.
pub open spec fn sigue(s: Seq<char>, j: int, x: Seq<char>) -> bool {
    &&& 0 <= j
    &&& j + x.len() < s.len()
    &&& forall|k: int| 0 <= k < x.len() ==> s[j + k] == #[trigger] x[k]
    &&& s[j + x.len()] == ' '
}

/// Whether the outcome `r` of reading a token at `c` is a token of kind `z`
/// that is `n` characters long.
pub open spec fn da_token(r: Result<(TokenV, Cursor), ErrorLexicoV>, c: Cursor, z: TipoTokenV, n: int) -> bool {
    match r {
        Ok((t, d)) => t.tipo == z && t.pos == c.pos() && d == c.mover(n),
        Err(_) => false,
    }
}

/// A run of characters that can continue a name, before one that cannot, is
/// where a name ends.
pub proof fn lema_fin_de_nombre_exacto(s: Seq<char>, j: int, n: int)
    requires
        0 <= j,
        0 <= n,
        j + n < s.len(),
        forall|k: int| j <= k < j + n ==> es_continuacion(#[trigger] s[k]),
        !es_continuacion(s[j + n]),
    ensures
        fin_de_nombre(s, j) == j + n,
    decreases n,
{
    if n > 0 {
        assert(es_continuacion(s[j]));
        lema_fin_de_nombre_exacto(s, j + 1, n - 1);
    }
}

/// A run of digits, before a character that is none, is where the digits end.
pub proof fn lema_fin_de_digitos_exacto(s: Seq<char>, j: int, n: int)
    requires
        0 <= j,
        0 <= n,
        j + n < s.len(),
        forall|k: int| j <= k < j + n ==> es_digito(#[trigger] s[k]),
        !es_digito(s[j + n]),
    ensures
        fin_de_digitos(s, j) == j + n,
    decreases n,
{
    if n > 0 {
        assert(es_digito(s[j]));
        lema_fin_de_digitos_exacto(s, j + 1, n - 1);
    }
}

/// A word that is written is read as the kind that the word is.
pub proof fn lema_lee_palabra(s: Seq<char>, c: Cursor, w: Seq<char>)
    requires
        es_palabra(w),
        sigue(s, c.indice, w),
    ensures
        saltar(s, c) == c,
        da_token(token_en(s, c), c, palabra(w), w.len() as int),
{
    let j = c.indice;
    assert(s[j + 0] == w[0]);
    assert forall|k: int| j <= k < j + w.len() implies es_continuacion(#[trigger] s[k]) by {
        assert(s[j + (k - j)] == w[k - j]);
    }
    lema_fin_de_nombre_exacto(s, j, w.len() as int);
    assert(s.subrange(j, j + w.len()) =~= w);
}

/// The digits of a number are digits, and write the number.
pub proof fn lema_digitos(n: nat)
    ensures
        digitos(n).len() > 0,
        son_digitos(digitos(n)),
        valor_de_digitos(digitos(n)) == n,
    decreases n,
{
    if n >= 10 {
        lema_digitos(n / 10);
        let d = digitos(n / 10);
        let c = digito((n % 10) as int);
        assert(digitos(n) == d.push(c));
        assert(d.push(c).drop_last() =~= d);
        assert(d.push(c).last() == c);
        assert(c as int - '0' as int == n % 10);
        assert(valor_de_digitos(d.push(c)) == valor_de_digitos(d) * 10 + (n % 10));
        assert(es_digito(c));
        assert forall|i: int| 0 <= i < d.push(c).len() implies es_digito(#[trigger] d.push(c)[i]) by {
            if i < d.len() {
                assert(d.push(c)[i] == d[i]);
            }
        }
    } else {
        let c = digito(n as int);
        assert(digitos(n) == seq![c]);
        assert(seq![c].drop_last() =~= Seq::<char>::empty());
        assert(seq![c].last() == c);
        assert(c as int - '0' as int == n);
        assert(valor_de_digitos(Seq::<char>::empty()) == 0);
        assert(valor_de_digitos(seq![c]) == 0 * 10 + n);
        assert(es_digito(c));
    }
}

/// An integer that is not negative and is written is read as itself.
pub proof fn lema_lee_numero(s: Seq<char>, c: Cursor, n: i64)
    requires
        n >= 0,
        sigue(s, c.indice, texto_entero(n as int)),
    ensures
        saltar(s, c) == c,
        da_token(token_en(s, c), c, TipoTokenV::Numero(n), texto_entero(n as int).len() as int),
{
    let j = c.indice;
    let d = digitos(n as nat);
    lema_digitos(n as nat);
    assert(s[j + 0] == d[0]);
    assert forall|k: int| j <= k < j + d.len() implies es_digito(#[trigger] s[k]) by {
        assert(s[j + (k - j)] == d[k - j]);
    }
    lema_fin_de_digitos_exacto(s, j, d.len() as int);
    assert(s.subrange(j, j + d.len()) =~= d);
}

/// A decimal literal that is written is read as itself.
pub proof fn lema_lee_decimal(s: Seq<char>, c: Cursor, d: Seq<char>)
    requires
        es_decimal(d),
        sigue(s, c.indice, d),
    ensures
        saltar(s, c) == c,
        da_token(token_en(s, c), c, TipoTokenV::Decimal(d), d.len() as int),
{
    let j = c.indice;
    let k = choose|k: int|
        0 < k < d.len() - 1 && #[trigger] d[k] == '.' && son_digitos(d.subrange(0, k)) && son_digitos(
            d.subrange(k + 1, d.len() as int),
        );
    let a = d.subrange(0, k);
    let b = d.subrange(k + 1, d.len() as int);
    assert(es_digito(a[0]));
    assert(s[j + 0] == d[0]);
    assert forall|i: int| j <= i < j + k implies es_digito(#[trigger] s[i]) by {
        assert(s[j + (i - j)] == d[i - j]);
        assert(a[i - j] == d[i - j]);
    }
    assert(s[j + k] == d[k]);
    lema_fin_de_digitos_exacto(s, j, k);
    assert(es_digito(b[0]));
    assert(s[j + (k + 1)] == d[k + 1]);
    assert(b[0] == d[k + 1]);
    assert forall|i: int| j + k + 1 <= i < j + d.len() implies es_digito(#[trigger] s[i]) by {
        assert(s[j + (i - j)] == d[i - j]);
        assert(b[i - j - k - 1] == d[i - j]);
    }
    lema_fin_de_digitos_exacto(s, j + k + 1, d.len() - k - 1);
    assert(s.subrange(j, j + d.len()) =~= d);
}

/// The escaped text of a string value, before a `"`, is read as the value.
pub proof fn lema_lee_escapado(s: Seq<char>, i: int, v: Seq<char>, acc: Seq<char>)
    requires
        0 <= i,
        i + escapado(v).len() < s.len(),
        forall|k: int| 0 <= k < escapado(v).len() ==> s[i + k] == #[trigger] escapado(v)[k],
        s[i + escapado(v).len()] == '"',
    ensures
        leer_texto(s, i, acc) == Some((acc + v, i + escapado(v).len() + 1)),
    decreases v.len(),
{
    if v.len() == 0 {
        assert(acc + v =~= acc);
    } else {
        let resto = v.drop_first();
        let cabeza = if v[0] == '"' || v[0] == '\\' {
            seq!['\\', v[0]]
        } else {
            seq![v[0]]
        };
        let e = escapado(v);
        assert(e == cabeza + escapado(resto));
        assert forall|k: int| 0 <= k < escapado(resto).len() implies s[i + cabeza.len() + k]
            == #[trigger] escapado(resto)[k] by {
            assert(s[i + (cabeza.len() + k)] == e[cabeza.len() + k]);
        }
        assert(s[i + 0] == e[0]);
        if v[0] == '"' || v[0] == '\\' {
            assert(s[i + 1] == e[1]);
            assert(escape(v[0]) == seq![v[0]]);
            lema_lee_escapado(s, i + 2, resto, acc + seq![v[0]]);
            assert(acc + seq![v[0]] + resto =~= acc + v);
        } else {
            lema_lee_escapado(s, i + 1, resto, acc.push(v[0]));
            assert(acc.push(v[0]) + resto =~= acc + v);
        }
    }
}

/// A string literal that is written is read as its value.
pub proof fn lema_lee_cadena(s: Seq<char>, c: Cursor, v: Seq<char>)
    requires
        sigue(s, c.indice, seq!['"'] + escapado(v) + seq!['"']),
    ensures
        saltar(s, c) == c,
        da_token(token_en(s, c), c, TipoTokenV::Texto(v), (escapado(v).len() + 2) as int),
{
    let j = c.indice;
    let x = seq!['"'] + escapado(v) + seq!['"'];
    assert(s[j + 0] == x[0]);
    assert forall|k: int| 0 <= k < escapado(v).len() implies s[j + 1 + k] == #[trigger] escapado(
        v,
    )[k] by {
        assert(s[j + (1 + k)] == x[1 + k]);
    }
    assert(s[j + (1 + escapado(v).len())] == x[(1 + escapado(v).len()) as int]);
    lema_lee_escapado(s, j + 1, v, Seq::empty());
    assert(Seq::<char>::empty() + v =~= v);
}

/// Whether a kind is written with punctuation.
pub open spec fn es_signo(z: TipoTokenV) -> bool {
    z is Suma || z is Resta || z is Multiplicacion || z is Division || z is Modulo || z is Asignacion
        || z is Igual || z is Diferente || z is Menor || z is MenorIgual || z is Mayor
        || z is MayorIgual || z is ParentesisAbre || z is ParentesisCierra || z is LlaveAbre
        || z is LlaveCierra || z is Coma || z is DosPuntos || z is Punto
}

/// Punctuation that is written is read as its kind.
pub proof fn lema_lee_signo(s: Seq<char>, c: Cursor, z: TipoTokenV)
    requires
        es_signo(z),
        sigue(s, c.indice, texto_de_token(z)),
    ensures
        saltar(s, c) == c,
        da_token(token_en(s, c), c, z, texto_de_token(z).len() as int),
{
    let j = c.indice;
    let x = texto_de_token(z);
    assert(s[j + 0] == x[0]);
    if x.len() == 2 {
        assert(s[j + 1] == x[1]);
    }
}

/// A token that can be written, once written, is read as itself.
pub proof fn lema_lee_token(s: Seq<char>, c: Cursor, z: TipoTokenV)
    requires
        escribible(z),
        sigue(s, c.indice, texto_de_token(z)),
    ensures
        saltar(s, c) == c,
        da_token(token_en(s, c), c, z, texto_de_token(z).len() as int),
{
    lema_palabras_reservadas();
    match z {
        TipoTokenV::Numero(n) => {
            lema_lee_numero(s, c, n);
        },
        TipoTokenV::Decimal(d) => {
            lema_lee_decimal(s, c, d);
        },
        TipoTokenV::Texto(v) => {
            lema_lee_cadena(s, c, v);
        },
        TipoTokenV::Identificador(x) => {
            lema_lee_palabra(s, c, x);
        },
        _ => {
            if es_signo(z) {
                lema_lee_signo(s, c, z);
            } else {
                lema_lee_palabra(s, c, texto_de_token(z));
            }
        },
    }
}

/// The text that writes the token kinds `w[i..]`, each with a blank after it.
pub open spec fn texto_de_tipos(w: Seq<TipoTokenV>, i: int) -> Seq<char>
    decreases w.len() - i,
{
    if 0 <= i < w.len() {
        texto_de_token(w[i]) + seq![' '] + texto_de_tipos(w, i + 1)
    } else {
        Seq::empty()
    }
}

/// Whether every kind of `w` can be written.
pub open spec fn todos_escribibles(w: Seq<TipoTokenV>) -> bool {
    forall|i: int| 0 <= i < w.len() ==> escribible(#[trigger] w[i])
}

/// Lexing the text of kinds that can be written gives tokens of those kinds,
/// and the end marker after them.
pub proof fn lema_lee_texto(s: Seq<char>, c: Cursor, w: Seq<TipoTokenV>, i: int)
    requires
        todos_escribibles(w),
        0 <= i <= w.len(),
        0 <= c.indice <= s.len(),
        s.subrange(c.indice, s.len() as int) == texto_de_tipos(w, i),
    ensures
        match tokens_desde(s, c) {
            Ok(u) => tipos_de(u) == w.subrange(i, w.len() as int).push(TipoTokenV::Eof),
            Err(_) => false,
        },
    decreases w.len() - i,
{
    let j = c.indice;
    let cola = s.subrange(j, s.len() as int);
    if i == w.len() {
        assert(cola.len() == 0);
        assert(j == s.len());
        let u = tokens_desde(s, c)->Ok_0;
        assert(tipos_de(u) =~= w.subrange(i, w.len() as int).push(TipoTokenV::Eof));
    } else {
        let x = texto_de_token(w[i]);
        let resto = texto_de_tipos(w, i + 1);
        assert(cola == x + seq![' '] + resto);
        assert(cola.len() == x.len() + 1 + resto.len());
        assert forall|k: int| 0 <= k < x.len() implies s[j + k] == #[trigger] x[k] by {
            assert(cola[k] == s[j + k]);
        }
        assert(cola[x.len() as int] == s[j + x.len()]);
        assert(escribible(w[i]));
        lema_lee_token(s, c, w[i]);
        let (t, d) = token_en(s, c)->Ok_0;
        let d1 = d.mover(1);
        assert(s.subrange(d1.indice, s.len() as int) =~= resto) by {
            assert forall|k: int| 0 <= k < resto.len() implies s.subrange(
                d1.indice,
                s.len() as int,
            )[k] == resto[k] by {
                assert(cola[x.len() + 1 + k] == s[j + (x.len() + 1 + k)]);
            }
        }
        lema_lee_texto(s, d1, w, i + 1);
        assert(saltar(s, d) == saltar(s, d1));
        assert(tokens_desde(s, d) == tokens_desde(s, d1));
        let v = tokens_desde(s, d1)->Ok_0;
        assert(tokens_desde(s, c) == Ok::<Seq<TokenV>, ErrorLexicoV>(seq![t] + v));
        assert(tipos_de(seq![t] + v) =~= w.subrange(i, w.len() as int).push(TipoTokenV::Eof)) by {
            let a = tipos_de(seq![t] + v);
            let b = w.subrange(i, w.len() as int).push(TipoTokenV::Eof);
            assert(tipos_de(v) == w.subrange(i + 1, w.len() as int).push(TipoTokenV::Eof));
            assert(tipos_de(v).len() == v.len());
            assert(w.subrange(i + 1, w.len() as int).push(TipoTokenV::Eof).len() == w.len() - i);
            assert(a.len() == v.len() + 1);
            assert(b.len() == w.len() - i + 1);
            assert(a.len() == b.len());
            assert forall|k: int| 0 <= k < a.len() implies a[k] == b[k] by {
                if k > 0 {
                    assert((seq![t] + v)[k] == v[k - 1]);
                    assert(tipos_de(v)[k - 1] == v[k - 1].tipo);
                    assert(w.subrange(i + 1, w.len() as int).push(TipoTokenV::Eof)[k - 1] == b[k]);
                }
            }
        }
    }
}

/// A run of characters that can continue a name holds such characters only.
pub proof fn lema_fin_de_nombre_es_palabra(s: Seq<char>, i: int)
    requires
        0 <= i <= s.len(),
    ensures
        i <= fin_de_nombre(s, i) <= s.len(),
        forall|j: int| i <= j < fin_de_nombre(s, i) ==> es_continuacion(#[trigger] s[j]),
    decreases s.len() - i,
{
    if i < s.len() && es_continuacion(s[i]) {
        lema_fin_de_nombre_es_palabra(s, i + 1);
    }
}

/// Every token that the lexer reads can be written.
pub proof fn lema_token_leido(s: Seq<char>, c: Cursor)
    requires
        0 <= c.indice < s.len(),
    ensures
        match token_en(s, c) {
            Ok((t, _)) => escribible(t.tipo),
            Err(_) => true,
        },
{
    let i = c.indice;
    let x = s[i];
    lema_palabras_reservadas();
    if x == '"' {
    } else if es_digito(x) {
        lema_fin_de_digitos(s, i);
        let k = fin_de_digitos(s, i);
        lema_fin_de_digitos(s, i + 1);
        assert(k > i);
        if k + 1 < s.len() && s[k] == '.' && es_digito(s[k + 1]) {
            lema_fin_de_digitos(s, k + 1);
            lema_fin_de_digitos(s, k + 2);
            let m = fin_de_digitos(s, k + 1);
            assert(m > k + 1);
            let d = s.subrange(i, m);
            assert(d[k - i] == '.');
            assert(son_digitos(d.subrange(0, k - i))) by {
                assert forall|j: int| 0 <= j < k - i implies es_digito(
                    #[trigger] d.subrange(0, k - i)[j],
                ) by {
                    assert(d.subrange(0, k - i)[j] == s[i + j]);
                }
            }
            assert(son_digitos(d.subrange(k - i + 1, d.len() as int))) by {
                assert forall|j: int| 0 <= j < d.len() - (k - i + 1) implies es_digito(
                    #[trigger] d.subrange(k - i + 1, d.len() as int)[j],
                ) by {
                    assert(d.subrange(k - i + 1, d.len() as int)[j] == s[k + 1 + j]);
                }
            }
            assert(es_decimal(d));
        }
    } else if es_inicial(x) {
        lema_fin_de_nombre_es_palabra(s, i);
        lema_fin_de_nombre_es_palabra(s, i + 1);
        let k = fin_de_nombre(s, i);
        assert(k > i);
        let w = s.subrange(i, k);
        assert(w[0] == x);
        assert forall|j: int| 0 <= j < w.len() implies es_continuacion(#[trigger] w[j]) by {
            assert(w[j] == s[i + j]);
        }
        assert(es_palabra(w));
    } else {
    }
}

/// Whether every token of the stream but the end marker can be written.
pub open spec fn tokens_escribibles(t: Seq<TokenV>) -> bool {
    forall|k: int| 0 <= k < t.len() ==> (#[trigger] t[k]).tipo is Eof || escribible(t[k].tipo)
}

/// Every token that lexing produces, but the end marker, can be written.
pub proof fn lema_tokens_leidos(s: Seq<char>, c: Cursor)
    ensures
        match tokens_desde(s, c) {
            Ok(t) => tokens_escribibles(t),
            Err(_) => true,
        },
    decreases s.len() - c.indice,
{
    if 0 <= c.indice <= s.len() {
        let d = saltar(s, c);
        lema_saltar(s, c);
        if d.indice < s.len() {
            lema_token_leido(s, d);
            crate::lexer::lema_token_en(s, d);
            match token_en(s, d) {
                Ok((t, e)) => {
                    lema_tokens_leidos(s, e);
                    match tokens_desde(s, e) {
                        Ok(resto) => {
                            let r = seq![t] + resto;
                            assert forall|k: int| 0 <= k < r.len() implies (#[trigger] r[k]).tipo is Eof
                                || escribible(r[k].tipo) by {
                                if k > 0 {
                                    assert(r[k] == resto[k - 1]);
                                }
                            }
                        },
                        Err(_) => {},
                    }
                },
                Err(_) => {},
            }
        }
    }
}


/// Two runs of kinds that can be written make one that can.
pub proof fn lema_escribibles_seguidos(a: Seq<TipoTokenV>, b: Seq<TipoTokenV>)
    requires
        todos_escribibles(a),
        todos_escribibles(b),
    ensures
        todos_escribibles(a + b),
{
    assert forall|i: int| 0 <= i < (a + b).len() implies escribible(#[trigger] (a + b)[i]) by {
        if i < a.len() {
            assert((a + b)[i] == a[i]);
        } else {
            assert((a + b)[i] == b[i - a.len()]);
        }
    }
}

/// One kind that can be written makes a run that can.
pub proof fn lema_escribible_solo(z: TipoTokenV)
    requires
        escribible(z),
    ensures
        todos_escribibles(seq![z]),
{
}

/// Kinds that can be written, put between parentheses, can be written.
pub proof fn lema_escribibles_entre_parentesis(w: Seq<TipoTokenV>)
    requires
        todos_escribibles(w),
    ensures
        todos_escribibles(entre_parentesis(w)),
{
    lema_escribible_solo(TipoTokenV::ParentesisAbre);
    lema_escribible_solo(TipoTokenV::ParentesisCierra);
    lema_escribibles_seguidos(seq![TipoTokenV::ParentesisAbre], w);
    lema_escribibles_seguidos(seq![TipoTokenV::ParentesisAbre] + w, seq![TipoTokenV::ParentesisCierra]);
}

/// Kinds that can be written, put between braces, can be written.
pub proof fn lema_escribibles_en_llaves(w: Seq<TipoTokenV>)
    requires
        todos_escribibles(w),
    ensures
        todos_escribibles(en_llaves(w)),
{
    lema_escribible_solo(TipoTokenV::LlaveAbre);
    lema_escribible_solo(TipoTokenV::LlaveCierra);
    lema_escribibles_seguidos(seq![TipoTokenV::LlaveAbre], w);
    lema_escribibles_seguidos(seq![TipoTokenV::LlaveAbre] + w, seq![TipoTokenV::LlaveCierra]);
}

/// Two runs of kinds that can be written, with such a kind between them, can be written.
pub proof fn lema_escribibles_juntos(a: Seq<TipoTokenV>, z: TipoTokenV, b: Seq<TipoTokenV>)
    requires
        todos_escribibles(a),
        escribible(z),
        todos_escribibles(b),
    ensures
        todos_escribibles(junto(a, z, b)),
{
    lema_escribible_solo(z);
    lema_escribibles_seguidos(a, seq![z]);
    lema_escribibles_seguidos(a + seq![z], b);
}

/// A kind that can be written, before a run of kinds that can, can be written.
pub proof fn lema_escribibles_tras(z: TipoTokenV, w: Seq<TipoTokenV>)
    requires
        escribible(z),
        todos_escribibles(w),
    ensures
        todos_escribibles(tras(z, w)),
{
    lema_escribible_solo(z);
    lema_escribibles_seguidos(seq![z], w);
}

/// The name that a token that can be written spells can be written.
pub proof fn lema_nombre_escribible(z: TipoTokenV)
    requires
        escribible(z),
        nombre_de_token(z) is Some,
    ensures
        escribible(token_de_nombre(nombre_de_token(z)->Some_0)),
{
    lema_palabras_reservadas();
}

/// Tokens that can be written hold no identifier named `y` or `o`.
pub proof fn lema_sin_identificadores_reservados(t: Seq<TokenV>)
    requires
        tokens_escribibles(t),
    ensures
        sin_identificadores_reservados(t),
{
    lema_palabras_reservadas();
    assert forall|k: int| 0 <= k < t.len() implies (#[trigger] t[k]).tipo != TipoTokenV::Identificador(
        "y"@,
    ) && t[k].tipo != TipoTokenV::Identificador("o"@) by {
        assert(t[k].tipo is Eof || escribible(t[k].tipo));
    }
}

/// Whether the tokens are well formed and every one of them but the end
/// marker can be written.
pub open spec fn tokens_legibles(t: Seq<TokenV>) -> bool {
    bien_formados(t) && tokens_escribibles(t)
}

/// The writing of an expression that was read from tokens that can be
/// written can be written.
pub proof fn lema_expresion_escribible(t: Seq<TokenV>, p: int)
    requires
        tokens_legibles(t),
        0 <= p < t.len(),
    ensures
        match expresion_v(t, p) {
            Ok((e, _)) => todos_escribibles(formato_expresion(e)),
            Err(_) => true,
        },
    decreases restantes(t, p), 21nat,
{
    lema_binaria_escribible(t, p, 0);
}

/// As [`lema_expresion_escribible`], of a primary expression.
pub proof fn lema_primario_escribible(t: Seq<TokenV>, p: int)
    requires
        tokens_legibles(t),
        0 <= p < t.len(),
    ensures
        match primario_v(t, p) {
            Ok((e, _)) => todos_escribibles(formato_expresion(e)),
            Err(_) => true,
        },
    decreases restantes(t, p), 0nat,
{
    assert(t[p].tipo is Eof || escribible(t[p].tipo));
    match t[p].tipo {
        TipoTokenV::Numero(n) => {
            lema_escribible_solo(TipoTokenV::Numero(n));
        },
        TipoTokenV::Decimal(d) => {
            lema_escribible_solo(TipoTokenV::Decimal(d));
        },
        TipoTokenV::Texto(v) => {
            lema_escribible_solo(TipoTokenV::Texto(v));
        },
        TipoTokenV::Verdadero => {
            lema_escribible_solo(TipoTokenV::Verdadero);
        },
        TipoTokenV::Falso => {
            lema_escribible_solo(TipoTokenV::Falso);
        },
        TipoTokenV::Identificador(id) => {
            lema_nombre_escribible(t[p].tipo);
            lema_escribible_solo(token_de_nombre(id));
            lema_escribibles_entre_parentesis(seq![token_de_nombre(id)]);
        },
        TipoTokenV::Y => {
            lema_nombre_escribible(t[p].tipo);
            lema_escribible_solo(token_de_nombre("y"@));
            lema_escribibles_entre_parentesis(seq![token_de_nombre("y"@)]);
        },
        TipoTokenV::O => {
            lema_nombre_escribible(t[p].tipo);
            lema_escribible_solo(token_de_nombre("o"@));
            lema_escribibles_entre_parentesis(seq![token_de_nombre("o"@)]);
        },
        TipoTokenV::ParentesisAbre => {
            lema_expresion_escribible(t, p + 1);
        },
        _ => {},
    }
}

/// As [`lema_expresion_escribible`], of the arguments of a call.
pub proof fn lema_argumentos_escribibles(t: Seq<TokenV>, p: int, acc: Seq<ExpresionV>)
    requires
        tokens_legibles(t),
        0 <= p < t.len(),
        forall|j: int| 0 <= j < acc.len() ==> todos_escribibles(formato_expresion(#[trigger] acc[j])),
    ensures
        match argumentos_v(t, p, acc) {
            Ok((xs, _)) => forall|j: int|
                0 <= j < xs.len() ==> todos_escribibles(formato_expresion(#[trigger] xs[j])),
            Err(_) => true,
        },
    decreases restantes(t, p), 22nat,
{
    lema_expresion_escribible(t, p);
    lema_expresion_avanza(t, p);
    match expresion_v(t, p) {
        Ok((e, q)) => {
            assert forall|j: int| 0 <= j < acc.push(e).len() implies todos_escribibles(
                formato_expresion(#[trigger] acc.push(e)[j]),
            ) by {
                if j < acc.len() {
                    assert(acc.push(e)[j] == acc[j]);
                }
            }
            if hay(t, q, TipoTokenV::Coma) {
                lema_argumentos_escribibles(t, q + 1, acc.push(e));
            }
        },
        Err(_) => {},
    }
}

/// The writing of arguments that can each be written can be written.
pub proof fn lema_formato_de_argumentos_escribible(args: Seq<ExpresionV>, i: int)
    requires
        forall|j: int| 0 <= j < args.len() ==> todos_escribibles(formato_expresion(#[trigger] args[j])),
    ensures
        todos_escribibles(formato_argumentos(args, i)),
    decreases args.len() - i,
{
    if 0 <= i < args.len() {
        if i + 1 < args.len() {
            lema_formato_de_argumentos_escribible(args, i + 1);
            lema_escribibles_juntos(
                formato_expresion(args[i]),
                TipoTokenV::Coma,
                formato_argumentos(args, i + 1),
            );
        }
    }
}

/// As [`lema_expresion_escribible`], of a call or primary expression.
pub proof fn lema_llamada_escribible(t: Seq<TokenV>, p: int)
    requires
        tokens_legibles(t),
        0 <= p < t.len(),
    ensures
        match llamada_v(t, p) {
            Ok((e, _)) => todos_escribibles(formato_expresion(e)),
            Err(_) => true,
        },
    decreases restantes(t, p), 1nat,
{
    assert(t[p].tipo is Eof || escribible(t[p].tipo));
    match nombre_de_token(t[p].tipo) {
        Some(id) => {
            lema_nombre_escribible(t[p].tipo);
            let z = token_de_nombre(id);
            if hay(t, p + 1, TipoTokenV::ParentesisAbre) {
                if hay(t, p + 2, TipoTokenV::ParentesisCierra) {
                    lema_escribibles_entre_parentesis(Seq::empty());
                    lema_escribibles_tras(z, entre_parentesis(Seq::empty()));
                    assert(formato_argumentos(Seq::empty(), 0) =~= Seq::empty());
                } else {
                    lema_argumentos_escribibles(t, p + 2, Seq::empty());
                    match argumentos_v(t, p + 2, Seq::empty()) {
                        Ok((args, q)) => {
                            lema_formato_de_argumentos_escribible(args, 0);
                            lema_escribibles_entre_parentesis(formato_argumentos(args, 0));
                            lema_escribibles_tras(z, entre_parentesis(formato_argumentos(args, 0)));
                        },
                        Err(_) => {},
                    }
                }
            } else {
                lema_escribible_solo(z);
                lema_escribibles_entre_parentesis(seq![z]);
            }
        },
        None => {
            lema_primario_escribible(t, p);
        },
    }
}

/// As [`lema_expresion_escribible`], of a unary expression.
pub proof fn lema_unario_escribible(t: Seq<TokenV>, p: int)
    requires
        tokens_legibles(t),
        0 <= p < t.len(),
    ensures
        match unario_v(t, p) {
            Ok((e, _)) => todos_escribibles(formato_expresion(e)),
            Err(_) => true,
        },
    decreases restantes(t, p), 2nat,
{
    match operador_unario_de(t[p].tipo) {
        Some(op) => {
            lema_unario_escribible(t, p + 1);
            match unario_v(t, p + 1) {
                Ok((e, q)) => {
                    lema_escribibles_tras(token_de_unario(op), formato_expresion(e));
                    lema_escribibles_entre_parentesis(tras(token_de_unario(op), formato_expresion(e)));
                },
                Err(_) => {},
            }
        },
        None => {
            lema_llamada_escribible(t, p);
        },
    }
}

/// As [`lema_expresion_escribible`], of an operand of the level `nivel`.
pub proof fn lema_operando_escribible(t: Seq<TokenV>, p: int, nivel: nat)
    requires
        tokens_legibles(t),
        0 <= p < t.len(),
    ensures
        match operando_v(t, p, nivel) {
            Ok((e, _)) => todos_escribibles(formato_expresion(e)),
            Err(_) => true,
        },
    decreases restantes(t, p), (if nivel <= 5 { 19 - 2 * nivel } else { 3 }) as nat,
{
    if nivel < 5 {
        lema_binaria_escribible(t, p, nivel + 1);
    } else {
        lema_unario_escribible(t, p);
    }
}

/// As [`lema_expresion_escribible`], of an expression of the level `nivel`.
pub proof fn lema_binaria_escribible(t: Seq<TokenV>, p: int, nivel: nat)
    requires
        tokens_legibles(t),
        0 <= p < t.len(),
    ensures
        match binaria_v(t, p, nivel) {
            Ok((e, _)) => todos_escribibles(formato_expresion(e)),
            Err(_) => true,
        },
    decreases restantes(t, p), (if nivel <= 5 { 20 - 2 * nivel } else { 4 }) as nat,
{
    lema_operando_escribible(t, p, nivel);
    lema_operando_avanza(t, p, nivel);
    match operando_v(t, p, nivel) {
        Ok((izq, q)) => {
            lema_resto_escribible(t, q, nivel, izq);
        },
        Err(_) => {},
    }
}

/// As [`lema_expresion_escribible`], of the continuation of an expression whose
/// left part can be written.
pub proof fn lema_resto_escribible(t: Seq<TokenV>, p: int, nivel: nat, izq: ExpresionV)
    requires
        tokens_legibles(t),
        0 <= p < t.len(),
        todos_escribibles(formato_expresion(izq)),
    ensures
        match binaria_resto_v(t, p, nivel, izq) {
            Ok((e, _)) => todos_escribibles(formato_expresion(e)),
            Err(_) => true,
        },
    decreases restantes(t, p), 10nat,
{
    match operador_de(nivel, t[p].tipo) {
        Some(op) => {
            lema_operando_escribible(t, p + 1, nivel);
            lema_operando_avanza(t, p + 1, nivel);
            match operando_v(t, p + 1, nivel) {
                Ok((der, q)) => {
                    let junta = ExpresionV::Binaria(Box::new(izq), op, Box::new(der), t[p].pos);
                    lema_escribibles_juntos(
                        formato_expresion(izq),
                        token_de_operador(op),
                        formato_expresion(der),
                    );
                    lema_escribibles_entre_parentesis(
                        junto(formato_expresion(izq), token_de_operador(op), formato_expresion(der)),
                    );
                    lema_resto_escribible(t, q, nivel, junta);
                },
                Err(_) => {},
            }
        },
        None => {},
    }
}


/// Whether the writing of every statement of the block can be written.
pub open spec fn sentencias_escribibles(b: Seq<SentenciaV>) -> bool {
    forall|j: int| 0 <= j < b.len() ==> todos_escribibles(formato_sentencia(#[trigger] b[j]))
}

/// The writing of a block whose statements can each be written can be written.
pub proof fn lema_formato_de_bloque_escribible(b: Seq<SentenciaV>, i: int)
    requires
        sentencias_escribibles(b),
    ensures
        todos_escribibles(formato_bloque(b, i)),
    decreases b.len() - i,
{
    if 0 <= i < b.len() {
        lema_formato_de_bloque_escribible(b, i + 1);
        lema_escribibles_seguidos(formato_sentencia(b[i]), formato_bloque(b, i + 1));
    }
}

/// The writing of a statement that was read from tokens that can be written
/// can be written.
pub proof fn lema_sentencia_escribible(t: Seq<TokenV>, p: int)
    requires
        tokens_legibles(t),
        0 <= p < t.len(),
    ensures
        match sentencia_v(t, p) {
            Ok((s, _)) => todos_escribibles(formato_sentencia(s)),
            Err(_) => true,
        },
    decreases restantes(t, p), 40nat,
{
    assert(t[p].tipo is Eof || escribible(t[p].tipo));
    match t[p].tipo {
        TipoTokenV::Mostrar => {
            lema_expresion_escribible(t, p + 1);
            match expresion_v(t, p + 1) {
                Ok((e, _)) => {
                    lema_escribibles_tras(TipoTokenV::Mostrar, formato_expresion(e));
                },
                Err(_) => {},
            }
        },
        TipoTokenV::Var => {
            lema_var_escribible(t, p);
        },
        TipoTokenV::Si => {
            lema_si_escribible(t, p);
        },
        TipoTokenV::Mientras => {
            lema_mientras_escribible(t, p);
        },
        TipoTokenV::Para => {
            lema_para_escribible(t, p);
        },
        TipoTokenV::Retornar => {
            lema_escribible_solo(TipoTokenV::Retornar);
            if !hay(t, p + 1, TipoTokenV::LlaveCierra) {
                lema_expresion_escribible(t, p + 1);
                match expresion_v(t, p + 1) {
                    Ok((e, _)) => {
                        lema_escribibles_tras(TipoTokenV::Retornar, formato_expresion(e));
                    },
                    Err(_) => {},
                }
            }
        },
        TipoTokenV::Identificador(id) => {
            lema_de_nombre_escribible(t, p, id);
        },
        TipoTokenV::Y => {
            lema_de_nombre_escribible(t, p, "y"@);
        },
        TipoTokenV::O => {
            lema_de_nombre_escribible(t, p, "o"@);
        },
        _ => {
            lema_expresion_escribible(t, p);
            match expresion_v(t, p) {
                Ok((e, _)) => {
                    lema_escribibles_entre_parentesis(formato_expresion(e));
                },
                Err(_) => {},
            }
        },
    }
}

/// As [`lema_sentencia_escribible`], of a statement that starts with a name.
pub proof fn lema_de_nombre_escribible(t: Seq<TokenV>, p: int, id: Seq<char>)
    requires
        tokens_legibles(t),
        0 <= p < t.len(),
        nombre_de_token(t[p].tipo) == Some(id),
    ensures
        match sentencia_de_nombre_v(t, p, id) {
            Ok((s, _)) => todos_escribibles(formato_sentencia(s)),
            Err(_) => true,
        },
{
    assert(t[p].tipo is Eof || escribible(t[p].tipo));
    lema_nombre_escribible(t[p].tipo);
    if hay(t, p + 1, TipoTokenV::Asignacion) {
        lema_expresion_escribible(t, p + 2);
        match expresion_v(t, p + 2) {
            Ok((e, _)) => {
                lema_escribibles_tras(TipoTokenV::Asignacion, formato_expresion(e));
                lema_escribibles_tras(
                    token_de_nombre(id),
                    tras(TipoTokenV::Asignacion, formato_expresion(e)),
                );
            },
            Err(_) => {},
        }
    } else {
        lema_expresion_escribible(t, p);
        match expresion_v(t, p) {
            Ok((e, _)) => {
                lema_escribibles_entre_parentesis(formato_expresion(e));
            },
            Err(_) => {},
        }
    }
}

/// As [`lema_sentencia_escribible`], of a `var` statement.
pub proof fn lema_var_escribible(t: Seq<TokenV>, p: int)
    requires
        tokens_legibles(t),
        0 <= p < t.len(),
        t[p].tipo is Var,
    ensures
        match sentencia_var_v(t, p) {
            Ok((s, _)) => todos_escribibles(formato_sentencia(s)),
            Err(_) => true,
        },
{
    match nombre_v(t, p + 1, Esperado::NombreDeVariable) {
        Ok((nombre, q)) => {
            assert(t[p + 1].tipo is Eof || escribible(t[p + 1].tipo));
            lema_nombre_escribible(t[p + 1].tipo);
            match consumir_v(t, q, TipoTokenV::Asignacion, Esperado::AsignacionDeVariable) {
                Ok(r) => {
                    lema_expresion_escribible(t, r);
                    match expresion_v(t, r) {
                        Ok((e, _)) => {
                            lema_escribibles_tras(TipoTokenV::Asignacion, formato_expresion(e));
                            lema_escribibles_tras(
                                token_de_nombre(nombre),
                                tras(TipoTokenV::Asignacion, formato_expresion(e)),
                            );
                            lema_escribibles_tras(
                                TipoTokenV::Var,
                                tras(
                                    token_de_nombre(nombre),
                                    tras(TipoTokenV::Asignacion, formato_expresion(e)),
                                ),
                            );
                        },
                        Err(_) => {},
                    }
                },
                Err(_) => {},
            }
        },
        Err(_) => {},
    }
}

/// As [`lema_sentencia_escribible`], of a block in braces.
pub proof fn lema_llaves_escribibles(t: Seq<TokenV>, p: int, abre: Esperado, cierra: Esperado)
    requires
        tokens_legibles(t),
        0 <= p < t.len(),
    ensures
        match entre_llaves_v(t, p, abre, cierra) {
            Ok((b, _)) => todos_escribibles(en_llaves(formato_bloque(b, 0))),
            Err(_) => true,
        },
    decreases restantes(t, p), 42nat,
{
    if hay(t, p, TipoTokenV::LlaveAbre) {
        lema_bloque_escribible(t, p + 1, Seq::empty());
        match bloque_v(t, p + 1, Seq::empty()) {
            Ok((b, _)) => {
                lema_formato_de_bloque_escribible(b, 0);
                lema_escribibles_en_llaves(formato_bloque(b, 0));
            },
            Err(_) => {},
        }
    }
}

/// As [`lema_sentencia_escribible`], of the statements of a block.
pub proof fn lema_bloque_escribible(t: Seq<TokenV>, p: int, acc: Seq<SentenciaV>)
    requires
        tokens_legibles(t),
        0 <= p < t.len(),
        sentencias_escribibles(acc),
    ensures
        match bloque_v(t, p, acc) {
            Ok((b, _)) => sentencias_escribibles(b),
            Err(_) => true,
        },
    decreases restantes(t, p), 41nat,
{
    if !(hay(t, p, TipoTokenV::LlaveCierra) || en_fin(t, p)) {
        lema_sentencia_escribible(t, p);
        lema_sentencia_avanza(t, p);
        match sentencia_v(t, p) {
            Ok((s, q)) => {
                assert forall|j: int| 0 <= j < acc.push(s).len() implies todos_escribibles(
                    formato_sentencia(#[trigger] acc.push(s)[j]),
                ) by {
                    if j < acc.len() {
                        assert(acc.push(s)[j] == acc[j]);
                    }
                }
                lema_bloque_escribible(t, q, acc.push(s));
            },
            Err(_) => {},
        }
    }
}

/// The writing of a `si` whose parts can be written can be written.
pub proof fn lema_formato_de_si_escribible(s: SentenciaV)
    requires
        match s {
            SentenciaV::Si(c, a, sino, _) => todos_escribibles(formato_expresion(c)) && todos_escribibles(
                en_llaves(formato_bloque(a, 0)),
            ) && match sino {
                Some(b) => todos_escribibles(en_llaves(formato_bloque(b, 0))),
                None => true,
            },
            _ => false,
        },
    ensures
        todos_escribibles(formato_sentencia(s)),
{
    match s {
        SentenciaV::Si(c, a, sino, _) => {
            let w1 = tras(TipoTokenV::Si, formato_expresion(c));
            let w2 = en_llaves(formato_bloque(a, 0));
            lema_escribibles_tras(TipoTokenV::Si, formato_expresion(c));
            lema_escribibles_seguidos(w1, w2);
            match sino {
                Some(b) => {
                    let w3 = tras(TipoTokenV::Sino, en_llaves(formato_bloque(b, 0)));
                    lema_escribibles_tras(TipoTokenV::Sino, en_llaves(formato_bloque(b, 0)));
                    lema_escribibles_seguidos(w1 + w2, w3);
                },
                None => {
                    lema_escribibles_seguidos(w1 + w2, Seq::empty());
                },
            }
        },
        _ => {},
    }
}

/// As [`lema_sentencia_escribible`], of a `si` statement.
pub proof fn lema_si_escribible(t: Seq<TokenV>, p: int)
    requires
        tokens_legibles(t),
        0 <= p < t.len(),
        t[p].tipo is Si,
    ensures
        match sentencia_si_v(t, p) {
            Ok((s, _)) => todos_escribibles(formato_sentencia(s)),
            Err(_) => true,
        },
    decreases restantes(t, p), 39nat,
{
    lema_expresion_escribible(t, p + 1);
    lema_expresion_avanza(t, p + 1);
    match expresion_v(t, p + 1) {
        Ok((c, q)) => {
            lema_llaves_escribibles(t, q, Esperado::LlaveAbreDeCondicion, Esperado::LlaveCierraDeSi);
            lema_llaves_avanzan(t, q, Esperado::LlaveAbreDeCondicion, Esperado::LlaveCierraDeSi);
            match entre_llaves_v(t, q, Esperado::LlaveAbreDeCondicion, Esperado::LlaveCierraDeSi) {
                Ok((entonces, r)) => {
                    if hay(t, r, TipoTokenV::Sino) {
                        lema_llaves_escribibles(
                            t,
                            r + 1,
                            Esperado::LlaveAbreDeSino,
                            Esperado::LlaveCierraDeSino,
                        );
                        match entre_llaves_v(
                            t,
                            r + 1,
                            Esperado::LlaveAbreDeSino,
                            Esperado::LlaveCierraDeSino,
                        ) {
                            Ok((sino, _)) => {
                                lema_formato_de_si_escribible(
                                    SentenciaV::Si(c, entonces, Some(sino), t[p].pos),
                                );
                            },
                            Err(_) => {},
                        }
                    } else {
                        lema_formato_de_si_escribible(SentenciaV::Si(c, entonces, None, t[p].pos));
                    }
                },
                Err(_) => {},
            }
        },
        Err(_) => {},
    }
}

/// As [`lema_sentencia_escribible`], of a `mientras` statement.
pub proof fn lema_mientras_escribible(t: Seq<TokenV>, p: int)
    requires
        tokens_legibles(t),
        0 <= p < t.len(),
        t[p].tipo is Mientras,
    ensures
        match sentencia_mientras_v(t, p) {
            Ok((s, _)) => todos_escribibles(formato_sentencia(s)),
            Err(_) => true,
        },
    decreases restantes(t, p), 39nat,
{
    lema_expresion_escribible(t, p + 1);
    lema_expresion_avanza(t, p + 1);
    match expresion_v(t, p + 1) {
        Ok((c, q)) => {
            lema_llaves_escribibles(t, q, Esperado::LlaveAbreDeCondicion, Esperado::LlaveCierraDeMientras);
            match entre_llaves_v(
                t,
                q,
                Esperado::LlaveAbreDeCondicion,
                Esperado::LlaveCierraDeMientras,
            ) {
                Ok((cuerpo, _)) => {
                    lema_escribibles_tras(TipoTokenV::Mientras, formato_expresion(c));
                    lema_escribibles_seguidos(
                        tras(TipoTokenV::Mientras, formato_expresion(c)),
                        en_llaves(formato_bloque(cuerpo, 0)),
                    );
                },
                Err(_) => {},
            }
        },
        Err(_) => {},
    }
}

/// As [`lema_sentencia_escribible`], of the head of a `para`.
pub proof fn lema_rango_escribible(t: Seq<TokenV>, p: int)
    requires
        tokens_legibles(t),
        0 <= p < t.len(),
        t[p].tipo is Para,
    ensures
        match rango_v(t, p) {
            Ok(((v, x, y), _)) => escribible(token_de_nombre(v)) && todos_escribibles(
                formato_expresion(x),
            ) && todos_escribibles(formato_expresion(y)),
            Err(_) => true,
        },
{
    match nombre_v(t, p + 1, Esperado::NombreDeVariable) {
        Ok((variable, q)) => {
            assert(t[p + 1].tipo is Eof || escribible(t[p + 1].tipo));
            lema_nombre_escribible(t[p + 1].tipo);
            match consumir_v(t, q, TipoTokenV::Asignacion, Esperado::AsignacionDeVariable) {
                Ok(r) => {
                    lema_expresion_escribible(t, r);
                    lema_expresion_avanza(t, r);
                    match expresion_v(t, r) {
                        Ok((inicio, u)) => {
                            match consumir_v(t, u, TipoTokenV::Coma, Esperado::ComaDeRango) {
                                Ok(w) => {
                                    lema_expresion_escribible(t, w);
                                },
                                Err(_) => {},
                            }
                        },
                        Err(_) => {},
                    }
                },
                Err(_) => {},
            }
        },
        Err(_) => {},
    }
}

/// The writing of a `para` whose parts can be written can be written.
pub proof fn lema_formato_de_para_escribible(s: SentenciaV)
    requires
        match s {
            SentenciaV::Para(v, x, y, a, _) => escribible(token_de_nombre(v))
                && todos_escribibles(formato_expresion(x)) && todos_escribibles(formato_expresion(y))
                && todos_escribibles(en_llaves(formato_bloque(a, 0))),
            _ => false,
        },
    ensures
        todos_escribibles(formato_sentencia(s)),
{
    match s {
        SentenciaV::Para(v, x, y, a, _) => {
            let w4 = junto(formato_expresion(x), TipoTokenV::Coma, formato_expresion(y));
            let w3 = tras(TipoTokenV::Asignacion, w4);
            let w2 = tras(token_de_nombre(v), w3);
            let w1 = tras(TipoTokenV::Para, w2);
            lema_escribibles_juntos(formato_expresion(x), TipoTokenV::Coma, formato_expresion(y));
            lema_escribibles_tras(TipoTokenV::Asignacion, w4);
            lema_escribibles_tras(token_de_nombre(v), w3);
            lema_escribibles_tras(TipoTokenV::Para, w2);
            lema_escribibles_seguidos(w1, en_llaves(formato_bloque(a, 0)));
        },
        _ => {},
    }
}

/// As [`lema_sentencia_escribible`], of a `para` statement.
pub proof fn lema_para_escribible(t: Seq<TokenV>, p: int)
    requires
        tokens_legibles(t),
        0 <= p < t.len(),
        t[p].tipo is Para,
    ensures
        match sentencia_para_v(t, p) {
            Ok((s, _)) => todos_escribibles(formato_sentencia(s)),
            Err(_) => true,
        },
    decreases restantes(t, p), 39nat,
{
    lema_rango_escribible(t, p);
    lema_rango_avanza(t, p);
    match rango_v(t, p) {
        Ok(((v, x, y), q)) => {
            lema_llaves_escribibles(t, q, Esperado::LlaveAbreDeRango, Esperado::LlaveCierraDePara);
            match entre_llaves_v(t, q, Esperado::LlaveAbreDeRango, Esperado::LlaveCierraDePara) {
                Ok((cuerpo, _)) => {
                    lema_formato_de_para_escribible(SentenciaV::Para(v, x, y, cuerpo, t[p].pos));
                },
                Err(_) => {},
            }
        },
        Err(_) => {},
    }
}

/// The writing of parameters that were read from tokens that can be written
/// can be written.
pub proof fn lema_parametros_escribibles(t: Seq<TokenV>, p: int, acc: Seq<ParametroV>)
    requires
        tokens_legibles(t),
        0 <= p < t.len(),
        forall|j: int|
            0 <= j < acc.len() ==> escribible(token_de_nombre(#[trigger] acc[j].nombre)),
    ensures
        match parametros_v(t, p, acc) {
            Ok((ps, _)) => forall|j: int|
                0 <= j < ps.len() ==> escribible(
                    token_de_nombre(#[trigger] ps[j].nombre),
                ),
            Err(_) => true,
        },
    decreases restantes(t, p),
{
    match nombre_v(t, p, Esperado::NombreDeParametro) {
        Ok((nombre, q)) => {
            assert(t[p].tipo is Eof || escribible(t[p].tipo));
            lema_nombre_escribible(t[p].tipo);
            match consumir_v(t, q, TipoTokenV::DosPuntos, Esperado::DosPuntosDeParametro) {
                Ok(r) => {
                    match tipo_v(t, r) {
                        Ok((tipo_dato, w)) => {
                            let nuevo = acc.push(ParametroV { nombre, tipo_dato });
                            assert forall|j: int| 0 <= j < nuevo.len() implies escribible(
                                token_de_nombre(#[trigger] nuevo[j].nombre),
                            ) by {
                                if j < acc.len() {
                                    assert(nuevo[j] == acc[j]);
                                }
                            }
                            if hay(t, w, TipoTokenV::Coma) {
                                lema_parametros_escribibles(t, w + 1, nuevo);
                            }
                        },
                        Err(_) => {},
                    }
                },
                Err(_) => {},
            }
        },
        Err(_) => {},
    }
}

/// The writing of parameters whose names can be written can be written.
pub proof fn lema_formato_de_parametros_escribible(ps: Seq<ParametroV>, i: int)
    requires
        forall|j: int|
            0 <= j < ps.len() ==> escribible(token_de_nombre(#[trigger] ps[j].nombre)),
    ensures
        todos_escribibles(formato_parametros(ps, i)),
    decreases ps.len() - i,
{
    if 0 <= i < ps.len() {
        let cabeza = seq![
            token_de_nombre(ps[i].nombre),
            TipoTokenV::DosPuntos,
            token_de_tipo(ps[i].tipo_dato),
        ];
        assert(todos_escribibles(cabeza)) by {
            assert(escribible(token_de_nombre(ps[i].nombre)));
        }
        if i + 1 < ps.len() {
            lema_formato_de_parametros_escribible(ps, i + 1);
            lema_escribibles_tras(TipoTokenV::Coma, formato_parametros(ps, i + 1));
            lema_escribibles_seguidos(cabeza, tras(TipoTokenV::Coma, formato_parametros(ps, i + 1)));
        } else {
            lema_escribibles_seguidos(cabeza, Seq::empty());
        }
    }
}

/// The writing of a declaration that was read from tokens that can be
/// written can be written.
pub proof fn lema_declaracion_escribible(t: Seq<TokenV>, p: int)
    requires
        tokens_legibles(t),
        0 <= p < t.len(),
    ensures
        match declaracion_v(t, p) {
            Ok((d, _)) => todos_escribibles(formato_declaracion(d)),
            Err(_) => true,
        },
{
    reveal(declaracion_v);
    match t[p].tipo {
        TipoTokenV::Escena => {
            lema_escena_escribible(t, p);
        },
        TipoTokenV::Funcion => {
            lema_funcion_escribible(t, p);
        },
        _ => {},
    }
}

/// As [`lema_declaracion_escribible`], of a scene.
pub proof fn lema_escena_escribible(t: Seq<TokenV>, p: int)
    requires
        tokens_legibles(t),
        0 <= p < t.len(),
        t[p].tipo is Escena,
    ensures
        match escena_v(t, p) {
            Ok((e, _)) => todos_escribibles(formato_declaracion(DeclaracionV::Escena(e))),
            Err(_) => true,
        },
{
    match nombre_v(t, p + 1, Esperado::NombreDeEscena) {
        Ok((nombre, q)) => {
            assert(t[p + 1].tipo is Eof || escribible(t[p + 1].tipo));
            lema_nombre_escribible(t[p + 1].tipo);
            lema_llaves_escribibles(t, q, Esperado::LlaveAbreDeEscena, Esperado::LlaveCierraDeEscena);
            match entre_llaves_v(t, q, Esperado::LlaveAbreDeEscena, Esperado::LlaveCierraDeEscena) {
                Ok((cuerpo, _)) => {
                    let w2 = en_llaves(formato_bloque(cuerpo, 0));
                    lema_escribibles_tras(token_de_nombre(nombre), w2);
                    lema_escribibles_tras(TipoTokenV::Escena, tras(token_de_nombre(nombre), w2));
                },
                Err(_) => {},
            }
        },
        Err(_) => {},
    }
}

/// The writing of a function whose parts can be written can be written.
pub proof fn lema_formato_de_funcion_escribible(f: crate::ast::FuncionV)
    requires
        escribible(token_de_nombre(f.nombre)),
        forall|j: int|
            0 <= j < f.parametros.len() ==> escribible(
                token_de_nombre(#[trigger] f.parametros[j].nombre),
            ),
        todos_escribibles(en_llaves(formato_bloque(f.cuerpo, 0))),
    ensures
        todos_escribibles(formato_declaracion(DeclaracionV::Funcion(f))),
{
    let wp = formato_parametros(f.parametros, 0);
    lema_formato_de_parametros_escribible(f.parametros, 0);
    lema_escribibles_entre_parentesis(wp);
    lema_escribibles_tras(token_de_nombre(f.nombre), entre_parentesis(wp));
    let cabeza = tras(
        TipoTokenV::Funcion,
        tras(token_de_nombre(f.nombre), entre_parentesis(wp)),
    );
    lema_escribibles_tras(TipoTokenV::Funcion, tras(token_de_nombre(f.nombre), entre_parentesis(wp)));
    let wt = formato_tipo_de_retorno(f.tipo_retorno);
    assert(todos_escribibles(wt));
    lema_escribibles_seguidos(cabeza, wt);
    lema_escribibles_seguidos(cabeza + wt, en_llaves(formato_bloque(f.cuerpo, 0)));
}

/// As [`lema_declaracion_escribible`], of a function.
pub proof fn lema_funcion_escribible(t: Seq<TokenV>, p: int)
    requires
        tokens_legibles(t),
        0 <= p < t.len(),
        t[p].tipo is Funcion,
    ensures
        match funcion_v(t, p) {
            Ok((f, _)) => todos_escribibles(formato_declaracion(DeclaracionV::Funcion(f))),
            Err(_) => true,
        },
{
    match nombre_v(t, p + 1, Esperado::NombreDeFuncion) {
        Ok((nombre, q)) => {
            assert(t[p + 1].tipo is Eof || escribible(t[p + 1].tipo));
            lema_nombre_escribible(t[p + 1].tipo);
            lema_lista_escribible(t, q);
            lema_lista_avanza(t, q);
            match lista_de_parametros_v(t, q) {
                Ok((parametros, r)) => {
                    match tipo_de_retorno_v(t, r) {
                        Ok((tipo, w)) => {
                            lema_llaves_escribibles(
                                t,
                                w,
                                Esperado::LlaveAbreDeFuncion,
                                Esperado::LlaveCierraDeFuncion,
                            );
                            match entre_llaves_v(
                                t,
                                w,
                                Esperado::LlaveAbreDeFuncion,
                                Esperado::LlaveCierraDeFuncion,
                            ) {
                                Ok((cuerpo, _)) => {
                                    lema_formato_de_funcion_escribible(
                                        crate::ast::FuncionV {
                                            nombre,
                                            parametros,
                                            tipo_retorno: tipo,
                                            cuerpo,
                                            pos: t[p].pos,
                                        },
                                    );
                                },
                                Err(_) => {},
                            }
                        },
                        Err(_) => {},
                    }
                },
                Err(_) => {},
            }
        },
        Err(_) => {},
    }
}

/// As [`lema_parametros_escribibles`], of a parameter list between parentheses.
pub proof fn lema_lista_escribible(t: Seq<TokenV>, p: int)
    requires
        tokens_legibles(t),
        0 <= p < t.len(),
    ensures
        match lista_de_parametros_v(t, p) {
            Ok((ps, _)) => forall|j: int|
                0 <= j < ps.len() ==> escribible(
                    token_de_nombre(#[trigger] ps[j].nombre),
                ),
            Err(_) => true,
        },
{
    match consumir_v(t, p, TipoTokenV::ParentesisAbre, Esperado::ParentesisAbreDeFuncion) {
        Ok(q) => {
            if !hay(t, q, TipoTokenV::ParentesisCierra) {
                lema_parametros_escribibles(t, q, Seq::empty());
            }
        },
        Err(_) => {},
    }
}

/// Whether the writing of every declaration of the list can be written.
pub open spec fn declaraciones_escribibles(ds: Seq<DeclaracionV>) -> bool {
    forall|j: int| 0 <= j < ds.len() ==> todos_escribibles(formato_declaracion(#[trigger] ds[j]))
}

/// The writing of declarations that can each be written can be written.
pub proof fn lema_formato_de_declaraciones_escribible(ds: Seq<DeclaracionV>, i: int)
    requires
        declaraciones_escribibles(ds),
    ensures
        todos_escribibles(formato_declaraciones(ds, i)),
    decreases ds.len() - i,
{
    if 0 <= i < ds.len() {
        lema_formato_de_declaraciones_escribible(ds, i + 1);
        lema_escribibles_seguidos(formato_declaracion(ds[i]), formato_declaraciones(ds, i + 1));
    }
}

/// The writing of the declarations that were read from tokens that can be
/// written can be written.
pub proof fn lema_declaraciones_escribibles_leidas(t: Seq<TokenV>, p: int, acc: Seq<DeclaracionV>)
    requires
        tokens_legibles(t),
        0 <= p < t.len(),
        declaraciones_escribibles(acc),
    ensures
        match declaraciones_v(t, p, acc) {
            Ok(ds) => declaraciones_escribibles(ds),
            Err(_) => true,
        },
    decreases restantes(t, p),
{
    if !en_fin(t, p) {
        lema_declaracion_escribible(t, p);
        crate::formato::lema_declaracion_leida(t, p);
        match declaracion_v(t, p) {
            Ok((d, q)) => {
                assert forall|j: int| 0 <= j < acc.push(d).len() implies todos_escribibles(
                    formato_declaracion(#[trigger] acc.push(d)[j]),
                ) by {
                    if j < acc.len() {
                        assert(acc.push(d)[j] == acc[j]);
                    }
                }
                lema_declaraciones_escribibles_leidas(t, q, acc.push(d));
            },
            Err(_) => {},
        }
    }
}

/// The canonical writing of a program as text: the text of each token of
/// its writing as tokens, with a blank after each.
pub open spec fn texto_de_programa(programa: ProgramaV) -> Seq<char> {
    texto_de_tipos(formato_declaraciones(programa.declaraciones, 0), 0)
}

/// Every program that is read from a source text, written out as text in
/// the canonical way, is lexed and parsed back as the same program, but for
/// the positions in it.
pub proof fn ley_ida_y_vuelta_de_texto(fuente: Seq<char>)
    requires
        tokens_de(fuente) is Ok,
        programa_de(tokens_de(fuente)->Ok_0) is Ok,
    ensures
        tokens_de(texto_de_programa(programa_de(tokens_de(fuente)->Ok_0)->Ok_0)) is Ok,
        programa_de(
            tokens_de(texto_de_programa(programa_de(tokens_de(fuente)->Ok_0)->Ok_0))->Ok_0,
        ) is Ok,
        mismo_programa(
            programa_de(
                tokens_de(texto_de_programa(programa_de(tokens_de(fuente)->Ok_0)->Ok_0))->Ok_0,
            )->Ok_0,
            programa_de(tokens_de(fuente)->Ok_0)->Ok_0,
        ),
{
    let t = tokens_de(fuente)->Ok_0;
    let programa = programa_de(t)->Ok_0;
    crate::lexer::lema_tokens_terminan_en_fin(fuente, Cursor::inicial());
    lema_tokens_leidos(fuente, Cursor::inicial());
    lema_sin_identificadores_reservados(t);
    lema_declaraciones_escribibles_leidas(t, 0, Seq::empty());
    lema_declaraciones_leidas(t, 0, Seq::empty());
    let w = formato_declaraciones(programa.declaraciones, 0);
    lema_formato_de_declaraciones_escribible(programa.declaraciones, 0);
    let texto = texto_de_programa(programa);
    assert(texto.subrange(0, texto.len() as int) =~= texto);
    lema_lee_texto(texto, Cursor::inicial(), w, 0);
    let u = tokens_de(texto)->Ok_0;
    assert(w.subrange(0, w.len() as int) =~= w);
    assert(tipos_de(u) == formato_programa(programa));
    assert(u.len() == tipos_de(u).len());
    assert forall|i: int| 0 <= i < u.len() implies (#[trigger] u[i]).tipo == formato_programa(
        programa,
    )[i] by {
        assert(tipos_de(u)[i] == u[i].tipo);
    }
    lema_lee_programa(u, programa);
}

/// Appends the escaped text of the string value `v` to `s`.
pub fn agregar_escapado(s: &mut String, v: &str)
    ensures
        final(s)@ == old(s)@ + escapado(v@),
{
    let caracteres = crate::texto::caracteres(v);
    let mut i: usize = 0;
    assert(caracteres@.subrange(0, caracteres.len() as int) =~= caracteres@);
    assert(escapado(caracteres@.subrange(caracteres.len() as int, caracteres.len() as int))
        =~= Seq::empty());
    while i < caracteres.len()
        invariant
            i <= caracteres.len(),
            caracteres@ == v@,
            s@ + escapado(caracteres@.subrange(i as int, caracteres.len() as int)) == old(s)@
                + escapado(v@),
        decreases caracteres.len() - i,
    {
        let c: char = caracteres[i];
        let ghost cola = caracteres@.subrange(i as int, caracteres.len() as int);
        let ghost antes = s@;
        assert(cola.drop_first() =~= caracteres@.subrange(i + 1, caracteres.len() as int));
        assert(cola[0] == c);
        if c == '"' || c == '\\' {
            agregar_caracter(s, '\\');
        }
        agregar_caracter(s, c);
        assert(s@ + escapado(cola.drop_first()) =~= antes + escapado(cola));
        i += 1;
    }
    assert(s@ + Seq::<char>::empty() =~= s@);
}

/// Appends the text that writes a token of the kind `t` to `s`.
pub fn agregar_texto_de_token(s: &mut String, t: &TipoToken)
    ensures
        final(s)@ == old(s)@ + texto_de_token(t@),
{
    match t {
        TipoToken::Escena => agregar_texto(s, "escena"),
        TipoToken::Mostrar => agregar_texto(s, "mostrar"),
        TipoToken::Var => agregar_texto(s, "var"),
        TipoToken::Constante => agregar_texto(s, "constante"),
        TipoToken::Si => agregar_texto(s, "si"),
        TipoToken::Sino => agregar_texto(s, "sino"),
        TipoToken::Mientras => agregar_texto(s, "mientras"),
        TipoToken::Para => agregar_texto(s, "para"),
        TipoToken::Funcion => agregar_texto(s, "funcion"),
        TipoToken::Retornar => agregar_texto(s, "retornar"),
        TipoToken::Verdadero => agregar_texto(s, "verdadero"),
        TipoToken::Falso => agregar_texto(s, "falso"),
        TipoToken::Cada => agregar_texto(s, "cada"),
        TipoToken::Frame => agregar_texto(s, "frame"),
        TipoToken::Cuando => agregar_texto(s, "cuando"),
        TipoToken::Y => agregar_texto(s, "y"),
        TipoToken::O => agregar_texto(s, "o"),
        TipoToken::No => agregar_texto(s, "no"),
        TipoToken::TipoNumero => agregar_texto(s, "numero"),
        TipoToken::TipoDecimal => agregar_texto(s, "decimal"),
        TipoToken::TipoTexto => agregar_texto(s, "texto"),
        TipoToken::TipoBooleano => agregar_texto(s, "booleano"),
        TipoToken::TipoVector3 => agregar_texto(s, "vector3"),
        TipoToken::TipoPose => agregar_texto(s, "pose"),
        TipoToken::TipoMano => agregar_texto(s, "mano"),
        TipoToken::TipoControlador => agregar_texto(s, "controlador"),
        TipoToken::Suma => {
            agregar_caracter(s, '+');
        },
        TipoToken::Resta => {
            agregar_caracter(s, '-');
        },
        TipoToken::Multiplicacion => {
            agregar_caracter(s, '*');
        },
        TipoToken::Division => {
            agregar_caracter(s, '/');
        },
        TipoToken::Modulo => {
            agregar_caracter(s, '%');
        },
        TipoToken::Asignacion => {
            agregar_caracter(s, '=');
        },
        TipoToken::Igual => {
            agregar_caracter(s, '=');
            agregar_caracter(s, '=');
        },
        TipoToken::Diferente => {
            agregar_caracter(s, '!');
            agregar_caracter(s, '=');
        },
        TipoToken::Menor => {
            agregar_caracter(s, '<');
        },
        TipoToken::MenorIgual => {
            agregar_caracter(s, '<');
            agregar_caracter(s, '=');
        },
        TipoToken::Mayor => {
            agregar_caracter(s, '>');
        },
        TipoToken::MayorIgual => {
            agregar_caracter(s, '>');
            agregar_caracter(s, '=');
        },
        TipoToken::ParentesisAbre => {
            agregar_caracter(s, '(');
        },
        TipoToken::ParentesisCierra => {
            agregar_caracter(s, ')');
        },
        TipoToken::LlaveAbre => {
            agregar_caracter(s, '{');
        },
        TipoToken::LlaveCierra => {
            agregar_caracter(s, '}');
        },
        TipoToken::Coma => {
            agregar_caracter(s, ',');
        },
        TipoToken::DosPuntos => {
            agregar_caracter(s, ':');
        },
        TipoToken::Punto => {
            agregar_caracter(s, '.');
        },
        TipoToken::Numero(n) => agregar_entero(s, *n),
        TipoToken::Decimal(d) => agregar_texto(s, d.as_str()),
        TipoToken::Texto(v) => {
            agregar_caracter(s, '"');
            agregar_escapado(s, v.as_str());
            agregar_caracter(s, '"');
        },
        TipoToken::Identificador(x) => agregar_texto(s, x.as_str()),
        TipoToken::NuevaLinea => {},
        TipoToken::Eof => {},
    }
    assert(s@ =~= old(s)@ + texto_de_token(t@));
}

/// The canonical writing of a program as text.
///
/// Lexing and parsing the text gives the program back, but for positions,
/// if the program was read from source text: see
/// [`ley_ida_y_vuelta_de_texto`].
pub fn escribir_programa(programa: &Programa) -> (s: String)
    ensures
        s@ == texto_de_programa(programa@),
{
    let tokens = formatear(programa);
    let ghost w = formato_declaraciones(programa@.declaraciones, 0);
    assert(tipos_de(vista_tokens(tokens@)) == w.push(TipoTokenV::Eof));
    assert(tipos_de(vista_tokens(tokens@)).len() == tokens.len());
    let n: usize = tokens.len() - 1;
    let mut s = String::new();
    let mut i: usize = 0;
    assert(s@ + texto_de_tipos(w, 0) =~= texto_de_tipos(w, 0));
    while i < n
        invariant
            i <= n,
            n == w.len(),
            n + 1 == tokens.len(),
            tipos_de(vista_tokens(tokens@)) == w.push(TipoTokenV::Eof),
            s@ + texto_de_tipos(w, i as int) == texto_de_tipos(w, 0),
        decreases n - i,
    {
        let ghost antes = s@;
        assert(tipos_de(vista_tokens(tokens@))[i as int] == tokens[i as int]@.tipo);
        assert(w.push(TipoTokenV::Eof)[i as int] == w[i as int]);
        agregar_texto_de_token(&mut s, &tokens[i].tipo);
        agregar_caracter(&mut s, ' ');
        assert(s@ + texto_de_tipos(w, i + 1) =~= antes + texto_de_tipos(w, i as int));
        i += 1;
    }
    assert(s@ + Seq::<char>::empty() =~= s@);
    s
}


} // verus!
