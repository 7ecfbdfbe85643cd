//! Lexical analysis: from source characters to tokens with positions.

use vstd::prelude::*;
use crate::ast::Posicion;
use crate::texto::{agregar_caracter, caracteres, texto_de};

verus! {

/// The kind of a token, with the value of a literal or the name of an identifier.
#[derive(Debug, PartialEq)]
pub enum TipoToken {
    Escena,
    Mostrar,
    Var,
    Constante,
    Si,
    Sino,
    Mientras,
    Para,
    Funcion,
    Retornar,
    Verdadero,
    Falso,
    Cada,
    Frame,
    Cuando,
    TipoNumero,
    TipoDecimal,
    TipoTexto,
    TipoBooleano,
    TipoVector3,
    TipoPose,
    TipoMano,
    TipoControlador,
    Numero(i64),
    Decimal(String),
    Texto(String),
    Identificador(String),
    Suma,
    Resta,
    Multiplicacion,
    Division,
    Modulo,
    Asignacion,
    Igual,
    Diferente,
    Menor,
    MenorIgual,
    Mayor,
    MayorIgual,
    Y,
    O,
    No,
    ParentesisAbre,
    ParentesisCierra,
    LlaveAbre,
    LlaveCierra,
    Coma,
    DosPuntos,
    Punto,
    NuevaLinea,
    Eof,
}

/// Model of [`TipoToken`].
pub enum TipoTokenV {
    Escena,
    Mostrar,
    Var,
    Constante,
    Si,
    Sino,
    Mientras,
    Para,
    Funcion,
    Retornar,
    Verdadero,
    Falso,
    Cada,
    Frame,
    Cuando,
    TipoNumero,
    TipoDecimal,
    TipoTexto,
    TipoBooleano,
    TipoVector3,
    TipoPose,
    TipoMano,
    TipoControlador,
    Numero(i64),
    Decimal(Seq<char>),
    Texto(Seq<char>),
    Identificador(Seq<char>),
    Suma,
    Resta,
    Multiplicacion,
    Division,
    Modulo,
    Asignacion,
    Igual,
    Diferente,
    Menor,
    MenorIgual,
    Mayor,
    MayorIgual,
    Y,
    O,
    No,
    ParentesisAbre,
    ParentesisCierra,
    LlaveAbre,
    LlaveCierra,
    Coma,
    DosPuntos,
    Punto,
    NuevaLinea,
    Eof,
}

impl View for TipoToken {
    type V = TipoTokenV;

    open spec fn view(&self) -> TipoTokenV {
        match self {
            TipoToken::Escena => TipoTokenV::Escena,
            TipoToken::Mostrar => TipoTokenV::Mostrar,
            TipoToken::Var => TipoTokenV::Var,
            TipoToken::Constante => TipoTokenV::Constante,
            TipoToken::Si => TipoTokenV::Si,
            TipoToken::Sino => TipoTokenV::Sino,
            TipoToken::Mientras => TipoTokenV::Mientras,
            TipoToken::Para => TipoTokenV::Para,
            TipoToken::Funcion => TipoTokenV::Funcion,
            TipoToken::Retornar => TipoTokenV::Retornar,
            TipoToken::Verdadero => TipoTokenV::Verdadero,
            TipoToken::Falso => TipoTokenV::Falso,
            TipoToken::Cada => TipoTokenV::Cada,
            TipoToken::Frame => TipoTokenV::Frame,
            TipoToken::Cuando => TipoTokenV::Cuando,
            TipoToken::TipoNumero => TipoTokenV::TipoNumero,
            TipoToken::TipoDecimal => TipoTokenV::TipoDecimal,
            TipoToken::TipoTexto => TipoTokenV::TipoTexto,
            TipoToken::TipoBooleano => TipoTokenV::TipoBooleano,
            TipoToken::TipoVector3 => TipoTokenV::TipoVector3,
            TipoToken::TipoPose => TipoTokenV::TipoPose,
            TipoToken::TipoMano => TipoTokenV::TipoMano,
            TipoToken::TipoControlador => TipoTokenV::TipoControlador,
            TipoToken::Suma => TipoTokenV::Suma,
            TipoToken::Resta => TipoTokenV::Resta,
            TipoToken::Multiplicacion => TipoTokenV::Multiplicacion,
            TipoToken::Division => TipoTokenV::Division,
            TipoToken::Modulo => TipoTokenV::Modulo,
            TipoToken::Asignacion => TipoTokenV::Asignacion,
            TipoToken::Igual => TipoTokenV::Igual,
            TipoToken::Diferente => TipoTokenV::Diferente,
            TipoToken::Menor => TipoTokenV::Menor,
            TipoToken::MenorIgual => TipoTokenV::MenorIgual,
            TipoToken::Mayor => TipoTokenV::Mayor,
            TipoToken::MayorIgual => TipoTokenV::MayorIgual,
            TipoToken::Y => TipoTokenV::Y,
            TipoToken::O => TipoTokenV::O,
            TipoToken::No => TipoTokenV::No,
            TipoToken::ParentesisAbre => TipoTokenV::ParentesisAbre,
            TipoToken::ParentesisCierra => TipoTokenV::ParentesisCierra,
            TipoToken::LlaveAbre => TipoTokenV::LlaveAbre,
            TipoToken::LlaveCierra => TipoTokenV::LlaveCierra,
            TipoToken::Coma => TipoTokenV::Coma,
            TipoToken::DosPuntos => TipoTokenV::DosPuntos,
            TipoToken::Punto => TipoTokenV::Punto,
            TipoToken::NuevaLinea => TipoTokenV::NuevaLinea,
            TipoToken::Eof => TipoTokenV::Eof,
            TipoToken::Numero(n) => TipoTokenV::Numero(*n),
            TipoToken::Decimal(s) => TipoTokenV::Decimal(s@),
            TipoToken::Texto(s) => TipoTokenV::Texto(s@),
            TipoToken::Identificador(s) => TipoTokenV::Identificador(s@),
        }
    }
}

impl Clone for TipoToken {
    fn clone(&self) -> (r: Self)
        ensures
            r@ == self@,
    {
        match self {
            TipoToken::Escena => TipoToken::Escena,
            TipoToken::Mostrar => TipoToken::Mostrar,
            TipoToken::Var => TipoToken::Var,
            TipoToken::Constante => TipoToken::Constante,
            TipoToken::Si => TipoToken::Si,
            TipoToken::Sino => TipoToken::Sino,
            TipoToken::Mientras => TipoToken::Mientras,
            TipoToken::Para => TipoToken::Para,
            TipoToken::Funcion => TipoToken::Funcion,
            TipoToken::Retornar => TipoToken::Retornar,
            TipoToken::Verdadero => TipoToken::Verdadero,
            TipoToken::Falso => TipoToken::Falso,
            TipoToken::Cada => TipoToken::Cada,
            TipoToken::Frame => TipoToken::Frame,
            TipoToken::Cuando => TipoToken::Cuando,
            TipoToken::TipoNumero => TipoToken::TipoNumero,
            TipoToken::TipoDecimal => TipoToken::TipoDecimal,
            TipoToken::TipoTexto => TipoToken::TipoTexto,
            TipoToken::TipoBooleano => TipoToken::TipoBooleano,
            TipoToken::TipoVector3 => TipoToken::TipoVector3,
            TipoToken::TipoPose => TipoToken::TipoPose,
            TipoToken::TipoMano => TipoToken::TipoMano,
            TipoToken::TipoControlador => TipoToken::TipoControlador,
            TipoToken::Suma => TipoToken::Suma,
            TipoToken::Resta => TipoToken::Resta,
            TipoToken::Multiplicacion => TipoToken::Multiplicacion,
            TipoToken::Division => TipoToken::Division,
            TipoToken::Modulo => TipoToken::Modulo,
            TipoToken::Asignacion => TipoToken::Asignacion,
            TipoToken::Igual => TipoToken::Igual,
            TipoToken::Diferente => TipoToken::Diferente,
            TipoToken::Menor => TipoToken::Menor,
            TipoToken::MenorIgual => TipoToken::MenorIgual,
            TipoToken::Mayor => TipoToken::Mayor,
            TipoToken::MayorIgual => TipoToken::MayorIgual,
            TipoToken::Y => TipoToken::Y,
            TipoToken::O => TipoToken::O,
            TipoToken::No => TipoToken::No,
            TipoToken::ParentesisAbre => TipoToken::ParentesisAbre,
            TipoToken::ParentesisCierra => TipoToken::ParentesisCierra,
            TipoToken::LlaveAbre => TipoToken::LlaveAbre,
            TipoToken::LlaveCierra => TipoToken::LlaveCierra,
            TipoToken::Coma => TipoToken::Coma,
            TipoToken::DosPuntos => TipoToken::DosPuntos,
            TipoToken::Punto => TipoToken::Punto,
            TipoToken::NuevaLinea => TipoToken::NuevaLinea,
            TipoToken::Eof => TipoToken::Eof,
            TipoToken::Numero(n) => TipoToken::Numero(*n),
            TipoToken::Decimal(s) => TipoToken::Decimal(s.clone()),
            TipoToken::Texto(s) => TipoToken::Texto(s.clone()),
            TipoToken::Identificador(s) => TipoToken::Identificador(s.clone()),
        }
    }
}

/// Whether two kinds are the same variant, whatever value or name they carry.
pub open spec fn misma_clase(a: TipoTokenV, b: TipoTokenV) -> bool {
    match (a, b) {
        (TipoTokenV::Escena, TipoTokenV::Escena) => true,
        (TipoTokenV::Mostrar, TipoTokenV::Mostrar) => true,
        (TipoTokenV::Var, TipoTokenV::Var) => true,
        (TipoTokenV::Constante, TipoTokenV::Constante) => true,
        (TipoTokenV::Si, TipoTokenV::Si) => true,
        (TipoTokenV::Sino, TipoTokenV::Sino) => true,
        (TipoTokenV::Mientras, TipoTokenV::Mientras) => true,
        (TipoTokenV::Para, TipoTokenV::Para) => true,
        (TipoTokenV::Funcion, TipoTokenV::Funcion) => true,
        (TipoTokenV::Retornar, TipoTokenV::Retornar) => true,
        (TipoTokenV::Verdadero, TipoTokenV::Verdadero) => true,
        (TipoTokenV::Falso, TipoTokenV::Falso) => true,
        (TipoTokenV::Cada, TipoTokenV::Cada) => true,
        (TipoTokenV::Frame, TipoTokenV::Frame) => true,
        (TipoTokenV::Cuando, TipoTokenV::Cuando) => true,
        (TipoTokenV::TipoNumero, TipoTokenV::TipoNumero) => true,
        (TipoTokenV::TipoDecimal, TipoTokenV::TipoDecimal) => true,
        (TipoTokenV::TipoTexto, TipoTokenV::TipoTexto) => true,
        (TipoTokenV::TipoBooleano, TipoTokenV::TipoBooleano) => true,
        (TipoTokenV::TipoVector3, TipoTokenV::TipoVector3) => true,
        (TipoTokenV::TipoPose, TipoTokenV::TipoPose) => true,
        (TipoTokenV::TipoMano, TipoTokenV::TipoMano) => true,
        (TipoTokenV::TipoControlador, TipoTokenV::TipoControlador) => true,
        (TipoTokenV::Suma, TipoTokenV::Suma) => true,
        (TipoTokenV::Resta, TipoTokenV::Resta) => true,
        (TipoTokenV::Multiplicacion, TipoTokenV::Multiplicacion) => true,
        (TipoTokenV::Division, TipoTokenV::Division) => true,
        (TipoTokenV::Modulo, TipoTokenV::Modulo) => true,
        (TipoTokenV::Asignacion, TipoTokenV::Asignacion) => true,
        (TipoTokenV::Igual, TipoTokenV::Igual) => true,
        (TipoTokenV::Diferente, TipoTokenV::Diferente) => true,
        (TipoTokenV::Menor, TipoTokenV::Menor) => true,
        (TipoTokenV::MenorIgual, TipoTokenV::MenorIgual) => true,
        (TipoTokenV::Mayor, TipoTokenV::Mayor) => true,
        (TipoTokenV::MayorIgual, TipoTokenV::MayorIgual) => true,
        (TipoTokenV::Y, TipoTokenV::Y) => true,
        (TipoTokenV::O, TipoTokenV::O) => true,
        (TipoTokenV::No, TipoTokenV::No) => true,
        (TipoTokenV::ParentesisAbre, TipoTokenV::ParentesisAbre) => true,
        (TipoTokenV::ParentesisCierra, TipoTokenV::ParentesisCierra) => true,
        (TipoTokenV::LlaveAbre, TipoTokenV::LlaveAbre) => true,
        (TipoTokenV::LlaveCierra, TipoTokenV::LlaveCierra) => true,
        (TipoTokenV::Coma, TipoTokenV::Coma) => true,
        (TipoTokenV::DosPuntos, TipoTokenV::DosPuntos) => true,
        (TipoTokenV::Punto, TipoTokenV::Punto) => true,
        (TipoTokenV::NuevaLinea, TipoTokenV::NuevaLinea) => true,
        (TipoTokenV::Eof, TipoTokenV::Eof) => true,
        (TipoTokenV::Numero(_), TipoTokenV::Numero(_)) => true,
        (TipoTokenV::Decimal(_), TipoTokenV::Decimal(_)) => true,
        (TipoTokenV::Texto(_), TipoTokenV::Texto(_)) => true,
        (TipoTokenV::Identificador(_), TipoTokenV::Identificador(_)) => true,
        _ => false,
    }
}

impl TipoToken {
    /// Whether `self` and `otro` are the same variant, whatever value or name they carry.
    pub fn misma_clase(&self, otro: &TipoToken) -> (r: bool)
        ensures
            r == misma_clase(self@, otro@),
    {
        match (self, otro) {
            (TipoToken::Escena, TipoToken::Escena) => true,
            (TipoToken::Mostrar, TipoToken::Mostrar) => true,
            (TipoToken::Var, TipoToken::Var) => true,
            (TipoToken::Constante, TipoToken::Constante) => true,
            (TipoToken::Si, TipoToken::Si) => true,
            (TipoToken::Sino, TipoToken::Sino) => true,
            (TipoToken::Mientras, TipoToken::Mientras) => true,
            (TipoToken::Para, TipoToken::Para) => true,
            (TipoToken::Funcion, TipoToken::Funcion) => true,
            (TipoToken::Retornar, TipoToken::Retornar) => true,
            (TipoToken::Verdadero, TipoToken::Verdadero) => true,
            (TipoToken::Falso, TipoToken::Falso) => true,
            (TipoToken::Cada, TipoToken::Cada) => true,
            (TipoToken::Frame, TipoToken::Frame) => true,
            (TipoToken::Cuando, TipoToken::Cuando) => true,
            (TipoToken::TipoNumero, TipoToken::TipoNumero) => true,
            (TipoToken::TipoDecimal, TipoToken::TipoDecimal) => true,
            (TipoToken::TipoTexto, TipoToken::TipoTexto) => true,
            (TipoToken::TipoBooleano, TipoToken::TipoBooleano) => true,
            (TipoToken::TipoVector3, TipoToken::TipoVector3) => true,
            (TipoToken::TipoPose, TipoToken::TipoPose) => true,
            (TipoToken::TipoMano, TipoToken::TipoMano) => true,
            (TipoToken::TipoControlador, TipoToken::TipoControlador) => true,
            (TipoToken::Suma, TipoToken::Suma) => true,
            (TipoToken::Resta, TipoToken::Resta) => true,
            (TipoToken::Multiplicacion, TipoToken::Multiplicacion) => true,
            (TipoToken::Division, TipoToken::Division) => true,
            (TipoToken::Modulo, TipoToken::Modulo) => true,
            (TipoToken::Asignacion, TipoToken::Asignacion) => true,
            (TipoToken::Igual, TipoToken::Igual) => true,
            (TipoToken::Diferente, TipoToken::Diferente) => true,
            (TipoToken::Menor, TipoToken::Menor) => true,
            (TipoToken::MenorIgual, TipoToken::MenorIgual) => true,
            (TipoToken::Mayor, TipoToken::Mayor) => true,
            (TipoToken::MayorIgual, TipoToken::MayorIgual) => true,
            (TipoToken::Y, TipoToken::Y) => true,
            (TipoToken::O, TipoToken::O) => true,
            (TipoToken::No, TipoToken::No) => true,
            (TipoToken::ParentesisAbre, TipoToken::ParentesisAbre) => true,
            (TipoToken::ParentesisCierra, TipoToken::ParentesisCierra) => true,
            (TipoToken::LlaveAbre, TipoToken::LlaveAbre) => true,
            (TipoToken::LlaveCierra, TipoToken::LlaveCierra) => true,
            (TipoToken::Coma, TipoToken::Coma) => true,
            (TipoToken::DosPuntos, TipoToken::DosPuntos) => true,
            (TipoToken::Punto, TipoToken::Punto) => true,
            (TipoToken::NuevaLinea, TipoToken::NuevaLinea) => true,
            (TipoToken::Eof, TipoToken::Eof) => true,
            (TipoToken::Numero(_), TipoToken::Numero(_)) => true,
            (TipoToken::Decimal(_), TipoToken::Decimal(_)) => true,
            (TipoToken::Texto(_), TipoToken::Texto(_)) => true,
            (TipoToken::Identificador(_), TipoToken::Identificador(_)) => true,
            _ => false,
        }
    }
}

/// A token: its kind, the text it was read from and where that text starts.
#[derive(Debug, PartialEq)]
pub struct Token {
    pub tipo: TipoToken,
    pub lexema: String,
    pub pos: Posicion,
}

/// Model of [`Token`].
pub struct TokenV {
    pub tipo: TipoTokenV,
    pub lexema: Seq<char>,
    pub pos: Posicion,
}

impl View for Token {
    type V = TokenV;

    open spec fn view(&self) -> TokenV {
        TokenV { tipo: self.tipo@, lexema: self.lexema@, pos: self.pos }
    }
}

impl Clone for Token {
    fn clone(&self) -> (r: Self)
        ensures
            r@ == self@,
    {
        Token { tipo: self.tipo.clone(), lexema: self.lexema.clone(), pos: self.pos }
    }
}

impl Token {
    /// A token of kind `tipo`, read from `lexema` at `pos`.
    pub fn new(tipo: TipoToken, lexema: String, pos: Posicion) -> (t: Self)
        ensures
            t.tipo == tipo,
            t.lexema == lexema,
            t.pos == pos,
    {
        Token { tipo, lexema, pos }
    }
}

/// Models of the tokens of a list, in order.
pub open spec fn vista_tokens(v: Seq<Token>) -> Seq<TokenV> {
    Seq::new(v.len(), |i: int| v[i]@)
}

/// Why a source text could not be split into tokens.
#[derive(Debug, PartialEq)]
pub enum ErrorLexico {
    /// A character that starts no token; `!` not followed by `=` is one.
    CaracterInesperado(char, Posicion),
    /// A string literal whose closing quote is missing; the position is that of the opening quote.
    TextoSinTerminar(Posicion),
    /// An integer literal that does not fit in 64 bits.
    EnteroInvalido(String, Posicion),
}

/// Model of [`ErrorLexico`].
pub enum ErrorLexicoV {
    CaracterInesperado(char, Posicion),
    TextoSinTerminar(Posicion),
    EnteroInvalido(Seq<char>, Posicion),
}

impl View for ErrorLexico {
    type V = ErrorLexicoV;

    open spec fn view(&self) -> ErrorLexicoV {
        match self {
            ErrorLexico::CaracterInesperado(c, p) => ErrorLexicoV::CaracterInesperado(*c, *p),
            ErrorLexico::TextoSinTerminar(p) => ErrorLexicoV::TextoSinTerminar(*p),
            ErrorLexico::EnteroInvalido(s, p) => ErrorLexicoV::EnteroInvalido(s@, *p),
        }
    }
}

/// `n`, or the largest `usize` where `n` is beyond it.
pub open spec fn saturar(n: int) -> usize {
    if n > usize::MAX {
        usize::MAX
    } else if n < 0 {
        0
    } else {
        n as usize
    }
}

/// Where the lexer stands: an index into the characters, and the line and column of that index.
pub struct Cursor {
    pub indice: int,
    pub linea: usize,
    pub columna: usize,
}

impl Cursor {
    /// The start of a text: index 0, line 1, column 1.
    pub open spec fn inicial() -> Cursor {
        Cursor { indice: 0, linea: 1, columna: 1 }
    }

    /// The line and column of the cursor.
    pub open spec fn pos(self) -> Posicion {
        Posicion { linea: self.linea, columna: self.columna }
    }

    /// The cursor `k` characters further on the same line.
    pub open spec fn mover(self, k: int) -> Cursor {
        Cursor { indice: self.indice + k, linea: self.linea, columna: saturar(self.columna + k) }
    }

    /// The cursor after a line break: the next index, at column 1 of the next line.
    pub open spec fn salto(self) -> Cursor {
        Cursor { indice: self.indice + 1, linea: saturar(self.linea + 1), columna: 1 }
    }
}

/// Whether `c` is one of the digits `0` to `9`.
pub open spec fn es_digito(c: char) -> bool {
    '0' <= c && c <= '9'
}

/// Whether `c` may start an identifier: an ASCII letter or `_`.
pub open spec fn es_inicial(c: char) -> bool {
    ('a' <= c && c <= 'z') || ('A' <= c && c <= 'Z') || c == '_'
}

/// Whether `c` may continue an identifier: an ASCII letter, a digit or `_`.
pub open spec fn es_continuacion(c: char) -> bool {
    es_inicial(c) || es_digito(c)
}

/// The first index from `i` on that holds a line break, or the length of `s`.
pub open spec fn fin_de_linea(s: Seq<char>, i: int) -> int
    decreases s.len() - i,
{
    if 0 <= i < s.len() && s[i] != '\n' {
        fin_de_linea(s, i + 1)
    } else {
        i
    }
}

/// The first index from `i` on that holds no digit, or the length of `s`.
pub open spec fn fin_de_digitos(s: Seq<char>, i: int) -> int
    decreases s.len() - i,
{
    if 0 <= i < s.len() && es_digito(s[i]) {
        fin_de_digitos(s, i + 1)
    } else {
        i
    }
}

/// The first index from `i` on that cannot continue an identifier, or the length of `s`.
pub open spec fn fin_de_nombre(s: Seq<char>, i: int) -> int
    decreases s.len() - i,
{
    if 0 <= i < s.len() && es_continuacion(s[i]) {
        fin_de_nombre(s, i + 1)
    } else {
        i
    }
}

/// The end of a line lies at or after the index it is sought from, inside the text.
pub proof fn lema_fin_de_linea(s: Seq<char>, i: int)
    requires
        0 <= i <= s.len(),
    ensures
        i <= fin_de_linea(s, i) <= s.len(),
    decreases s.len() - i,
{
    if i < s.len() && s[i] != '\n' {
        lema_fin_de_linea(s, i + 1);
    }
}

/// A run of digits ends at or after its start, inside the text, and holds digits only.
pub proof fn lema_fin_de_digitos(s: Seq<char>, i: int)
    requires
        0 <= i <= s.len(),
    ensures
        i <= fin_de_digitos(s, i) <= s.len(),
        forall|j: int| i <= j < fin_de_digitos(s, i) ==> es_digito(#[trigger] s[j]),
    decreases s.len() - i,
{
    if i < s.len() && es_digito(s[i]) {
        lema_fin_de_digitos(s, i + 1);
    }
}

/// A name ends at or after its start, inside the text.
pub proof fn lema_fin_de_nombre(s: Seq<char>, i: int)
    requires
        0 <= i <= s.len(),
    ensures
        i <= fin_de_nombre(s, i) <= s.len(),
    decreases s.len() - i,
{
    if i < s.len() && es_continuacion(s[i]) {
        lema_fin_de_nombre(s, i + 1);
    }
}

/// The cursor after the blanks, line breaks and `//` comments that start at `c`.
pub open spec fn saltar(s: Seq<char>, c: Cursor) -> Cursor
    decreases s.len() - c.indice,
{
    if 0 <= c.indice < s.len() {
        let x = s[c.indice];
        if x == ' ' || x == '\t' || x == '\r' {
            saltar(s, c.mover(1))
        } else if x == '\n' {
            saltar(s, c.salto())
        } else if x == '/' && c.indice + 1 < s.len() && s[c.indice + 1] == '/' {
            proof {
                lema_fin_de_linea(s, c.indice + 1);
            }
            saltar(s, c.mover(fin_de_linea(s, c.indice + 1) - c.indice))
        } else {
            c
        }
    } else {
        c
    }
}

/// Skipping blanks and comments moves the cursor forward, inside the text.
pub proof fn lema_saltar(s: Seq<char>, c: Cursor)
    requires
        0 <= c.indice <= s.len(),
    ensures
        c.indice <= saltar(s, c).indice <= s.len(),
    decreases s.len() - c.indice,
{
    if c.indice < s.len() {
        let x = s[c.indice];
        if x == ' ' || x == '\t' || x == '\r' {
            lema_saltar(s, c.mover(1));
        } else if x == '\n' {
            lema_saltar(s, c.salto());
        } else if x == '/' && c.indice + 1 < s.len() && s[c.indice + 1] == '/' {
            lema_fin_de_linea(s, c.indice + 1);
            lema_saltar(s, c.mover(fin_de_linea(s, c.indice + 1) - c.indice));
        }
    }
}

/// The number that the digits `d` write in base ten.
pub open spec fn valor_de_digitos(d: Seq<char>) -> nat
    decreases d.len(),
{
    if d.len() == 0 {
        0
    } else {
        (valor_de_digitos(d.drop_last()) * 10 + (d.last() as int - '0' as int)) as nat
    }
}

/// What the escape `\c` stands for inside a string literal: one character for
/// `n`, `t`, `\` and `"`, and the two characters as written for any other.
pub open spec fn escape(c: char) -> Seq<char> {
    if c == 'n' {
        seq!['\n']
    } else if c == 't' {
        seq!['\t']
    } else if c == '\\' {
        seq!['\\']
    } else if c == '"' {
        seq!['"']
    } else {
        seq!['\\', c]
    }
}

/// Reads the rest of a string literal from index `i`, after `acc` has been read:
/// the literal's value and the index after its closing quote, or `None` where
/// the text ends first.
pub open spec fn leer_texto(s: Seq<char>, i: int, acc: Seq<char>) -> Option<(Seq<char>, int)>
    decreases s.len() - i,
{
    if !(0 <= i < s.len()) {
        None
    } else if s[i] == '"' {
        Some((acc, i + 1))
    } else if s[i] == '\\' {
        if i + 1 < s.len() {
            leer_texto(s, i + 2, acc + escape(s[i + 1]))
        } else {
            None
        }
    } else {
        leer_texto(s, i + 1, acc.push(s[i]))
    }
}

/// A string literal that is closed ends after the index it is read from, inside the text.
pub proof fn lema_leer_texto(s: Seq<char>, i: int, acc: Seq<char>)
    requires
        0 <= i <= s.len(),
    ensures
        leer_texto(s, i, acc) is Some ==> i < leer_texto(s, i, acc).unwrap().1 <= s.len(),
    decreases s.len() - i,
{
    if i < s.len() && s[i] != '"' {
        if s[i] == '\\' {
            if i + 1 < s.len() {
                lema_leer_texto(s, i + 2, acc + escape(s[i + 1]));
            }
        } else {
            lema_leer_texto(s, i + 1, acc.push(s[i]));
        }
    }
}

/// The kind of token that the word `id` is: a keyword, a type name, one of the
/// operators `y`, `o`, `no`, or else an identifier.
pub open spec fn palabra(id: Seq<char>) -> TipoTokenV {
    if id == "escena"@ {
        TipoTokenV::Escena
    } else if id == "mostrar"@ {
        TipoTokenV::Mostrar
    } else if id == "var"@ {
        TipoTokenV::Var
    } else if id == "constante"@ {
        TipoTokenV::Constante
    } else if id == "si"@ {
        TipoTokenV::Si
    } else if id == "sino"@ {
        TipoTokenV::Sino
    } else if id == "mientras"@ {
        TipoTokenV::Mientras
    } else if id == "para"@ {
        TipoTokenV::Para
    } else if id == "funcion"@ {
        TipoTokenV::Funcion
    } else if id == "retornar"@ {
        TipoTokenV::Retornar
    } else if id == "verdadero"@ {
        TipoTokenV::Verdadero
    } else if id == "falso"@ {
        TipoTokenV::Falso
    } else if id == "cada"@ {
        TipoTokenV::Cada
    } else if id == "frame"@ {
        TipoTokenV::Frame
    } else if id == "cuando"@ {
        TipoTokenV::Cuando
    } else if id == "y"@ {
        TipoTokenV::Y
    } else if id == "o"@ {
        TipoTokenV::O
    } else if id == "no"@ {
        TipoTokenV::No
    } else if id == "numero"@ {
        TipoTokenV::TipoNumero
    } else if id == "decimal"@ {
        TipoTokenV::TipoDecimal
    } else if id == "texto"@ {
        TipoTokenV::TipoTexto
    } else if id == "booleano"@ {
        TipoTokenV::TipoBooleano
    } else if id == "vector3"@ {
        TipoTokenV::TipoVector3
    } else if id == "pose"@ {
        TipoTokenV::TipoPose
    } else if id == "mano"@ {
        TipoTokenV::TipoMano
    } else if id == "controlador"@ {
        TipoTokenV::TipoControlador
    } else {
        TipoTokenV::Identificador(id)
    }
}

/// The token of one or two punctuation characters that starts with `x`, where
/// `y` is the character after it, if any: its kind and its length.
pub open spec fn signo(x: char, y: Option<char>) -> Option<(TipoTokenV, int)> {
    if x == '+' {
        Some((TipoTokenV::Suma, 1))
    } else if x == '-' {
        Some((TipoTokenV::Resta, 1))
    } else if x == '*' {
        Some((TipoTokenV::Multiplicacion, 1))
    } else if x == '/' {
        Some((TipoTokenV::Division, 1))
    } else if x == '%' {
        Some((TipoTokenV::Modulo, 1))
    } else if x == '(' {
        Some((TipoTokenV::ParentesisAbre, 1))
    } else if x == ')' {
        Some((TipoTokenV::ParentesisCierra, 1))
    } else if x == '{' {
        Some((TipoTokenV::LlaveAbre, 1))
    } else if x == '}' {
        Some((TipoTokenV::LlaveCierra, 1))
    } else if x == ',' {
        Some((TipoTokenV::Coma, 1))
    } else if x == ':' {
        Some((TipoTokenV::DosPuntos, 1))
    } else if x == '.' {
        Some((TipoTokenV::Punto, 1))
    } else if x == '=' {
        if y == Some('=') {
            Some((TipoTokenV::Igual, 2))
        } else {
            Some((TipoTokenV::Asignacion, 1))
        }
    } else if x == '!' {
        if y == Some('=') {
            Some((TipoTokenV::Diferente, 2))
        } else {
            None
        }
    } else if x == '<' {
        if y == Some('=') {
            Some((TipoTokenV::MenorIgual, 2))
        } else {
            Some((TipoTokenV::Menor, 1))
        }
    } else if x == '>' {
        if y == Some('=') {
            Some((TipoTokenV::MayorIgual, 2))
        } else {
            Some((TipoTokenV::Mayor, 1))
        }
    } else {
        None
    }
}

/// The character of `s` at index `i`, if there is one.
pub open spec fn caracter_en(s: Seq<char>, i: int) -> Option<char> {
    if 0 <= i < s.len() {
        Some(s[i])
    } else {
        None
    }
}

/// The token that starts at `c`, which stands on a character that is neither
/// blank nor the start of a comment, and the cursor after it.
pub open spec fn token_en(s: Seq<char>, c: Cursor) -> Result<(TokenV, Cursor), ErrorLexicoV>
    recommends
        0 <= c.indice < s.len(),
{
    let i = c.indice;
    let x = s[i];
    if x == '"' {
        match leer_texto(s, i + 1, Seq::empty()) {
            Some((valor, j)) => Ok(
                (
                    TokenV {
                        tipo: TipoTokenV::Texto(valor),
                        lexema: seq!['"'] + valor + seq!['"'],
                        pos: c.pos(),
                    },
                    c.mover(j - i),
                ),
            ),
            None => Err(ErrorLexicoV::TextoSinTerminar(c.pos())),
        }
    } else if es_digito(x) {
        let k = fin_de_digitos(s, i);
        if k + 1 < s.len() && s[k] == '.' && es_digito(s[k + 1]) {
            let m = fin_de_digitos(s, k + 1);
            let lexema = s.subrange(i, m);
            Ok((TokenV { tipo: TipoTokenV::Decimal(lexema), lexema, pos: c.pos() }, c.mover(m - i)))
        } else {
            let lexema = s.subrange(i, k);
            if valor_de_digitos(lexema) <= i64::MAX {
                Ok(
                    (
                        TokenV {
                            tipo: TipoTokenV::Numero(valor_de_digitos(lexema) as i64),
                            lexema,
                            pos: c.pos(),
                        },
                        c.mover(k - i),
                    ),
                )
            } else {
                Err(ErrorLexicoV::EnteroInvalido(lexema, c.pos()))
            }
        }
    } else if es_inicial(x) {
        let k = fin_de_nombre(s, i);
        let lexema = s.subrange(i, k);
        Ok((TokenV { tipo: palabra(lexema), lexema, pos: c.pos() }, c.mover(k - i)))
    } else {
        match signo(x, caracter_en(s, i + 1)) {
            Some((tipo, n)) => Ok(
                (TokenV { tipo, lexema: s.subrange(i, i + n), pos: c.pos() }, c.mover(n)),
            ),
            None => Err(ErrorLexicoV::CaracterInesperado(x, c.pos())),
        }
    }
}

/// A successful token ends after it starts and inside the text, leaves the
/// cursor on the same line, and is never the end marker.
pub proof fn lema_token_en(s: Seq<char>, c: Cursor)
    requires
        0 <= c.indice < s.len(),
    ensures
        match token_en(s, c) {
            Ok((t, d)) => c.indice < d.indice <= s.len() && d == c.mover(d.indice - c.indice) && !(t.tipo
                is Eof) && t.pos == c.pos(),
            Err(_) => true,
        },
{
    let i = c.indice;
    let x = s[i];
    lema_leer_texto(s, i + 1, Seq::empty());
    lema_fin_de_digitos(s, i);
    lema_fin_de_nombre(s, i);
    if es_digito(x) {
        let k = fin_de_digitos(s, i);
        lema_fin_de_digitos(s, i + 1);
        assert(k > i);
        if k + 1 < s.len() {
            lema_fin_de_digitos(s, k + 1);
        }
    } else if es_inicial(x) {
        lema_fin_de_nombre(s, i + 1);
        assert(fin_de_nombre(s, i) > i);
        lema_palabra_no_es_fin(s.subrange(i, fin_de_nombre(s, i)));
    }
}

/// No word is the end marker.
pub proof fn lema_palabra_no_es_fin(id: Seq<char>)
    ensures
        !(palabra(id) is Eof),
{
}

/// The tokens of `s` from `c` on, closed by the end marker, or the first error.
pub open spec fn tokens_desde(s: Seq<char>, c: Cursor) -> Result<Seq<TokenV>, ErrorLexicoV>
    decreases s.len() - c.indice,
{
    if 0 <= c.indice <= s.len() {
        let d = saltar(s, c);
        if d.indice >= s.len() {
            Ok(seq![TokenV { tipo: TipoTokenV::Eof, lexema: Seq::empty(), pos: d.pos() }])
        } else {
            match token_en(s, d) {
                Ok((t, e)) => {
                    proof {
                        lema_saltar(s, c);
                        lema_token_en(s, d);
                    }
                    match tokens_desde(s, e) {
                        Ok(resto) => Ok(seq![t] + resto),
                        Err(error) => Err(error),
                    }
                },
                Err(error) => Err(error),
            }
        }
    } else {
        Ok(seq![TokenV { tipo: TipoTokenV::Eof, lexema: Seq::empty(), pos: c.pos() }])
    }
}

/// The tokens of the source text `s`.
pub open spec fn tokens_de(s: Seq<char>) -> Result<Seq<TokenV>, ErrorLexicoV> {
    tokens_desde(s, Cursor::inicial())
}

/// A token stream holds the end marker once, as its last token.
pub open spec fn termina_en_fin(t: Seq<TokenV>) -> bool {
    &&& t.len() > 0
    &&& t.last().tipo is Eof
    &&& forall|i: int| 0 <= i < t.len() - 1 ==> !((#[trigger] t[i]).tipo is Eof)
}

/// Every token stream that lexing produces ends with the end marker and holds
/// no other.
pub proof fn lema_tokens_terminan_en_fin(s: Seq<char>, c: Cursor)
    ensures
        tokens_desde(s, c) is Ok ==> termina_en_fin(tokens_desde(s, c)->Ok_0),
    decreases s.len() - c.indice,
{
    if 0 <= c.indice <= s.len() {
        let d = saltar(s, c);
        lema_saltar(s, c);
        if d.indice < s.len() {
            lema_token_en(s, d);
            match token_en(s, d) {
                Ok((t, e)) => {
                    lema_tokens_terminan_en_fin(s, e);
                    match tokens_desde(s, e) {
                        Ok(resto) => {
                            let r = seq![t] + resto;
                            assert(r.last() == resto.last());
                            assert forall|i: int| 0 <= i < r.len() - 1 implies !((#[trigger] r[i]).tipo is Eof) by {
                                if i > 0 {
                                    assert(r[i] == resto[i - 1]);
                                }
                            }
                        },
                        Err(_) => {},
                    }
                },
                Err(_) => {},
            }
        }
    }
}

/// Whether the position `a` is `b` or comes before it in the text.
pub open spec fn no_despues(a: Posicion, b: Posicion) -> bool {
    a.linea < b.linea || (a.linea == b.linea && a.columna <= b.columna)
}

/// Whether each token of the stream stands where the one before it does, or after it.
pub open spec fn en_orden(t: Seq<TokenV>) -> bool {
    forall|i: int, j: int| 0 <= i <= j < t.len() ==> no_despues(#[trigger] t[i].pos, #[trigger] t[j].pos)
}

/// Whether the line and the column of the cursor are within what its index
/// allows, in a text short enough for neither to reach the largest number.
pub open spec fn cursor_cabal(s: Seq<char>, c: Cursor) -> bool {
    &&& 0 <= c.indice <= s.len()
    &&& s.len() < usize::MAX
    &&& 1 <= c.linea <= c.indice + 1
    &&& 1 <= c.columna <= c.indice + 1
}

/// Skipping blanks and comments never moves the cursor back.
pub proof fn lema_saltar_en_orden(s: Seq<char>, c: Cursor)
    requires
        cursor_cabal(s, c),
    ensures
        cursor_cabal(s, saltar(s, c)),
        no_despues(c.pos(), saltar(s, c).pos()),
    decreases s.len() - c.indice,
{
    if c.indice < s.len() {
        let x = s[c.indice];
        if x == ' ' || x == '\t' || x == '\r' {
            lema_saltar_en_orden(s, c.mover(1));
        } else if x == '\n' {
            lema_saltar_en_orden(s, c.salto());
        } else if x == '/' && c.indice + 1 < s.len() && s[c.indice + 1] == '/' {
            lema_fin_de_linea(s, c.indice + 1);
            lema_saltar_en_orden(s, c.mover(fin_de_linea(s, c.indice + 1) - c.indice));
        }
    }
}

/// In a text shorter than the largest number, the tokens come in the order
/// of the text: none stands before the one that precedes it.
pub proof fn lema_tokens_en_orden(s: Seq<char>, c: Cursor)
    requires
        cursor_cabal(s, c),
    ensures
        match tokens_desde(s, c) {
            Ok(t) => en_orden(t) && t.len() > 0 && no_despues(c.pos(), t[0].pos),
            Err(_) => true,
        },
    decreases s.len() - c.indice,
{
    let d = saltar(s, c);
    lema_saltar(s, c);
    lema_saltar_en_orden(s, c);
    if d.indice < s.len() {
        lema_token_en(s, d);
        match token_en(s, d) {
            Ok((t, e)) => {
                lema_tokens_en_orden(s, e);
                match tokens_desde(s, e) {
                    Ok(resto) => {
                        let r = seq![t] + resto;
                        assert(no_despues(d.pos(), e.pos()));
                        assert forall|i: int, j: int| 0 <= i <= j < r.len() implies no_despues(
                            #[trigger] r[i].pos,
                            #[trigger] r[j].pos,
                        ) by {
                            if i > 0 {
                                assert(r[i] == resto[i - 1]);
                                assert(r[j] == resto[j - 1]);
                            } else if j > 0 {
                                assert(r[j] == resto[j - 1]);
                                assert(no_despues(resto[0].pos, resto[j - 1].pos));
                            }
                        }
                    },
                    Err(_) => {},
                }
            },
            Err(_) => {},
        }
    }
}

/// Puts the tokens `pre` before the outcome `r`.
pub open spec fn anteponer(pre: Seq<TokenV>, r: Result<Seq<TokenV>, ErrorLexicoV>) -> Result<
    Seq<TokenV>,
    ErrorLexicoV,
> {
    match r {
        Ok(resto) => Ok(pre + resto),
        Err(e) => Err(e),
    }
}

/// Whether the characters `v[desde..hasta]` spell `palabra`.
fn coincide(v: &Vec<char>, desde: usize, hasta: usize, palabra: &str) -> (r: bool)
    requires
        desde <= hasta <= v.len(),
    ensures
        r == (v@.subrange(desde as int, hasta as int) == palabra@),
{
    let n: usize = palabra.unicode_len();
    if n != hasta - desde {
        return false;
    }
    let mut j: usize = 0;
    while j < n
        invariant
            desde <= hasta <= v.len(),
            n == hasta - desde,
            n == palabra@.len(),
            j <= n,
            forall|k: int| 0 <= k < j ==> v@[desde + k] == palabra@[k],
        decreases n - j,
    {
        if palabra.get_char(j) != v[desde + j] {
            assert(v@.subrange(desde as int, hasta as int)[j as int] != palabra@[j as int]);
            return false;
        }
        j += 1;
    }
    assert(v@.subrange(desde as int, hasta as int) =~= palabra@);
    true
}

fn digito_en(c: char) -> (r: bool)
    ensures
        r == es_digito(c),
{
    '0' <= c && c <= '9'
}

fn inicial_en(c: char) -> (r: bool)
    ensures
        r == es_inicial(c),
{
    ('a' <= c && c <= 'z') || ('A' <= c && c <= 'Z') || c == '_'
}

/// The lexer: the characters of a source text and a cursor into them.
pub struct Lexer {
    entrada: Vec<char>,
    posicion: usize,
    linea: usize,
    columna: usize,
}

impl Lexer {
    #[verifier::type_invariant]
    spec fn en_rango(self) -> bool {
        self.posicion <= self.entrada.len()
    }

    /// The characters being read.
    pub closed spec fn fuente(&self) -> Seq<char> {
        self.entrada@
    }

    /// Where the lexer stands.
    pub closed spec fn cursor(&self) -> Cursor {
        Cursor { indice: self.posicion as int, linea: self.linea, columna: self.columna }
    }

    /// A lexer at the start of `entrada`.
    pub fn new(entrada: &str) -> (l: Self)
        ensures
            l.fuente() == entrada@,
            l.cursor() == Cursor::inicial(),
    {
        Lexer { entrada: caracteres(entrada), posicion: 0, linea: 1, columna: 1 }
    }

    /// Whether every character has been read.
    pub fn fin(&self) -> (b: bool)
        ensures
            b == (self.cursor().indice >= self.fuente().len()),
            0 <= self.cursor().indice <= self.fuente().len(),
    {
        proof {
            use_type_invariant(self);
        }
        self.posicion >= self.entrada.len()
    }

    /// The character under the cursor.
    pub fn actual(&self) -> (c: char)
        requires
            self.cursor().indice < self.fuente().len(),
        ensures
            c == self.fuente()[self.cursor().indice],
    {
        self.entrada[self.posicion]
    }

    /// The character after the one under the cursor, if there is one.
    pub fn siguiente(&self) -> (r: Option<char>)
        ensures
            r == caracter_en(self.fuente(), self.cursor().indice + 1),
    {
        proof {
            use_type_invariant(self);
        }
        if self.posicion < self.entrada.len() && self.posicion + 1 < self.entrada.len() {
            Some(self.entrada[self.posicion + 1])
        } else {
            None
        }
    }

    /// Steps over one character, unless the text has ended.
    pub fn avanzar(&mut self)
        ensures
            final(self).fuente() == old(self).fuente(),
            final(self).cursor() == if old(self).cursor().indice < old(self).fuente().len() {
                old(self).cursor().mover(1)
            } else {
                old(self).cursor()
            },
    {
        proof {
            use_type_invariant(&*self);
        }
        if self.posicion < self.entrada.len() {
            self.posicion += 1;
            self.columna = self.columna.saturating_add(1);
        }
    }

    /// Steps over the character under the cursor if it is `esperado`, and says whether it did.
    pub fn coincidir(&mut self, esperado: char) -> (b: bool)
        ensures
            final(self).fuente() == old(self).fuente(),
            b == (caracter_en(old(self).fuente(), old(self).cursor().indice) == Some(esperado)),
            final(self).cursor() == if b {
                old(self).cursor().mover(1)
            } else {
                old(self).cursor()
            },
    {
        if self.fin() || self.actual() != esperado {
            false
        } else {
            self.avanzar();
            true
        }
    }

    /// The line and column of the cursor.
    pub fn posicion_actual(&self) -> (p: Posicion)
        ensures
            p == self.cursor().pos(),
    {
        Posicion::new(self.linea, self.columna)
    }

    /// Moves the cursor to index `j` of the same line.
    fn mover_a(&mut self, j: usize)
        requires
            old(self).cursor().indice <= j <= old(self).fuente().len(),
        ensures
            final(self).fuente() == old(self).fuente(),
            final(self).cursor() == old(self).cursor().mover(j - old(self).cursor().indice),
    {
        let k: usize = j - self.posicion;
        self.posicion = j;
        self.columna = self.columna.saturating_add(k);
    }

    /// Steps over blanks, line breaks and `//` comments.
    pub fn saltar_espacios_y_comentarios(&mut self)
        ensures
            final(self).fuente() == old(self).fuente(),
            final(self).cursor() == saltar(old(self).fuente(), old(self).cursor()),
    {
        proof {
            use_type_invariant(&*self);
        }
        loop
            invariant
                self.fuente() == old(self).fuente(),
                0 <= self.cursor().indice <= self.fuente().len(),
                saltar(self.fuente(), self.cursor()) == saltar(old(self).fuente(), old(self).cursor()),
            ensures
                self.fuente() == old(self).fuente(),
                self.cursor() == saltar(old(self).fuente(), old(self).cursor()),
            decreases self.fuente().len() - self.cursor().indice,
        {
            proof {
                use_type_invariant(&*self);
            }
            if self.fin() {
                break;
            }
            let c: char = self.actual();
            if c == ' ' || c == '\t' || c == '\r' {
                self.avanzar();
            } else if c == '\n' {
                self.posicion += 1;
                self.linea = self.linea.saturating_add(1);
                self.columna = 1;
            } else if c == '/' && self.siguiente() == Some('/') {
                let mut j: usize = self.posicion + 1;
                while j < self.entrada.len() && self.entrada[j] != '\n'
                    invariant
                        self.posicion < j <= self.entrada.len(),
                        fin_de_linea(self.entrada@, j as int) == fin_de_linea(
                            self.entrada@,
                            self.posicion + 1,
                        ),
                    decreases self.entrada.len() - j,
                {
                    j += 1;
                }
                self.mover_a(j);
            } else {
                break;
            }
        }
    }

    /// Reads a string literal, whose opening quote is under the cursor.
    pub fn leer_string(&mut self) -> (r: Result<Token, ErrorLexico>)
        requires
            old(self).cursor().indice < old(self).fuente().len(),
            old(self).fuente()[old(self).cursor().indice] == '"',
        ensures
            final(self).fuente() == old(self).fuente(),
            lee(r, *final(self), token_en(old(self).fuente(), old(self).cursor())),
    {
        proof {
            use_type_invariant(&*self);
        }
        let pos = self.posicion_actual();
        let mut valor = String::new();
        let mut j: usize = self.posicion + 1;
        let n: usize = self.entrada.len();
        while j < n && self.entrada[j] != '"'
            invariant
                *self == *old(self),
                pos == self.cursor().pos(),
                self.entrada@[self.posicion as int] == '"',
                n == self.entrada.len(),
                self.posicion < j <= n,
                leer_texto(self.entrada@, j as int, valor@) == leer_texto(
                    self.entrada@,
                    self.posicion + 1,
                    Seq::empty(),
                ),
            decreases n - j,
        {
            let c: char = self.entrada[j];
            let ghost antes = valor@;
            if c == '\\' {
                if j + 1 >= n {
                    return Err(ErrorLexico::TextoSinTerminar(pos));
                }
                let e: char = self.entrada[j + 1];
                if e == 'n' {
                    agregar_caracter(&mut valor, '\n');
                } else if e == 't' {
                    agregar_caracter(&mut valor, '\t');
                } else if e == '\\' {
                    agregar_caracter(&mut valor, '\\');
                } else if e == '"' {
                    agregar_caracter(&mut valor, '"');
                } else {
                    agregar_caracter(&mut valor, '\\');
                    agregar_caracter(&mut valor, e);
                }
                assert(valor@ =~= antes + escape(e));
                j += 2;
            } else {
                agregar_caracter(&mut valor, c);
                j += 1;
            }
        }
        if j >= n {
            return Err(ErrorLexico::TextoSinTerminar(pos));
        }
        let mut lexema = String::new();
        agregar_caracter(&mut lexema, '"');
        lexema.append(valor.as_str());
        agregar_caracter(&mut lexema, '"');
        assert(lexema@ =~= seq!['"'] + valor@ + seq!['"']);
        self.mover_a(j + 1);
        Ok(Token::new(TipoToken::Texto(valor), lexema, pos))
    }

    /// Reads an integer or decimal literal, whose first digit is under the cursor.
    pub fn leer_numero(&mut self) -> (r: Result<Token, ErrorLexico>)
        requires
            old(self).cursor().indice < old(self).fuente().len(),
            es_digito(old(self).fuente()[old(self).cursor().indice]),
        ensures
            final(self).fuente() == old(self).fuente(),
            lee(r, *final(self), token_en(old(self).fuente(), old(self).cursor())),
    {
        proof {
            use_type_invariant(&*self);
        }
        let pos = self.posicion_actual();
        let i: usize = self.posicion;
        let n: usize = self.entrada.len();
        let k: usize = self.fin_digitos(i);
        if k < n && self.entrada[k] == '.' && k + 1 < n && digito_en(self.entrada[k + 1]) {
            let m: usize = self.fin_digitos(k + 1);
            let lexema = texto_de(&self.entrada, i, m);
            let valor = lexema.clone();
            self.mover_a(m);
            Ok(Token::new(TipoToken::Decimal(valor), lexema, pos))
        } else {
            let lexema = texto_de(&self.entrada, i, k);
            let mut valor: u64 = 0;
            let mut j: usize = i;
            while j < k
                invariant
                    i <= j <= k <= self.entrada.len(),
                    forall|t: int| i <= t < k ==> es_digito(#[trigger] self.entrada@[t]),
                    valor == valor_de_digitos(self.entrada@.subrange(i as int, j as int)),
                    valor <= i64::MAX,
                ensures
                    j == k ==> valor == valor_de_digitos(self.entrada@.subrange(i as int, k as int)),
                    j < k ==> valor_de_digitos(self.entrada@.subrange(i as int, k as int)) > i64::MAX,
                    valor <= i64::MAX,
                    j <= k,
                decreases k - j,
            {
                let d: u64 = (self.entrada[j] as u8 - 48u8) as u64;
                proof {
                    let antes = self.entrada@.subrange(i as int, j as int);
                    let ahora = self.entrada@.subrange(i as int, j + 1);
                    assert(ahora.drop_last() =~= antes);
                    assert(ahora.last() == self.entrada@[j as int]);
                    assert(valor_de_digitos(ahora) == valor * 10 + d);
                }
                if valor > (9223372036854775807u64 - d) / 10 {
                    proof {
                        lema_valor_crece(self.entrada@, i as int, j + 1, k as int);
                    }
                    break;
                }
                valor = valor * 10 + d;
                j += 1;
            }
            if j < k {
                return Err(ErrorLexico::EnteroInvalido(lexema, pos));
            }
            self.mover_a(k);
            Ok(Token::new(TipoToken::Numero(valor as i64), lexema, pos))
        }
    }

    /// The first index from `i` on that holds no digit.
    fn fin_digitos(&self, i: usize) -> (k: usize)
        requires
            i <= self.fuente().len(),
        ensures
            k == fin_de_digitos(self.fuente(), i as int),
            i <= k <= self.fuente().len(),
            forall|t: int| i <= t < k ==> es_digito(#[trigger] self.fuente()[t]),
    {
        let mut k: usize = i;
        proof {
            lema_fin_de_digitos(self.entrada@, i as int);
        }
        while k < self.entrada.len() && digito_en(self.entrada[k])
            invariant
                i <= k <= self.entrada.len(),
                fin_de_digitos(self.entrada@, k as int) == fin_de_digitos(self.entrada@, i as int),
            decreases self.entrada.len() - k,
        {
            k += 1;
        }
        k
    }

    /// Reads an identifier or a reserved word, whose first character is under the cursor.
    pub fn leer_identificador(&mut self) -> (r: Result<Token, ErrorLexico>)
        requires
            old(self).cursor().indice < old(self).fuente().len(),
            es_inicial(old(self).fuente()[old(self).cursor().indice]),
        ensures
            final(self).fuente() == old(self).fuente(),
            lee(r, *final(self), token_en(old(self).fuente(), old(self).cursor())),
            r is Ok,
    {
        proof {
            use_type_invariant(&*self);
        }
        let pos = self.posicion_actual();
        let i: usize = self.posicion;
        let mut k: usize = i;
        while k < self.entrada.len() && (inicial_en(self.entrada[k]) || digito_en(self.entrada[k]))
            invariant
                i <= k <= self.entrada.len(),
                fin_de_nombre(self.entrada@, k as int) == fin_de_nombre(self.entrada@, i as int),
            decreases self.entrada.len() - k,
        {
            k += 1;
        }
        let lexema = texto_de(&self.entrada, i, k);
        let tipo = if coincide(&self.entrada, i, k, "escena") {
            TipoToken::Escena
        } else if coincide(&self.entrada, i, k, "mostrar") {
            TipoToken::Mostrar
        } else if coincide(&self.entrada, i, k, "var") {
            TipoToken::Var
        } else if coincide(&self.entrada, i, k, "constante") {
            TipoToken::Constante
        } else if coincide(&self.entrada, i, k, "si") {
            TipoToken::Si
        } else if coincide(&self.entrada, i, k, "sino") {
            TipoToken::Sino
        } else if coincide(&self.entrada, i, k, "mientras") {
            TipoToken::Mientras
        } else if coincide(&self.entrada, i, k, "para") {
            TipoToken::Para
        } else if coincide(&self.entrada, i, k, "funcion") {
            TipoToken::Funcion
        } else if coincide(&self.entrada, i, k, "retornar") {
            TipoToken::Retornar
        } else if coincide(&self.entrada, i, k, "verdadero") {
            TipoToken::Verdadero
        } else if coincide(&self.entrada, i, k, "falso") {
            TipoToken::Falso
        } else if coincide(&self.entrada, i, k, "cada") {
            TipoToken::Cada
        } else if coincide(&self.entrada, i, k, "frame") {
            TipoToken::Frame
        } else if coincide(&self.entrada, i, k, "cuando") {
            TipoToken::Cuando
        } else if coincide(&self.entrada, i, k, "y") {
            TipoToken::Y
        } else if coincide(&self.entrada, i, k, "o") {
            TipoToken::O
        } else if coincide(&self.entrada, i, k, "no") {
            TipoToken::No
        } else if coincide(&self.entrada, i, k, "numero") {
            TipoToken::TipoNumero
        } else if coincide(&self.entrada, i, k, "decimal") {
            TipoToken::TipoDecimal
        } else if coincide(&self.entrada, i, k, "texto") {
            TipoToken::TipoTexto
        } else if coincide(&self.entrada, i, k, "booleano") {
            TipoToken::TipoBooleano
        } else if coincide(&self.entrada, i, k, "vector3") {
            TipoToken::TipoVector3
        } else if coincide(&self.entrada, i, k, "pose") {
            TipoToken::TipoPose
        } else if coincide(&self.entrada, i, k, "mano") {
            TipoToken::TipoMano
        } else if coincide(&self.entrada, i, k, "controlador") {
            TipoToken::TipoControlador
        } else {
            TipoToken::Identificador(lexema.clone())
        };
        self.mover_a(k);
        Ok(Token::new(tipo, lexema, pos))
    }

    /// Reads the token that starts under the cursor.
    pub fn siguiente_token(&mut self) -> (r: Result<Token, ErrorLexico>)
        requires
            old(self).cursor().indice < old(self).fuente().len(),
        ensures
            final(self).fuente() == old(self).fuente(),
            lee(r, *final(self), token_en(old(self).fuente(), old(self).cursor())),
    {
        proof {
            use_type_invariant(&*self);
        }
        let pos = self.posicion_actual();
        let c: char = self.actual();
        if c == '"' {
            self.leer_string()
        } else if digito_en(c) {
            self.leer_numero()
        } else if inicial_en(c) {
            self.leer_identificador()
        } else {
            match signo_en(c, self.siguiente()) {
                Some((tipo, n)) => {
                    let i: usize = self.posicion;
                    let lexema = texto_de(&self.entrada, i, i + n);
                    self.mover_a(i + n);
                    Ok(Token::new(tipo, lexema, pos))
                },
                None => Err(ErrorLexico::CaracterInesperado(c, pos)),
            }
        }
    }

    /// Splits the rest of the text into tokens, the end marker last.
    ///
    /// The result is the token stream of the text from the cursor on, or the
    /// first lexical error in it. A stream that is returned holds the end
    /// marker exactly once, as its last token.
    pub fn tokenizar(&mut self) -> (r: Result<Vec<Token>, ErrorLexico>)
        ensures
            final(self).fuente() == old(self).fuente(),
            match tokens_desde(old(self).fuente(), old(self).cursor()) {
                Ok(t) => r is Ok && vista_tokens(r->Ok_0@) == t,
                Err(e) => r is Err && r->Err_0@ == e,
            },
            r is Ok ==> termina_en_fin(vista_tokens(r->Ok_0@)),
    {
        let mut tokens: Vec<Token> = Vec::new();
        proof {
            use_type_invariant(&*self);
            lema_tokens_terminan_en_fin(self.fuente(), self.cursor());
            assert(vista_tokens(tokens@) =~= Seq::empty());
            assert(anteponer(Seq::empty(), tokens_desde(self.fuente(), self.cursor())) == tokens_desde(self.fuente(), self.cursor())) by {
                match tokens_desde(self.fuente(), self.cursor()) {
                    Ok(t) => {
                        assert(Seq::<TokenV>::empty() + t =~= t);
                    },
                    Err(_) => {},
                }
            }
        }
        loop
            invariant
                self.fuente() == old(self).fuente(),
                0 <= self.cursor().indice <= self.fuente().len(),
                anteponer(vista_tokens(tokens@), tokens_desde(self.fuente(), self.cursor()))
                    == tokens_desde(old(self).fuente(), old(self).cursor()),
                tokens_desde(old(self).fuente(), old(self).cursor()) is Ok ==> termina_en_fin(
                    tokens_desde(old(self).fuente(), old(self).cursor())->Ok_0,
                ),
            decreases self.fuente().len() - self.cursor().indice,
        {
            let ghost c0 = self.cursor();
            let ghost antes = vista_tokens(tokens@);
            proof {
                lema_saltar(self.fuente(), c0);
            }
            self.saltar_espacios_y_comentarios();
            if self.fin() {
                tokens.push(Token::new(TipoToken::Eof, String::new(), self.posicion_actual()));
                proof {
                    assert(vista_tokens(tokens@) =~= antes + seq![
                        TokenV { tipo: TipoTokenV::Eof, lexema: Seq::empty(), pos: self.cursor().pos() },
                    ]);
                }
                return Ok(tokens);
            }
            proof {
                lema_token_en(self.fuente(), self.cursor());
            }
            match self.siguiente_token() {
                Ok(token) => {
                    let ghost t = token@;
                    tokens.push(token);
                    proof {
                        assert(vista_tokens(tokens@) =~= antes.push(t));
                        match tokens_desde(self.fuente(), self.cursor()) {
                            Ok(resto) => {
                                assert(antes.push(t) + resto =~= antes + (seq![t] + resto));
                            },
                            Err(_) => {},
                        }
                    }
                },
                Err(e) => {
                    return Err(e);
                },
            }
        }
    }
}

/// Whether the outcome `r` of reading one token, with the lexer left as `l`,
/// is the outcome `esperado`.
pub open spec fn lee(
    r: Result<Token, ErrorLexico>,
    l: Lexer,
    esperado: Result<(TokenV, Cursor), ErrorLexicoV>,
) -> bool {
    match esperado {
        Ok((t, c)) => r is Ok && r->Ok_0@ == t && l.cursor() == c,
        Err(e) => r is Err && r->Err_0@ == e,
    }
}

/// The punctuation token that starts with `x`, where `y` is the character after it.
fn signo_en(x: char, y: Option<char>) -> (r: Option<(TipoToken, usize)>)
    ensures
        match signo(x, y) {
            Some((t, n)) => r is Some && r.unwrap().0@ == t && r.unwrap().1 == n,
            None => r is None,
        },
{
    if x == '+' {
        Some((TipoToken::Suma, 1))
    } else if x == '-' {
        Some((TipoToken::Resta, 1))
    } else if x == '*' {
        Some((TipoToken::Multiplicacion, 1))
    } else if x == '/' {
        Some((TipoToken::Division, 1))
    } else if x == '%' {
        Some((TipoToken::Modulo, 1))
    } else if x == '(' {
        Some((TipoToken::ParentesisAbre, 1))
    } else if x == ')' {
        Some((TipoToken::ParentesisCierra, 1))
    } else if x == '{' {
        Some((TipoToken::LlaveAbre, 1))
    } else if x == '}' {
        Some((TipoToken::LlaveCierra, 1))
    } else if x == ',' {
        Some((TipoToken::Coma, 1))
    } else if x == ':' {
        Some((TipoToken::DosPuntos, 1))
    } else if x == '.' {
        Some((TipoToken::Punto, 1))
    } else if x == '=' {
        if y == Some('=') {
            Some((TipoToken::Igual, 2))
        } else {
            Some((TipoToken::Asignacion, 1))
        }
    } else if x == '!' {
        if y == Some('=') {
            Some((TipoToken::Diferente, 2))
        } else {
            None
        }
    } else if x == '<' {
        if y == Some('=') {
            Some((TipoToken::MenorIgual, 2))
        } else {
            Some((TipoToken::Menor, 1))
        }
    } else if x == '>' {
        if y == Some('=') {
            Some((TipoToken::MayorIgual, 2))
        } else {
            Some((TipoToken::Mayor, 1))
        }
    } else {
        None
    }
}

/// The value of a digit string can only grow as more digits follow.
pub proof fn lema_valor_crece(s: Seq<char>, i: int, j: int, k: int)
    requires
        0 <= i <= j <= k <= s.len(),
        forall|t: int| i <= t < k ==> es_digito(#[trigger] s[t]),
    ensures
        valor_de_digitos(s.subrange(i, j)) <= valor_de_digitos(s.subrange(i, k)),
    decreases k - j,
{
    if j < k {
        lema_valor_crece(s, i, j, k - 1);
        assert(s.subrange(i, k).drop_last() =~= s.subrange(i, k - 1));
        assert(s.subrange(i, k).last() == s[k - 1]);
    }
}

} // verus!
