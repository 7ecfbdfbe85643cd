//! A canonical writing of a program as tokens, and the proof that reading it
//! gives the program back.
//!
//! The writing puts every variable, every unary and every binary expression
//! in parentheses of its own, so that no token that follows can change how
//! it is read. Positions are not written: the program that is read back has
//! the shape of the one that was written, with positions of its own.

use vstd::prelude::*;
use vstd::string::StrSliceExecFns;
use crate::ast::{
    vista_bloque, vista_declaraciones, vista_expresiones, vista_parametros, Declaracion,
    DeclaracionV, Expresion, ExpresionV, OperadorBinario, OperadorUnario, Parametro, ParametroV,
    Posicion, Programa, ProgramaV, Sentencia, SentenciaV, Tipo,
};
use crate::lexer::{vista_tokens, TipoToken, TipoTokenV, Token, TokenV};
use crate::parser::{
    argumentos_v, bien_formados, binaria_resto_v, binaria_v, bloque_v, consumir_v, declaracion_v,
    declaraciones_v, en_fin, entre_llaves_v, escena_v, expresion_v, funcion_v, hay,
    lema_expresion_avanza, lema_expresion_termina, lema_llaves_avanzan, lema_rango_avanza,
    lema_sentencia_avanza, lista_de_parametros_v, llamada_v, no_opera, nombre_de_token, nombre_v,
    operador_de, operador_unario_de, operando_v, parametros_v, primario_v, programa_de, rango_v, sentencia_de_nombre_v,
    sentencia_expresion_v, sentencia_mientras_v, sentencia_mostrar_v, sentencia_para_v,
    restantes, sentencia_retornar_v, sentencia_si_v, sentencia_v, sentencia_var_v,
    tipo_de_retorno_v, tipo_v, unario_v, ErrorSintacticoV, Esperado,
};

verus! {

/// Whether two expressions are the same but for the positions in them.
pub open spec fn misma_expresion(a: ExpresionV, b: ExpresionV) -> bool
    decreases a,
{
    match (a, b) {
        (ExpresionV::Numero(x, _), ExpresionV::Numero(y, _)) => x == y,
        (ExpresionV::Decimal(x, _), ExpresionV::Decimal(y, _)) => x == y,
        (ExpresionV::Texto(x, _), ExpresionV::Texto(y, _)) => x == y,
        (ExpresionV::Booleano(x, _), ExpresionV::Booleano(y, _)) => x == y,
        (ExpresionV::Variable(x, _), ExpresionV::Variable(y, _)) => x == y,
        (ExpresionV::Binaria(a1, op1, a2, _), ExpresionV::Binaria(b1, op2, b2, _)) => op1 == op2
            && misma_expresion(*a1, *b1) && misma_expresion(*a2, *b2),
        (ExpresionV::Unaria(op1, a1, _), ExpresionV::Unaria(op2, b1, _)) => op1 == op2
            && misma_expresion(*a1, *b1),
        (ExpresionV::Llamada(f, xs, _), ExpresionV::Llamada(g, ys, _)) => f == g
            && mismas_expresiones(xs, ys),
        _ => false,
    }
}

/// Whether two lists of expressions are the same but for positions.
pub open spec fn mismas_expresiones(a: Seq<ExpresionV>, b: Seq<ExpresionV>) -> bool
    decreases a,
{
    a.len() == b.len() && forall|i: int| 0 <= i < a.len() ==> misma_expresion(#[trigger] a[i], b[i])
}

/// The token that writes a binary operator.
pub open spec fn token_de_operador(op: OperadorBinario) -> TipoTokenV {
    match op {
        OperadorBinario::Suma => TipoTokenV::Suma,
        OperadorBinario::Resta => TipoTokenV::Resta,
        OperadorBinario::Multiplicacion => TipoTokenV::Multiplicacion,
        OperadorBinario::Division => TipoTokenV::Division,
        OperadorBinario::Modulo => TipoTokenV::Modulo,
        OperadorBinario::Igual => TipoTokenV::Igual,
        OperadorBinario::Diferente => TipoTokenV::Diferente,
        OperadorBinario::Menor => TipoTokenV::Menor,
        OperadorBinario::MenorIgual => TipoTokenV::MenorIgual,
        OperadorBinario::Mayor => TipoTokenV::Mayor,
        OperadorBinario::MayorIgual => TipoTokenV::MayorIgual,
        OperadorBinario::Y => TipoTokenV::Y,
        OperadorBinario::O => TipoTokenV::O,
    }
}

/// The precedence level of a binary operator.
pub open spec fn nivel_de(op: OperadorBinario) -> nat {
    match op {
        OperadorBinario::O => 0,
        OperadorBinario::Y => 1,
        OperadorBinario::Igual => 2,
        OperadorBinario::Diferente => 2,
        OperadorBinario::Menor => 3,
        OperadorBinario::MenorIgual => 3,
        OperadorBinario::Mayor => 3,
        OperadorBinario::MayorIgual => 3,
        OperadorBinario::Suma => 4,
        OperadorBinario::Resta => 4,
        _ => 5,
    }
}

/// The token that writes a unary operator.
pub open spec fn token_de_unario(op: OperadorUnario) -> TipoTokenV {
    match op {
        OperadorUnario::Negacion => TipoTokenV::Resta,
        OperadorUnario::No => TipoTokenV::No,
    }
}

/// The token that writes a name: the words `y` and `o` are written as the
/// operators they also are, every other name as an identifier.
pub open spec fn token_de_nombre(x: Seq<char>) -> TipoTokenV {
    if x == "y"@ {
        TipoTokenV::Y
    } else if x == "o"@ {
        TipoTokenV::O
    } else {
        TipoTokenV::Identificador(x)
    }
}

/// The token that writes a name is read as that name where a name is looked for.
pub proof fn lema_token_de_nombre(x: Seq<char>)
    ensures
        nombre_de_token(token_de_nombre(x)) == Some(x),
        operador_unario_de(token_de_nombre(x)) is None,
        token_de_nombre(x) is Identificador || token_de_nombre(x) is Y || token_de_nombre(x) is O,
{
}

/// The kinds `w` between `(` and `)`.
pub open spec fn entre_parentesis(w: Seq<TipoTokenV>) -> Seq<TipoTokenV> {
    seq![TipoTokenV::ParentesisAbre] + w + seq![TipoTokenV::ParentesisCierra]
}

/// The kinds `a`, the kind `z` and the kinds `b`, in a row.
pub open spec fn junto(a: Seq<TipoTokenV>, z: TipoTokenV, b: Seq<TipoTokenV>) -> Seq<TipoTokenV> {
    a + seq![z] + b
}

/// The kind `z` and then the kinds `w`.
pub open spec fn tras(z: TipoTokenV, w: Seq<TipoTokenV>) -> Seq<TipoTokenV> {
    seq![z] + w
}

/// The canonical writing of an expression: a literal as its token, a variable
/// as `( x )`, a unary expression as `( op a )`, a binary one as `( a op b )`,
/// a call as `f ( a , b )`.
pub open spec fn formato_expresion(e: ExpresionV) -> Seq<TipoTokenV>
    decreases e, 1nat,
{
    match e {
        ExpresionV::Numero(n, _) => seq![TipoTokenV::Numero(n)],
        ExpresionV::Decimal(d, _) => seq![TipoTokenV::Decimal(d)],
        ExpresionV::Texto(s, _) => seq![TipoTokenV::Texto(s)],
        ExpresionV::Booleano(b, _) => seq![
            if b {
                TipoTokenV::Verdadero
            } else {
                TipoTokenV::Falso
            },
        ],
        ExpresionV::Variable(x, _) => entre_parentesis(seq![token_de_nombre(x)]),
        ExpresionV::Binaria(a, op, b, _) => entre_parentesis(
            junto(formato_expresion(*a), token_de_operador(op), formato_expresion(*b)),
        ),
        ExpresionV::Unaria(op, a, _) => entre_parentesis(
            tras(token_de_unario(op), formato_expresion(*a)),
        ),
        ExpresionV::Llamada(f, args, _) => tras(
            token_de_nombre(f),
            entre_parentesis(formato_argumentos(args, 0)),
        ),
    }
}

/// The canonical writing of the arguments `args[i..]`, with commas between them.
pub open spec fn formato_argumentos(args: Seq<ExpresionV>, i: int) -> Seq<TipoTokenV>
    decreases args, args.len() - i,
{
    if 0 <= i < args.len() {
        if i + 1 < args.len() {
            junto(formato_expresion(args[i]), TipoTokenV::Coma, formato_argumentos(args, i + 1))
        } else {
            formato_expresion(args[i])
        }
    } else {
        Seq::empty()
    }
}

/// Whether the kinds `w` stand in the token stream `u` from index `p` on, with
/// at least one token after them.
pub open spec fn escrito_en(u: Seq<TokenV>, p: int, w: Seq<TipoTokenV>) -> bool {
    &&& 0 <= p
    &&& p + w.len() < u.len()
    &&& forall|i: int| 0 <= i < w.len() ==> (#[trigger] u[p + i]).tipo == w[i]
}

/// Whether a kind can be the first of the writing of an expression.
pub open spec fn abre_expresion(z: TipoTokenV) -> bool {
    z is Numero || z is Decimal || z is Texto || z is Verdadero || z is Falso || z is ParentesisAbre
        || z is Identificador || z is Y || z is O
}

/// The writing of an expression is not empty and starts with a literal, a
/// name or `(`.
pub proof fn lema_formato_empieza(e: ExpresionV)
    ensures
        formato_expresion(e).len() > 0,
        abre_expresion(formato_expresion(e)[0]),
{
}

/// Where kinds between parentheses are written, the parentheses stand at
/// the two ends and the kinds between them.
pub proof fn lema_entre_parentesis(u: Seq<TokenV>, p: int, w: Seq<TipoTokenV>)
    requires
        escrito_en(u, p, entre_parentesis(w)),
    ensures
        u[p].tipo == TipoTokenV::ParentesisAbre,
        escrito_en(u, p + 1, w),
        u[p + 1 + w.len()].tipo == TipoTokenV::ParentesisCierra,
        entre_parentesis(w).len() == w.len() + 2,
{
    let t = entre_parentesis(w);
    assert(t.len() == w.len() + 2);
    assert(u[p + 0].tipo == t[0]);
    assert forall|i: int| 0 <= i < w.len() implies (#[trigger] u[p + 1 + i]).tipo == w[i] by {
        assert(u[p + (1 + i)].tipo == t[1 + i]);
    }
    assert(u[p + (1 + w.len())].tipo == t[(1 + w.len()) as int]);
}

/// Where two runs of kinds with a kind between them are written, each stands
/// in its place.
pub proof fn lema_junto(u: Seq<TokenV>, p: int, a: Seq<TipoTokenV>, z: TipoTokenV, b: Seq<TipoTokenV>)
    requires
        escrito_en(u, p, junto(a, z, b)),
    ensures
        escrito_en(u, p, a),
        u[p + a.len()].tipo == z,
        escrito_en(u, p + a.len() + 1, b),
        junto(a, z, b).len() == a.len() + 1 + b.len(),
{
    let t = junto(a, z, b);
    assert(t.len() == a.len() + 1 + b.len());
    assert forall|i: int| 0 <= i < a.len() implies (#[trigger] u[p + i]).tipo == a[i] by {
        assert(u[p + i].tipo == t[i]);
    }
    assert(u[p + a.len()].tipo == t[a.len() as int]);
    assert forall|i: int| 0 <= i < b.len() implies (#[trigger] u[p + a.len() + 1 + i]).tipo == b[i] by {
        assert(u[p + (a.len() + 1 + i)].tipo == t[a.len() + 1 + i]);
    }
}

/// Where a kind and then a run of kinds are written, each stands in its place.
pub proof fn lema_tras(u: Seq<TokenV>, p: int, z: TipoTokenV, w: Seq<TipoTokenV>)
    requires
        escrito_en(u, p, tras(z, w)),
    ensures
        u[p].tipo == z,
        escrito_en(u, p + 1, w),
        tras(z, w).len() == w.len() + 1,
{
    let t = tras(z, w);
    assert(u[p + 0].tipo == t[0]);
    assert forall|i: int| 0 <= i < w.len() implies (#[trigger] u[p + 1 + i]).tipo == w[i] by {
        assert(u[p + (1 + i)].tipo == t[1 + i]);
    }
}

/// Each binary operator is written by a token that is an operator of its
/// own level and of no other.
pub proof fn lema_nivel_de_operador(op: OperadorBinario, nivel: nat)
    ensures
        operador_de(nivel, token_de_operador(op)) == if nivel == nivel_de(op) {
            Some(op)
        } else {
            None
        },
        nivel_de(op) <= 5,
{
}

/// Whether the outcome `r` is the expression `e`, but for positions, read up to `q`.
pub open spec fn lee_expresion(r: Result<(ExpresionV, int), ErrorSintacticoV>, e: ExpresionV, q: int) -> bool {
    match r {
        Ok((x, fin)) => fin == q && misma_expresion(x, e),
        Err(_) => false,
    }
}

/// What is read as an operand of the level `nivel` is read as an expression of that
/// level, where no operator of the level follows it.
pub proof fn lema_sube_un_nivel(u: Seq<TokenV>, p: int, nivel: nat)
    requires
        bien_formados(u),
        0 <= p < u.len(),
        operando_v(u, p, nivel) is Ok,
        p < operando_v(u, p, nivel)->Ok_0.1 < u.len(),
        operador_de(nivel, u[operando_v(u, p, nivel)->Ok_0.1].tipo) is None,
    ensures
        binaria_v(u, p, nivel) == operando_v(u, p, nivel),
{
}

/// What is read as an operand of the level `desde` is read as an expression
/// of the level `hasta`, where no operator of the levels between them follows it.
pub proof fn lema_baja(u: Seq<TokenV>, p: int, desde: nat, hasta: nat)
    requires
        bien_formados(u),
        0 <= p < u.len(),
        hasta <= desde <= 5,
        operando_v(u, p, desde) is Ok,
        p < operando_v(u, p, desde)->Ok_0.1 < u.len(),
        forall|k: nat|
            hasta <= k <= desde ==> operador_de(k, u[operando_v(u, p, desde)->Ok_0.1].tipo) is None,
    ensures
        binaria_v(u, p, hasta) == operando_v(u, p, desde),
    decreases desde - hasta,
{
    assert(operador_de(desde, u[operando_v(u, p, desde)->Ok_0.1].tipo) is None);
    lema_sube_un_nivel(u, p, desde);
    if hasta < desde {
        let abajo = (desde - 1) as nat;
        assert(operando_v(u, p, abajo) == binaria_v(u, p, desde));
        lema_baja(u, p, abajo, hasta);
    }
}

/// What is read as a unary expression is read as an operand of the level
/// `nivel`, where no operator of a tighter level follows it.
pub proof fn lema_operando_de_atomo(u: Seq<TokenV>, p: int, nivel: nat)
    requires
        bien_formados(u),
        0 <= p < u.len(),
        nivel <= 5,
        unario_v(u, p) is Ok,
        p < unario_v(u, p)->Ok_0.1 < u.len(),
        forall|k: nat| nivel < k <= 5 ==> operador_de(k, u[unario_v(u, p)->Ok_0.1].tipo) is None,
    ensures
        operando_v(u, p, nivel) == unario_v(u, p),
{
    assert(operando_v(u, p, 5) == unario_v(u, p));
    if nivel < 5 {
        lema_baja(u, p, 5, nivel + 1);
        assert(operando_v(u, p, nivel) == binaria_v(u, p, nivel + 1));
    }
}

/// What is read as an expression of the level `nivel` is read as an
/// expression, where no operator of a looser level follows it.
pub proof fn lema_expresion_de_nivel(u: Seq<TokenV>, p: int, nivel: nat)
    requires
        bien_formados(u),
        0 <= p < u.len(),
        nivel <= 5,
        binaria_v(u, p, nivel) is Ok,
        p < binaria_v(u, p, nivel)->Ok_0.1 < u.len(),
        forall|k: nat| k < nivel ==> operador_de(k, u[binaria_v(u, p, nivel)->Ok_0.1].tipo) is None,
    ensures
        expresion_v(u, p) == binaria_v(u, p, nivel),
{
    if nivel > 0 {
        let abajo = (nivel - 1) as nat;
        assert(operando_v(u, p, abajo) == binaria_v(u, p, nivel));
        lema_baja(u, p, abajo, 0);
    }
}

/// What is read as a unary expression is read as an expression, where no
/// binary operator follows it.
pub proof fn lema_expresion_de_atomo(u: Seq<TokenV>, p: int)
    requires
        bien_formados(u),
        0 <= p < u.len(),
        unario_v(u, p) is Ok,
        p < unario_v(u, p)->Ok_0.1 < u.len(),
        no_opera(u[unario_v(u, p)->Ok_0.1].tipo),
    ensures
        expresion_v(u, p) == unario_v(u, p),
{
    assert(operando_v(u, p, 5) == unario_v(u, p));
    lema_baja(u, p, 5, 0);
}

/// Reading the canonical writing of an expression as a unary expression
/// gives the expression back, and ends where the writing ends.
pub proof fn lema_lee_atomo(u: Seq<TokenV>, p: int, e: ExpresionV)
    requires
        bien_formados(u),
        escrito_en(u, p, formato_expresion(e)),
    ensures
        lee_expresion(unario_v(u, p), e, p + formato_expresion(e).len()),
    decreases e, 1nat,
{
    let w = formato_expresion(e);
    match e {
        ExpresionV::Numero(n, _) => {
            assert(u[p + 0].tipo == w[0]);
            assert(llamada_v(u, p) == primario_v(u, p));
        },
        ExpresionV::Decimal(d, _) => {
            assert(u[p + 0].tipo == w[0]);
            assert(llamada_v(u, p) == primario_v(u, p));
        },
        ExpresionV::Texto(t, _) => {
            assert(u[p + 0].tipo == w[0]);
            assert(llamada_v(u, p) == primario_v(u, p));
        },
        ExpresionV::Booleano(b, _) => {
            assert(u[p + 0].tipo == w[0]);
            assert(llamada_v(u, p) == primario_v(u, p));
        },
        ExpresionV::Variable(x, _) => {
            let dentro = seq![token_de_nombre(x)];
            lema_token_de_nombre(x);
            lema_entre_parentesis(u, p, dentro);
            assert(u[p + 1 + 0].tipo == dentro[0]);
            assert(llamada_v(u, p + 1) == Ok::<(ExpresionV, int), ErrorSintacticoV>(
                (ExpresionV::Variable(x, u[p + 1].pos), p + 2),
            ));
            assert(unario_v(u, p + 1) == llamada_v(u, p + 1));
            lema_expresion_de_atomo(u, p + 1);
            assert(primario_v(u, p) == Ok::<(ExpresionV, int), ErrorSintacticoV>(
                (ExpresionV::Variable(x, u[p + 1].pos), p + 3),
            ));
            assert(llamada_v(u, p) == primario_v(u, p));
        },
        ExpresionV::Unaria(op, a, _) => {
            let wa = formato_expresion(*a);
            lema_entre_parentesis(u, p, tras(token_de_unario(op), wa));
            lema_tras(u, p + 1, token_de_unario(op), wa);
            lema_lee_atomo(u, p + 2, *a);
            let q = p + 2 + wa.len();
            let x = unario_v(u, p + 2)->Ok_0.0;
            assert(unario_v(u, p + 1) == Ok::<(ExpresionV, int), ErrorSintacticoV>(
                (ExpresionV::Unaria(op, Box::new(x), u[p + 1].pos), q),
            ));
            lema_expresion_de_atomo(u, p + 1);
            assert(primario_v(u, p) == Ok::<(ExpresionV, int), ErrorSintacticoV>(
                (ExpresionV::Unaria(op, Box::new(x), u[p + 1].pos), q + 1),
            ));
            assert(llamada_v(u, p) == primario_v(u, p));
        },
        ExpresionV::Binaria(a, op, b, _) => {
            let wa = formato_expresion(*a);
            let wb = formato_expresion(*b);
            let z = token_de_operador(op);
            let k = nivel_de(op);
            lema_entre_parentesis(u, p, junto(wa, z, wb));
            lema_junto(u, p + 1, wa, z, wb);
            let qa = p + 1 + wa.len();
            let qb = qa + 1 + wb.len();
            lema_lee_atomo(u, p + 1, *a);
            lema_lee_atomo(u, qa + 1, *b);
            let x = unario_v(u, p + 1)->Ok_0.0;
            let y = unario_v(u, qa + 1)->Ok_0.0;
            assert forall|j: nat| operador_de(j, z) == if j == k {
                Some(op)
            } else {
                None
            } by {
                lema_nivel_de_operador(op, j);
            }
            lema_nivel_de_operador(op, k);
            lema_operando_de_atomo(u, p + 1, k);
            lema_operando_de_atomo(u, qa + 1, k);
            let junta = ExpresionV::Binaria(Box::new(x), op, Box::new(y), u[qa].pos);
            assert(binaria_resto_v(u, qb, k, junta) == Ok::<(ExpresionV, int), ErrorSintacticoV>(
                (junta, qb),
            ));
            assert(binaria_resto_v(u, qa, k, x) == Ok::<(ExpresionV, int), ErrorSintacticoV>(
                (junta, qb),
            ));
            assert(binaria_v(u, p + 1, k) == Ok::<(ExpresionV, int), ErrorSintacticoV>((junta, qb)));
            lema_expresion_de_nivel(u, p + 1, k);
            assert(primario_v(u, p) == Ok::<(ExpresionV, int), ErrorSintacticoV>((junta, qb + 1)));
            assert(llamada_v(u, p) == primario_v(u, p));
        },
        ExpresionV::Llamada(f, args, _) => {
            let wargs = formato_argumentos(args, 0);
            lema_token_de_nombre(f);
            lema_tras(u, p, token_de_nombre(f), entre_parentesis(wargs));
            lema_entre_parentesis(u, p + 1, wargs);
            let q = p + 2 + wargs.len();
            if args.len() == 0 {
                assert(llamada_v(u, p) == Ok::<(ExpresionV, int), ErrorSintacticoV>(
                    (ExpresionV::Llamada(f, Seq::empty(), u[p].pos), p + 3),
                ));
                assert(mismas_expresiones(Seq::empty(), args));
            } else {
                lema_formato_empieza(args[0]);
                lema_argumentos_empiezan(args, 0);
                assert(u[p + 2 + 0].tipo == wargs[0]);
                lema_lee_argumentos(u, p + 2, args, 0, Seq::empty());
                let leidos = argumentos_v(u, p + 2, Seq::empty())->Ok_0.0;
                assert(llamada_v(u, p) == Ok::<(ExpresionV, int), ErrorSintacticoV>(
                    (ExpresionV::Llamada(f, leidos, u[p].pos), q + 1),
                ));
            }
        },
    }
}

/// The writing of arguments starts as the writing of the first of them does.
pub proof fn lema_argumentos_empiezan(args: Seq<ExpresionV>, i: int)
    requires
        0 <= i < args.len(),
    ensures
        formato_argumentos(args, i).len() > 0,
        formato_argumentos(args, i)[0] == formato_expresion(args[i])[0],
{
    lema_formato_empieza(args[i]);
}

/// Reading the canonical writing of the arguments `args[i..]`, after `acc`
/// was read, gives `acc` and then those arguments, and ends where the
/// writing ends, which is before a `)`.
pub proof fn lema_lee_argumentos(u: Seq<TokenV>, p: int, args: Seq<ExpresionV>, i: int, acc: Seq<ExpresionV>)
    requires
        bien_formados(u),
        0 <= i < args.len(),
        acc.len() == i,
        forall|j: int| 0 <= j < i ==> misma_expresion(#[trigger] acc[j], args[j]),
        escrito_en(u, p, formato_argumentos(args, i)),
        u[p + formato_argumentos(args, i).len()].tipo == TipoTokenV::ParentesisCierra,
    ensures
        match argumentos_v(u, p, acc) {
            Ok((xs, q)) => q == p + formato_argumentos(args, i).len() && mismas_expresiones(xs, args),
            Err(_) => false,
        },
    decreases args, args.len() - i,
{
    let w = formato_expresion(args[i]);
    if i + 1 < args.len() {
        let resto = formato_argumentos(args, i + 1);
        lema_junto(u, p, w, TipoTokenV::Coma, resto);
        lema_lee_atomo(u, p, args[i]);
        lema_expresion_de_atomo(u, p);
        let x = unario_v(u, p)->Ok_0.0;
        let q = p + w.len();
        lema_lee_argumentos(u, q + 1, args, i + 1, acc.push(x));
    } else {
        lema_lee_atomo(u, p, args[i]);
        lema_expresion_de_atomo(u, p);
        let x = unario_v(u, p)->Ok_0.0;
        assert(acc.push(x).len() == args.len());
        assert forall|j: int| 0 <= j < args.len() implies misma_expresion(
            #[trigger] acc.push(x)[j],
            args[j],
        ) by {
            if j < i {
                assert(acc.push(x)[j] == acc[j]);
            }
        }
    }
}


/// Whether two statements are the same but for the positions in them.
pub open spec fn misma_sentencia(a: SentenciaV, b: SentenciaV) -> bool
    decreases a,
{
    match (a, b) {
        (SentenciaV::Mostrar(x, _), SentenciaV::Mostrar(y, _)) => misma_expresion(x, y),
        (SentenciaV::Var(n, x, _), SentenciaV::Var(m, y, _)) => n == m && misma_expresion(x, y),
        (SentenciaV::Asignacion(n, x, _), SentenciaV::Asignacion(m, y, _)) => n == m
            && misma_expresion(x, y),
        (SentenciaV::Si(c, a1, a2, _), SentenciaV::Si(d, b1, b2, _)) => misma_expresion(c, d)
            && mismo_bloque(a1, b1) && match (a2, b2) {
            (Some(x), Some(y)) => mismo_bloque(x, y),
            (None, None) => true,
            _ => false,
        },
        (SentenciaV::Mientras(c, a1, _), SentenciaV::Mientras(d, b1, _)) => misma_expresion(c, d)
            && mismo_bloque(a1, b1),
        (SentenciaV::Para(n, x1, x2, a1, _), SentenciaV::Para(m, y1, y2, b1, _)) => n == m
            && misma_expresion(x1, y1) && misma_expresion(x2, y2) && mismo_bloque(a1, b1),
        (SentenciaV::Retornar(x, _), SentenciaV::Retornar(y, _)) => match (x, y) {
            (Some(v), Some(w)) => misma_expresion(v, w),
            (None, None) => true,
            _ => false,
        },
        (SentenciaV::Expresion(x), SentenciaV::Expresion(y)) => misma_expresion(x, y),
        _ => false,
    }
}

/// Whether two blocks are the same but for positions.
pub open spec fn mismo_bloque(a: Seq<SentenciaV>, b: Seq<SentenciaV>) -> bool
    decreases a,
{
    a.len() == b.len() && forall|i: int| 0 <= i < a.len() ==> misma_sentencia(#[trigger] a[i], b[i])
}

/// Whether a `retornar` without a value stands only at the end of a block,
/// in the blocks of the statement at any depth.
pub open spec fn sentencia_bien_puesta(s: SentenciaV) -> bool
    decreases s,
{
    match s {
        SentenciaV::Si(_, a, b, _) => bloque_bien_puesto(a) && match b {
            Some(w) => bloque_bien_puesto(w),
            None => true,
        },
        SentenciaV::Mientras(_, a, _) => bloque_bien_puesto(a),
        SentenciaV::Para(_, _, _, a, _) => bloque_bien_puesto(a),
        _ => true,
    }
}

/// Whether a statement is a `retornar` without a value.
pub open spec fn retorna_nada(s: SentenciaV) -> bool {
    match s {
        SentenciaV::Retornar(None, _) => true,
        _ => false,
    }
}

/// Whether the block can be written and read back: in it and in the blocks
/// inside it, a `retornar` without a value stands only at the end, and after
/// a statement that ends with an expression comes none whose writing
/// starts with a binary operator. Every block that the parser reads from
/// lexed text is so.
pub open spec fn bloque_bien_puesto(b: Seq<SentenciaV>) -> bool
    decreases b,
{
    forall|i: int|
        0 <= i < b.len() ==> {
            &&& sentencia_bien_puesta(#[trigger] b[i])
            &&& retorna_nada(b[i]) ==> i == b.len() - 1
            &&& termina_en_expresion(b[i]) && i + 1 < b.len() ==> no_opera(
                formato_sentencia(b[i + 1])[0],
            )
        }
}

/// The kinds `w` between `{` and `}`.
pub open spec fn en_llaves(w: Seq<TipoTokenV>) -> Seq<TipoTokenV> {
    seq![TipoTokenV::LlaveAbre] + w + seq![TipoTokenV::LlaveCierra]
}

/// The canonical writing of a statement.
pub open spec fn formato_sentencia(s: SentenciaV) -> Seq<TipoTokenV>
    decreases s, 1nat,
{
    match s {
        SentenciaV::Mostrar(e, _) => tras(TipoTokenV::Mostrar, formato_expresion(e)),
        SentenciaV::Var(n, e, _) => tras(
            TipoTokenV::Var,
            tras(token_de_nombre(n), tras(TipoTokenV::Asignacion, formato_expresion(e))),
        ),
        SentenciaV::Asignacion(n, e, _) => tras(
            token_de_nombre(n),
            tras(TipoTokenV::Asignacion, formato_expresion(e)),
        ),
        SentenciaV::Si(c, a, sino, _) => tras(TipoTokenV::Si, formato_expresion(c)) + en_llaves(
            formato_bloque(a, 0),
        ) + (match sino {
            Some(b) => tras(TipoTokenV::Sino, en_llaves(formato_bloque(b, 0))),
            None => Seq::empty(),
        }),
        SentenciaV::Mientras(c, a, _) => tras(TipoTokenV::Mientras, formato_expresion(c)) + en_llaves(
            formato_bloque(a, 0),
        ),
        SentenciaV::Para(v, x, y, a, _) => tras(
            TipoTokenV::Para,
            tras(
                token_de_nombre(v),
                tras(
                    TipoTokenV::Asignacion,
                    junto(formato_expresion(x), TipoTokenV::Coma, formato_expresion(y)),
                ),
            ),
        ) + en_llaves(formato_bloque(a, 0)),
        SentenciaV::Retornar(e, _) => match e {
            Some(x) => tras(TipoTokenV::Retornar, formato_expresion(x)),
            None => seq![TipoTokenV::Retornar],
        },
        SentenciaV::Expresion(e) => entre_parentesis(formato_expresion(e)),
    }
}

/// The canonical writing of the statements `b[i..]`, one after another.
pub open spec fn formato_bloque(b: Seq<SentenciaV>, i: int) -> Seq<TipoTokenV>
    decreases b, b.len() - i,
{
    if 0 <= i < b.len() {
        formato_sentencia(b[i]) + formato_bloque(b, i + 1)
    } else {
        Seq::empty()
    }
}

/// Whether a kind can be the first of the writing of a statement: a keyword
/// that starts one, `(`, or a name.
pub open spec fn abre_sentencia(z: TipoTokenV) -> bool {
    z is Mostrar || z is Var || z is Si || z is Mientras || z is Para || z is Retornar
        || z is ParentesisAbre || z is Identificador || z is Y || z is O
}

/// Whether a kind can follow the writing of a statement: the first of
/// another statement, or `}`.
pub open spec fn cierra_sentencia(z: TipoTokenV) -> bool {
    abre_sentencia(z) || z is LlaveCierra
}

/// Whether a statement ends with an expression.
pub open spec fn termina_en_expresion(s: SentenciaV) -> bool {
    match s {
        SentenciaV::Mostrar(_, _) => true,
        SentenciaV::Var(_, _, _) => true,
        SentenciaV::Asignacion(_, _, _) => true,
        SentenciaV::Retornar(Some(_), _) => true,
        SentenciaV::Expresion(_) => true,
        _ => false,
    }
}

/// Whether a token of the kind `z` may follow the writing of the statement
/// `s`: it is the first kind of a statement or `}`; it is `}` after a
/// `retornar` without a value; and it is no binary operator after a
/// statement that ends with an expression.
pub open spec fn sigue_bien(s: SentenciaV, z: TipoTokenV) -> bool {
    &&& cierra_sentencia(z)
    &&& retorna_nada(s) ==> z is LlaveCierra
    &&& termina_en_expresion(s) ==> no_opera(z)
}

/// A brace, a comma and a closing parenthesis are no binary operators.
pub proof fn lema_cierre_no_opera(z: TipoTokenV)
    requires
        z is LlaveAbre || z is LlaveCierra || z is Coma || z is ParentesisCierra,
    ensures
        no_opera(z),
{
}

/// The writing of a statement is not empty and starts as a statement does.
pub proof fn lema_sentencia_empieza(s: SentenciaV)
    ensures
        formato_sentencia(s).len() > 0,
        abre_sentencia(formato_sentencia(s)[0]),
{
    match s {
        SentenciaV::Asignacion(n, _, _) => {
            lema_token_de_nombre(n);
        },
        _ => {},
    }
}

/// Where kinds between braces are written, the braces stand at the two ends
/// and the kinds between them.
pub proof fn lema_en_llaves(u: Seq<TokenV>, p: int, w: Seq<TipoTokenV>)
    requires
        escrito_en(u, p, en_llaves(w)),
    ensures
        u[p].tipo == TipoTokenV::LlaveAbre,
        escrito_en(u, p + 1, w),
        u[p + 1 + w.len()].tipo == TipoTokenV::LlaveCierra,
        en_llaves(w).len() == w.len() + 2,
{
    let t = en_llaves(w);
    assert(t.len() == w.len() + 2);
    assert(u[p + 0].tipo == t[0]);
    assert forall|i: int| 0 <= i < w.len() implies (#[trigger] u[p + 1 + i]).tipo == w[i] by {
        assert(u[p + (1 + i)].tipo == t[1 + i]);
    }
    assert(u[p + (1 + w.len())].tipo == t[(1 + w.len()) as int]);
}

/// Where two runs of kinds are written one after the other, each stands in its place.
pub proof fn lema_seguidos(u: Seq<TokenV>, p: int, a: Seq<TipoTokenV>, b: Seq<TipoTokenV>)
    requires
        escrito_en(u, p, a + b),
    ensures
        escrito_en(u, p, a),
        escrito_en(u, p + a.len(), b),
        (a + b).len() == a.len() + b.len(),
{
    let t = a + b;
    assert forall|i: int| 0 <= i < a.len() implies (#[trigger] u[p + i]).tipo == a[i] by {
        assert(u[p + i].tipo == t[i]);
    }
    assert forall|i: int| 0 <= i < b.len() implies (#[trigger] u[p + a.len() + i]).tipo == b[i] by {
        assert(u[p + (a.len() + i)].tipo == t[a.len() + i]);
    }
}

/// Whether the outcome `r` is the statement `s`, but for positions, read up to `q`.
pub open spec fn lee_sentencia(r: Result<(SentenciaV, int), ErrorSintacticoV>, s: SentenciaV, q: int) -> bool {
    match r {
        Ok((x, fin)) => fin == q && misma_sentencia(x, s),
        Err(_) => false,
    }
}

/// Whether the outcome `r` is the block `b`, but for positions, read up to `q`.
pub open spec fn lee_bloque(r: Result<(Seq<SentenciaV>, int), ErrorSintacticoV>, b: Seq<SentenciaV>, q: int) -> bool {
    match r {
        Ok((x, fin)) => fin == q && mismo_bloque(x, b),
        Err(_) => false,
    }
}

/// Reading the canonical writing of an expression, where no binary operator
/// follows it, gives the expression back.
pub proof fn lema_lee_expresion(u: Seq<TokenV>, p: int, e: ExpresionV)
    requires
        bien_formados(u),
        escrito_en(u, p, formato_expresion(e)),
        no_opera(u[p + formato_expresion(e).len()].tipo),
    ensures
        lee_expresion(expresion_v(u, p), e, p + formato_expresion(e).len()),
{
    lema_formato_empieza(e);
    lema_lee_atomo(u, p, e);
    lema_expresion_de_atomo(u, p);
}

/// Reading the canonical writing of a block between braces gives the block back.
pub proof fn lema_lee_llaves(u: Seq<TokenV>, p: int, b: Seq<SentenciaV>, abre: Esperado, cierra: Esperado)
    requires
        bien_formados(u),
        bloque_bien_puesto(b),
        escrito_en(u, p, en_llaves(formato_bloque(b, 0))),
    ensures
        lee_bloque(entre_llaves_v(u, p, abre, cierra), b, p + formato_bloque(b, 0).len() + 2),
    decreases b, b.len() + 1,
{
    let w = formato_bloque(b, 0);
    lema_en_llaves(u, p, w);
    lema_lee_bloque(u, p + 1, b, 0, Seq::empty());
}

/// Reading the canonical writing of the statements `b[i..]`, after `acc` was
/// read and before a `}`, gives `acc` and then those statements.
pub proof fn lema_lee_bloque(u: Seq<TokenV>, p: int, b: Seq<SentenciaV>, i: int, acc: Seq<SentenciaV>)
    requires
        bien_formados(u),
        bloque_bien_puesto(b),
        0 <= i <= b.len(),
        acc.len() == i,
        forall|j: int| 0 <= j < i ==> misma_sentencia(#[trigger] acc[j], b[j]),
        escrito_en(u, p, formato_bloque(b, i)),
        u[p + formato_bloque(b, i).len()].tipo == TipoTokenV::LlaveCierra,
    ensures
        lee_bloque(bloque_v(u, p, acc), b, p + formato_bloque(b, i).len()),
    decreases b, b.len() - i,
{
    if i < b.len() {
        let w = formato_sentencia(b[i]);
        let resto = formato_bloque(b, i + 1);
        lema_seguidos(u, p, w, resto);
        lema_sentencia_empieza(b[i]);
        assert(u[p + 0].tipo == w[0]);
        let q = p + w.len();
        if i + 1 < b.len() {
            lema_sentencia_empieza(b[i + 1]);
            assert(resto == formato_sentencia(b[i + 1]) + formato_bloque(b, i + 2));
            assert(resto[0] == formato_sentencia(b[i + 1])[0]);
            assert(u[q + 0].tipo == resto[0]);
        } else {
            assert(resto.len() == 0);
            lema_cierre_no_opera(u[q].tipo);
        }
        assert(sigue_bien(b[i], u[q].tipo));
        lema_lee_sentencia(u, p, b[i]);
        let x = sentencia_v(u, p)->Ok_0.0;
        assert forall|j: int| 0 <= j < i + 1 implies misma_sentencia(
            #[trigger] acc.push(x)[j],
            b[j],
        ) by {
            if j < i {
                assert(acc.push(x)[j] == acc[j]);
            }
        }
        lema_lee_bloque(u, q, b, i + 1, acc.push(x));
    } else {
        assert(acc.len() == b.len());
    }
}

/// Reading the canonical writing of a statement, where the first kind of
/// another statement or `}` follows it, and `}` if it is a `retornar`
/// without a value, gives the statement back.
pub proof fn lema_lee_sentencia(u: Seq<TokenV>, p: int, s: SentenciaV)
    requires
        bien_formados(u),
        sentencia_bien_puesta(s),
        escrito_en(u, p, formato_sentencia(s)),
        sigue_bien(s, u[p + formato_sentencia(s).len()].tipo),
    ensures
        lee_sentencia(sentencia_v(u, p), s, p + formato_sentencia(s).len()),
    decreases s, 1nat,
{
    match s {
        SentenciaV::Mostrar(_, _) => {
            lema_lee_mostrar(u, p, s);
        },
        SentenciaV::Var(_, _, _) => {
            lema_lee_var(u, p, s);
        },
        SentenciaV::Asignacion(_, _, _) => {
            lema_lee_asignacion(u, p, s);
        },
        SentenciaV::Si(_, _, _, _) => {
            lema_lee_si(u, p, s);
        },
        SentenciaV::Mientras(_, _, _) => {
            lema_lee_mientras(u, p, s);
        },
        SentenciaV::Para(_, _, _, _, _) => {
            lema_lee_para(u, p, s);
        },
        SentenciaV::Retornar(_, _) => {
            lema_lee_retornar(u, p, s);
        },
        SentenciaV::Expresion(_) => {
            lema_lee_sentencia_de_expresion(u, p, s);
        },
    }
}

/// Reading the canonical writing of a `mostrar` gives it back.
pub proof fn lema_lee_mostrar(u: Seq<TokenV>, p: int, s: SentenciaV)
    requires
        bien_formados(u),
        sentencia_bien_puesta(s),
        escrito_en(u, p, formato_sentencia(s)),
        sigue_bien(s, u[p + formato_sentencia(s).len()].tipo),
        s is Mostrar,
    ensures
        lee_sentencia(sentencia_v(u, p), s, p + formato_sentencia(s).len()),
{
    let w = formato_sentencia(s);
    let q = p + w.len();
    match s {
        SentenciaV::Mostrar(e, _) => {
            lema_tras(u, p, TipoTokenV::Mostrar, formato_expresion(e));
            lema_lee_expresion(u, p + 1, e);
            assert(sentencia_v(u, p) == sentencia_mostrar_v(u, p));
        },
        _ => {},
    }
}

/// Reading the canonical writing of a `var` gives it back.
pub proof fn lema_lee_var(u: Seq<TokenV>, p: int, s: SentenciaV)
    requires
        bien_formados(u),
        sentencia_bien_puesta(s),
        escrito_en(u, p, formato_sentencia(s)),
        sigue_bien(s, u[p + formato_sentencia(s).len()].tipo),
        s is Var,
    ensures
        lee_sentencia(sentencia_v(u, p), s, p + formato_sentencia(s).len()),
{
    let w = formato_sentencia(s);
    let q = p + w.len();
    match s {
        SentenciaV::Var(n, e, _) => {
            let w2 = tras(TipoTokenV::Asignacion, formato_expresion(e));
            let w1 = tras(token_de_nombre(n), w2);
            lema_tras(u, p, TipoTokenV::Var, w1);
            lema_tras(u, p + 1, token_de_nombre(n), w2);
            lema_tras(u, p + 2, TipoTokenV::Asignacion, formato_expresion(e));
            lema_lee_expresion(u, p + 3, e);
            lema_token_de_nombre(n);
            assert(nombre_v(u, p + 1, Esperado::NombreDeVariable) == Ok::<
                (Seq<char>, int),
                ErrorSintacticoV,
            >((n, p + 2)));
            assert(sentencia_v(u, p) == sentencia_var_v(u, p));
        },
        _ => {},
    }
}

/// Reading the canonical writing of an assignment gives it back.
pub proof fn lema_lee_asignacion(u: Seq<TokenV>, p: int, s: SentenciaV)
    requires
        bien_formados(u),
        sentencia_bien_puesta(s),
        escrito_en(u, p, formato_sentencia(s)),
        sigue_bien(s, u[p + formato_sentencia(s).len()].tipo),
        s is Asignacion,
    ensures
        lee_sentencia(sentencia_v(u, p), s, p + formato_sentencia(s).len()),
{
    let w = formato_sentencia(s);
    let q = p + w.len();
    match s {
        SentenciaV::Asignacion(n, e, _) => {
            let w2 = tras(TipoTokenV::Asignacion, formato_expresion(e));
            lema_tras(u, p, token_de_nombre(n), w2);
            lema_tras(u, p + 1, TipoTokenV::Asignacion, formato_expresion(e));
            lema_lee_expresion(u, p + 2, e);
            lema_token_de_nombre(n);
            assert(sentencia_v(u, p) == sentencia_de_nombre_v(u, p, n));
        },
        _ => {},
    }
}

/// Reading the canonical writing of a `retornar` gives it back.
pub proof fn lema_lee_retornar(u: Seq<TokenV>, p: int, s: SentenciaV)
    requires
        bien_formados(u),
        sentencia_bien_puesta(s),
        escrito_en(u, p, formato_sentencia(s)),
        sigue_bien(s, u[p + formato_sentencia(s).len()].tipo),
        s is Retornar,
    ensures
        lee_sentencia(sentencia_v(u, p), s, p + formato_sentencia(s).len()),
{
    let w = formato_sentencia(s);
    let q = p + w.len();
    match s {
        SentenciaV::Retornar(e, _) => {
            match e {
                Some(x) => {
                    lema_tras(u, p, TipoTokenV::Retornar, formato_expresion(x));
                    lema_formato_empieza(x);
                    assert(u[p + 1 + 0].tipo == formato_expresion(x)[0]);
                    lema_lee_expresion(u, p + 1, x);
                },
                None => {
                    assert(u[p + 0].tipo == w[0]);
                },
            }
            assert(sentencia_v(u, p) == sentencia_retornar_v(u, p));
        },
        _ => {},
    }
}

/// Reading the canonical writing of an expression as a statement gives it back.
pub proof fn lema_lee_sentencia_de_expresion(u: Seq<TokenV>, p: int, s: SentenciaV)
    requires
        bien_formados(u),
        sentencia_bien_puesta(s),
        escrito_en(u, p, formato_sentencia(s)),
        sigue_bien(s, u[p + formato_sentencia(s).len()].tipo),
        s is Expresion,
    ensures
        lee_sentencia(sentencia_v(u, p), s, p + formato_sentencia(s).len()),
{
    let w = formato_sentencia(s);
    let q = p + w.len();
    match s {
        SentenciaV::Expresion(e) => {
            let we = formato_expresion(e);
            lema_entre_parentesis(u, p, we);
            lema_cierre_no_opera(u[p + 1 + we.len()].tipo);
            lema_lee_expresion(u, p + 1, e);
            let x = expresion_v(u, p + 1)->Ok_0.0;
            assert(primario_v(u, p) == Ok::<(ExpresionV, int), ErrorSintacticoV>((x, q)));
            assert(llamada_v(u, p) == primario_v(u, p));
            assert(unario_v(u, p) == llamada_v(u, p));
            lema_expresion_de_atomo(u, p);
            assert(sentencia_v(u, p) == sentencia_expresion_v(u, p));
        },
        _ => {},
    }
}

/// Reading the canonical writing of a `si` gives it back.
pub proof fn lema_lee_si(u: Seq<TokenV>, p: int, s: SentenciaV)
    requires
        bien_formados(u),
        sentencia_bien_puesta(s),
        escrito_en(u, p, formato_sentencia(s)),
        sigue_bien(s, u[p + formato_sentencia(s).len()].tipo),
        s is Si,
    ensures
        lee_sentencia(sentencia_v(u, p), s, p + formato_sentencia(s).len()),
    decreases s, 0nat,
{
    let w = formato_sentencia(s);
    let q = p + w.len();
    match s {
        SentenciaV::Si(c, a, sino, _) => {
            let w1 = tras(TipoTokenV::Si, formato_expresion(c));
            let w2 = en_llaves(formato_bloque(a, 0));
            let w3 = match sino {
                Some(b) => tras(TipoTokenV::Sino, en_llaves(formato_bloque(b, 0))),
                None => Seq::empty(),
            };
            lema_seguidos(u, p, w1 + w2, w3);
            lema_seguidos(u, p, w1, w2);
            lema_tras(u, p, TipoTokenV::Si, formato_expresion(c));
            let q1 = p + w1.len();
            lema_en_llaves(u, q1, formato_bloque(a, 0));
            lema_cierre_no_opera(u[q1].tipo);
            lema_lee_expresion(u, p + 1, c);
            lema_lee_llaves(u, q1, a, Esperado::LlaveAbreDeCondicion, Esperado::LlaveCierraDeSi);
            let r = q1 + w2.len();
            match sino {
                Some(b) => {
                    lema_tras(u, r, TipoTokenV::Sino, en_llaves(formato_bloque(b, 0)));
                    lema_lee_llaves(
                        u,
                        r + 1,
                        b,
                        Esperado::LlaveAbreDeSino,
                        Esperado::LlaveCierraDeSino,
                    );
                },
                None => {
                    assert(r == q);
                },
            }
            assert(sentencia_v(u, p) == sentencia_si_v(u, p));
        },
        _ => {},
    }
}

/// Reading the canonical writing of a `mientras` gives it back.
pub proof fn lema_lee_mientras(u: Seq<TokenV>, p: int, s: SentenciaV)
    requires
        bien_formados(u),
        sentencia_bien_puesta(s),
        escrito_en(u, p, formato_sentencia(s)),
        sigue_bien(s, u[p + formato_sentencia(s).len()].tipo),
        s is Mientras,
    ensures
        lee_sentencia(sentencia_v(u, p), s, p + formato_sentencia(s).len()),
    decreases s, 0nat,
{
    let w = formato_sentencia(s);
    let q = p + w.len();
    match s {
        SentenciaV::Mientras(c, a, _) => {
            let w1 = tras(TipoTokenV::Mientras, formato_expresion(c));
            let w2 = en_llaves(formato_bloque(a, 0));
            lema_seguidos(u, p, w1, w2);
            lema_tras(u, p, TipoTokenV::Mientras, formato_expresion(c));
            let q1 = p + w1.len();
            lema_en_llaves(u, q1, formato_bloque(a, 0));
            lema_cierre_no_opera(u[q1].tipo);
            lema_lee_expresion(u, p + 1, c);
            lema_lee_llaves(
                u,
                q1,
                a,
                Esperado::LlaveAbreDeCondicion,
                Esperado::LlaveCierraDeMientras,
            );
            assert(sentencia_v(u, p) == sentencia_mientras_v(u, p));
        },
        _ => {},
    }
}

/// Reading the canonical writing of a `para` gives it back.
pub proof fn lema_lee_para(u: Seq<TokenV>, p: int, s: SentenciaV)
    requires
        bien_formados(u),
        sentencia_bien_puesta(s),
        escrito_en(u, p, formato_sentencia(s)),
        sigue_bien(s, u[p + formato_sentencia(s).len()].tipo),
        s is Para,
    ensures
        lee_sentencia(sentencia_v(u, p), s, p + formato_sentencia(s).len()),
    decreases s, 0nat,
{
    let w = formato_sentencia(s);
    let q = p + w.len();
    match s {
        SentenciaV::Para(v, x, y, a, _) => {
            let w4 = junto(formato_expresion(x), TipoTokenV::Coma, formato_expresion(y));
            let w3 = tras(TipoTokenV::Asignacion, w4);
            let w2 = tras(token_de_nombre(v), w3);
            let w1 = tras(TipoTokenV::Para, w2);
            let w5 = en_llaves(formato_bloque(a, 0));
            lema_seguidos(u, p, w1, w5);
            lema_tras(u, p, TipoTokenV::Para, w2);
            lema_tras(u, p + 1, token_de_nombre(v), w3);
            lema_tras(u, p + 2, TipoTokenV::Asignacion, w4);
            lema_junto(u, p + 3, formato_expresion(x), TipoTokenV::Coma, formato_expresion(y));
            let qx = p + 3 + formato_expresion(x).len();
            let qy = qx + 1 + formato_expresion(y).len();
            lema_en_llaves(u, qy, formato_bloque(a, 0));
            lema_cierre_no_opera(u[qx].tipo);
            lema_cierre_no_opera(u[qy].tipo);
            lema_lee_expresion(u, p + 3, x);
            lema_lee_expresion(u, qx + 1, y);
            lema_token_de_nombre(v);
            assert(nombre_v(u, p + 1, Esperado::NombreDeVariable) == Ok::<
                (Seq<char>, int),
                ErrorSintacticoV,
            >((v, p + 2)));
            let x1 = expresion_v(u, p + 3)->Ok_0.0;
            let y1 = expresion_v(u, qx + 1)->Ok_0.0;
            assert(rango_v(u, p) == Ok::<((Seq<char>, ExpresionV, ExpresionV), int), ErrorSintacticoV>(
                ((v, x1, y1), qy),
            ));
            lema_lee_llaves(u, qy, a, Esperado::LlaveAbreDeRango, Esperado::LlaveCierraDePara);
            assert(sentencia_v(u, p) == sentencia_para_v(u, p));
        },
        _ => {},
    }
}


/// Whether two declarations are the same but for the positions in them.
pub open spec fn misma_declaracion(a: DeclaracionV, b: DeclaracionV) -> bool {
    match (a, b) {
        (DeclaracionV::Escena(x), DeclaracionV::Escena(y)) => x.nombre == y.nombre && mismo_bloque(
            x.cuerpo,
            y.cuerpo,
        ),
        (DeclaracionV::Funcion(x), DeclaracionV::Funcion(y)) => x.nombre == y.nombre && x.parametros
            == y.parametros && x.tipo_retorno == y.tipo_retorno && mismo_bloque(x.cuerpo, y.cuerpo),
        _ => false,
    }
}

/// Whether two programs are the same but for the positions in them.
pub open spec fn mismo_programa(a: ProgramaV, b: ProgramaV) -> bool {
    a.declaraciones.len() == b.declaraciones.len() && forall|i: int|
        0 <= i < a.declaraciones.len() ==> misma_declaracion(
            #[trigger] a.declaraciones[i],
            b.declaraciones[i],
        )
}

/// Whether a `retornar` without a value stands only at the end of a block,
/// in the body of the declaration.
pub open spec fn declaracion_bien_puesta(d: DeclaracionV) -> bool {
    match d {
        DeclaracionV::Escena(e) => bloque_bien_puesto(e.cuerpo),
        DeclaracionV::Funcion(f) => bloque_bien_puesto(f.cuerpo),
    }
}

/// Whether a `retornar` without a value stands only at the end of a block,
/// throughout the program.
pub open spec fn programa_bien_puesto(ds: Seq<DeclaracionV>) -> bool {
    forall|i: int| 0 <= i < ds.len() ==> declaracion_bien_puesta(#[trigger] ds[i])
}

/// The token that writes a type name.
pub open spec fn token_de_tipo(t: Tipo) -> TipoTokenV {
    match t {
        Tipo::Numero => TipoTokenV::TipoNumero,
        Tipo::Decimal => TipoTokenV::TipoDecimal,
        Tipo::Texto => TipoTokenV::TipoTexto,
        Tipo::Booleano => TipoTokenV::TipoBooleano,
        Tipo::Vector3 => TipoTokenV::TipoVector3,
        Tipo::Pose => TipoTokenV::TipoPose,
        Tipo::Mano => TipoTokenV::TipoMano,
        Tipo::Controlador => TipoTokenV::TipoControlador,
    }
}

/// The canonical writing of the parameters `ps[i..]`: `name : type`, with
/// commas between them.
pub open spec fn formato_parametros(ps: Seq<ParametroV>, i: int) -> Seq<TipoTokenV>
    decreases ps.len() - i,
{
    if 0 <= i < ps.len() {
        seq![
            token_de_nombre(ps[i].nombre),
            TipoTokenV::DosPuntos,
            token_de_tipo(ps[i].tipo_dato),
        ] + (if i + 1 < ps.len() {
            tras(TipoTokenV::Coma, formato_parametros(ps, i + 1))
        } else {
            Seq::empty()
        })
    } else {
        Seq::empty()
    }
}

/// The canonical writing of a result type, if there is one: `: type`.
pub open spec fn formato_tipo_de_retorno(t: Option<Tipo>) -> Seq<TipoTokenV> {
    match t {
        Some(tipo) => seq![TipoTokenV::DosPuntos, token_de_tipo(tipo)],
        None => Seq::empty(),
    }
}

/// The canonical writing of a declaration.
pub open spec fn formato_declaracion(d: DeclaracionV) -> Seq<TipoTokenV> {
    match d {
        DeclaracionV::Escena(e) => tras(
            TipoTokenV::Escena,
            tras(token_de_nombre(e.nombre), en_llaves(formato_bloque(e.cuerpo, 0))),
        ),
        DeclaracionV::Funcion(f) => tras(
            TipoTokenV::Funcion,
            tras(
                token_de_nombre(f.nombre),
                entre_parentesis(formato_parametros(f.parametros, 0)),
            ),
        ) + formato_tipo_de_retorno(f.tipo_retorno) + en_llaves(formato_bloque(f.cuerpo, 0)),
    }
}

/// The canonical writing of the declarations `ds[i..]`, one after another.
pub open spec fn formato_declaraciones(ds: Seq<DeclaracionV>, i: int) -> Seq<TipoTokenV>
    decreases ds.len() - i,
{
    if 0 <= i < ds.len() {
        formato_declaracion(ds[i]) + formato_declaraciones(ds, i + 1)
    } else {
        Seq::empty()
    }
}

/// The canonical writing of a program: its declarations, then the end marker.
pub open spec fn formato_programa(programa: ProgramaV) -> Seq<TipoTokenV> {
    formato_declaraciones(programa.declaraciones, 0) + seq![TipoTokenV::Eof]
}

/// Reading the canonical writing of the parameters `ps[i..]`, after `acc`
/// was read and before a `)`, gives `acc` and then those parameters.
pub proof fn lema_lee_parametros(u: Seq<TokenV>, p: int, ps: Seq<ParametroV>, i: int, acc: Seq<ParametroV>)
    requires
        bien_formados(u),
        0 <= i < ps.len(),
        acc == ps.take(i),
        escrito_en(u, p, formato_parametros(ps, i)),
        u[p + formato_parametros(ps, i).len()].tipo == TipoTokenV::ParentesisCierra,
    ensures
        parametros_v(u, p, acc) == Ok::<(Seq<ParametroV>, int), ErrorSintacticoV>(
            (ps, p + formato_parametros(ps, i).len()),
        ),
    decreases ps.len() - i,
{
    let cabeza = seq![
        token_de_nombre(ps[i].nombre),
        TipoTokenV::DosPuntos,
        token_de_tipo(ps[i].tipo_dato),
    ];
    let cola = if i + 1 < ps.len() {
        tras(TipoTokenV::Coma, formato_parametros(ps, i + 1))
    } else {
        Seq::empty()
    };
    lema_seguidos(u, p, cabeza, cola);
    assert(u[p + 0].tipo == cabeza[0]);
    assert(u[p + 1].tipo == cabeza[1]);
    assert(u[p + 2].tipo == cabeza[2]);
    lema_token_de_nombre(ps[i].nombre);
    assert(tipo_v(u, p + 2) == Ok::<(Tipo, int), ErrorSintacticoV>((ps[i].tipo_dato, p + 3)));
    let leido = ParametroV { nombre: ps[i].nombre, tipo_dato: ps[i].tipo_dato };
    assert(acc.push(leido) =~= ps.take(i + 1));
    if i + 1 < ps.len() {
        lema_tras(u, p + 3, TipoTokenV::Coma, formato_parametros(ps, i + 1));
        lema_lee_parametros(u, p + 4, ps, i + 1, acc.push(leido));
    } else {
        assert(ps.take(i + 1) =~= ps);
    }
}

/// Reading the canonical writing of a parameter list gives the parameters back.
pub proof fn lema_lee_lista_de_parametros(u: Seq<TokenV>, p: int, ps: Seq<ParametroV>)
    requires
        bien_formados(u),
        escrito_en(u, p, entre_parentesis(formato_parametros(ps, 0))),
    ensures
        lista_de_parametros_v(u, p) == Ok::<(Seq<ParametroV>, int), ErrorSintacticoV>(
            (ps, p + formato_parametros(ps, 0).len() + 2),
        ),
{
    let wp = formato_parametros(ps, 0);
    lema_entre_parentesis(u, p, wp);
    if ps.len() == 0 {
        assert(wp.len() == 0);
        assert(ps =~= Seq::empty());
    } else {
        assert(u[p + 1 + 0].tipo == wp[0]);
        assert(ps.take(0) =~= Seq::empty());
        lema_lee_parametros(u, p + 1, ps, 0, Seq::empty());
    }
}

/// Reading the canonical writing of a result type, before a `{`, gives it back.
pub proof fn lema_lee_tipo_de_retorno(u: Seq<TokenV>, p: int, t: Option<Tipo>)
    requires
        bien_formados(u),
        escrito_en(u, p, formato_tipo_de_retorno(t)),
        u[p + formato_tipo_de_retorno(t).len()].tipo is LlaveAbre,
    ensures
        tipo_de_retorno_v(u, p) == Ok::<(Option<Tipo>, int), ErrorSintacticoV>(
            (t, p + formato_tipo_de_retorno(t).len()),
        ),
{
    let wt = formato_tipo_de_retorno(t);
    match t {
        Some(tipo) => {
            assert(u[p + 0].tipo == wt[0]);
            assert(u[p + 1].tipo == wt[1]);
            assert(tipo_v(u, p + 1) == Ok::<(Tipo, int), ErrorSintacticoV>((tipo, p + 2)));
        },
        None => {},
    }
}

/// Reading the canonical writing of a scene gives the scene back.
pub proof fn lema_lee_escena(u: Seq<TokenV>, p: int, d: DeclaracionV)
    requires
        bien_formados(u),
        d is Escena,
        declaracion_bien_puesta(d),
        escrito_en(u, p, formato_declaracion(d)),
    ensures
        match escena_v(u, p) {
            Ok((x, q)) => q == p + formato_declaracion(d).len() && misma_declaracion(
                DeclaracionV::Escena(x),
                d,
            ),
            Err(_) => false,
        },
        u[p].tipo is Escena,
{
    match d {
        DeclaracionV::Escena(e) => {
            let w2 = en_llaves(formato_bloque(e.cuerpo, 0));
            let w1 = tras(token_de_nombre(e.nombre), w2);
            lema_tras(u, p, TipoTokenV::Escena, w1);
            lema_tras(u, p + 1, token_de_nombre(e.nombre), w2);
            lema_lee_llaves(
                u,
                p + 2,
                e.cuerpo,
                Esperado::LlaveAbreDeEscena,
                Esperado::LlaveCierraDeEscena,
            );
            lema_token_de_nombre(e.nombre);
            assert(nombre_v(u, p + 1, Esperado::NombreDeEscena) == Ok::<
                (Seq<char>, int),
                ErrorSintacticoV,
            >((e.nombre, p + 2)));
        },
        _ => {},
    }
}

/// Reading the canonical writing of a function gives the function back.
pub proof fn lema_lee_funcion(u: Seq<TokenV>, p: int, d: DeclaracionV)
    requires
        bien_formados(u),
        d is Funcion,
        declaracion_bien_puesta(d),
        escrito_en(u, p, formato_declaracion(d)),
    ensures
        match funcion_v(u, p) {
            Ok((x, q)) => q == p + formato_declaracion(d).len() && misma_declaracion(
                DeclaracionV::Funcion(x),
                d,
            ),
            Err(_) => false,
        },
        u[p].tipo is Funcion,
{
    match d {
        DeclaracionV::Funcion(f) => {
            let wp = formato_parametros(f.parametros, 0);
            let w2 = entre_parentesis(wp);
            let w1 = tras(token_de_nombre(f.nombre), w2);
            let cabeza = tras(TipoTokenV::Funcion, w1);
            let wt = formato_tipo_de_retorno(f.tipo_retorno);
            let wc = en_llaves(formato_bloque(f.cuerpo, 0));
            lema_seguidos(u, p, cabeza + wt, wc);
            lema_seguidos(u, p, cabeza, wt);
            lema_tras(u, p, TipoTokenV::Funcion, w1);
            lema_tras(u, p + 1, token_de_nombre(f.nombre), w2);
            lema_token_de_nombre(f.nombre);
            assert(nombre_v(u, p + 1, Esperado::NombreDeFuncion) == Ok::<
                (Seq<char>, int),
                ErrorSintacticoV,
            >((f.nombre, p + 2)));
            lema_lee_lista_de_parametros(u, p + 2, f.parametros);
            let q2 = p + 2 + wp.len() + 2;
            assert(q2 == p + cabeza.len());
            let q3 = q2 + wt.len();
            lema_en_llaves(u, q3, formato_bloque(f.cuerpo, 0));
            lema_lee_tipo_de_retorno(u, q2, f.tipo_retorno);
            lema_lee_llaves(
                u,
                q3,
                f.cuerpo,
                Esperado::LlaveAbreDeFuncion,
                Esperado::LlaveCierraDeFuncion,
            );
        },
        _ => {},
    }
}

/// Reading the canonical writing of a declaration gives the declaration back.
pub proof fn lema_lee_declaracion(u: Seq<TokenV>, p: int, d: DeclaracionV)
    requires
        bien_formados(u),
        declaracion_bien_puesta(d),
        escrito_en(u, p, formato_declaracion(d)),
    ensures
        match declaracion_v(u, p) {
            Ok((x, q)) => q == p + formato_declaracion(d).len() && misma_declaracion(x, d),
            Err(_) => false,
        },
{
    reveal(declaracion_v);
    match d {
        DeclaracionV::Escena(_) => {
            lema_lee_escena(u, p, d);
        },
        DeclaracionV::Funcion(_) => {
            lema_lee_funcion(u, p, d);
        },
    }
}

/// The writing of a declaration is not empty and starts with `escena` or `funcion`.
pub proof fn lema_declaracion_empieza(d: DeclaracionV)
    ensures
        formato_declaracion(d).len() > 0,
        formato_declaracion(d)[0] is Escena || formato_declaracion(d)[0] is Funcion,
{
}

/// Reading the canonical writing of the declarations `ds[i..]`, after `acc`
/// was read and before the end marker, gives `acc` and then those
/// declarations.
pub proof fn lema_lee_declaraciones(
    u: Seq<TokenV>,
    p: int,
    ds: Seq<DeclaracionV>,
    i: int,
    acc: Seq<DeclaracionV>,
)
    requires
        bien_formados(u),
        programa_bien_puesto(ds),
        0 <= i <= ds.len(),
        acc.len() == i,
        forall|j: int| 0 <= j < i ==> misma_declaracion(#[trigger] acc[j], ds[j]),
        escrito_en(u, p, formato_declaraciones(ds, i)),
        u[p + formato_declaraciones(ds, i).len()].tipo is Eof,
    ensures
        match declaraciones_v(u, p, acc) {
            Ok(xs) => mismo_programa(
                ProgramaV { declaraciones: xs },
                ProgramaV { declaraciones: ds },
            ),
            Err(_) => false,
        },
    decreases ds.len() - i,
{
    if i < ds.len() {
        let w = formato_declaracion(ds[i]);
        let resto = formato_declaraciones(ds, i + 1);
        lema_seguidos(u, p, w, resto);
        lema_declaracion_empieza(ds[i]);
        assert(u[p + 0].tipo == w[0]);
        lema_lee_declaracion(u, p, ds[i]);
        let x = declaracion_v(u, p)->Ok_0.0;
        assert forall|j: int| 0 <= j < i + 1 implies misma_declaracion(
            #[trigger] acc.push(x)[j],
            ds[j],
        ) by {
            if j < i {
                assert(acc.push(x)[j] == acc[j]);
            }
        }
        lema_lee_declaraciones(u, p + w.len(), ds, i + 1, acc.push(x));
    }
}

/// Whether no token of the stream is an identifier named `y` or `o`. The
/// lexer makes none: it reads those two words as operators.
pub open spec fn sin_identificadores_reservados(t: Seq<TokenV>) -> bool {
    forall|k: int|
        0 <= k < t.len() ==> (#[trigger] t[k]).tipo != TipoTokenV::Identificador("y"@) && t[k].tipo
            != TipoTokenV::Identificador("o"@)
}

/// Whether the tokens are well formed and hold no identifier named `y` or `o`.
pub open spec fn tokens_propios(t: Seq<TokenV>) -> bool {
    bien_formados(t) && sin_identificadores_reservados(t)
}

/// The words `y` and `o` are binary operators; an identifier is none.
pub proof fn lema_nombres_y_operadores(z: TipoTokenV)
    ensures
        z is Y || z is O ==> !no_opera(z),
        z is Identificador || z is Mostrar || z is Var || z is Si || z is Mientras || z is Para
            || z is Retornar || z is ParentesisAbre ==> no_opera(z),
{
    if z is Y {
        assert(operador_de(1, z) is Some);
    }
    if z is O {
        assert(operador_de(0, z) is Some);
    }
}

/// What the parser reads as a statement can be written and read back, and
/// what follows it fits: `}` follows a `retornar` without a value, and no
/// binary operator follows a statement that ends with an expression. The
/// writing of the statement starts with no binary operator unless the
/// statement itself does.
pub proof fn lema_sentencia_leida(t: Seq<TokenV>, p: int)
    requires
        tokens_propios(t),
        0 <= p < t.len(),
    ensures
        match sentencia_v(t, p) {
            Ok((s, q)) => {
                &&& sentencia_bien_puesta(s)
                &&& retorna_nada(s) ==> hay(t, q, TipoTokenV::LlaveCierra)
                &&& termina_en_expresion(s) ==> no_opera(t[q].tipo)
                &&& no_opera(t[p].tipo) ==> no_opera(formato_sentencia(s)[0])
            },
            Err(_) => true,
        },
    decreases restantes(t, p), 40nat,
{
    lema_nombres_y_operadores(t[p].tipo);
    match t[p].tipo {
        TipoTokenV::Mostrar => {
            lema_expresion_termina(t, p + 1);
            lema_nombres_y_operadores(TipoTokenV::Mostrar);
        },
        TipoTokenV::Var => {
            lema_nombres_y_operadores(TipoTokenV::Var);
            match nombre_v(t, p + 1, Esperado::NombreDeVariable) {
                Ok((nombre, q)) => {
                    match consumir_v(t, q, TipoTokenV::Asignacion, Esperado::AsignacionDeVariable) {
                        Ok(r) => {
                            lema_expresion_termina(t, r);
                        },
                        Err(_) => {},
                    }
                },
                Err(_) => {},
            }
        },
        TipoTokenV::Si => {
            lema_nombres_y_operadores(TipoTokenV::Si);
            lema_expresion_avanza(t, p + 1);
            match expresion_v(t, p + 1) {
                Ok((c, q)) => {
                    lema_llaves_leidas(t, q, Esperado::LlaveAbreDeCondicion, Esperado::LlaveCierraDeSi);
                    lema_llaves_avanzan(t, q, Esperado::LlaveAbreDeCondicion, Esperado::LlaveCierraDeSi);
                    match entre_llaves_v(
                        t,
                        q,
                        Esperado::LlaveAbreDeCondicion,
                        Esperado::LlaveCierraDeSi,
                    ) {
                        Ok((entonces, r)) => {
                            if hay(t, r, TipoTokenV::Sino) {
                                lema_llaves_leidas(
                                    t,
                                    r + 1,
                                    Esperado::LlaveAbreDeSino,
                                    Esperado::LlaveCierraDeSino,
                                );
                            }
                        },
                        Err(_) => {},
                    }
                },
                Err(_) => {},
            }
        },
        TipoTokenV::Mientras => {
            lema_nombres_y_operadores(TipoTokenV::Mientras);
            lema_expresion_avanza(t, p + 1);
            match expresion_v(t, p + 1) {
                Ok((c, q)) => {
                    lema_llaves_leidas(
                        t,
                        q,
                        Esperado::LlaveAbreDeCondicion,
                        Esperado::LlaveCierraDeMientras,
                    );
                },
                Err(_) => {},
            }
        },
        TipoTokenV::Para => {
            lema_nombres_y_operadores(TipoTokenV::Para);
            lema_rango_avanza(t, p);
            match rango_v(t, p) {
                Ok((_, q)) => {
                    lema_llaves_leidas(t, q, Esperado::LlaveAbreDeRango, Esperado::LlaveCierraDePara);
                },
                Err(_) => {},
            }
        },
        TipoTokenV::Retornar => {
            lema_nombres_y_operadores(TipoTokenV::Retornar);
            if !hay(t, p + 1, TipoTokenV::LlaveCierra) {
                lema_expresion_termina(t, p + 1);
            }
        },
        TipoTokenV::Identificador(id) => {
            lema_de_nombre_leida(t, p, id);
        },
        TipoTokenV::Y => {
            lema_de_nombre_leida(t, p, "y"@);
        },
        TipoTokenV::O => {
            lema_de_nombre_leida(t, p, "o"@);
        },
        _ => {
            lema_expresion_termina(t, p);
            lema_nombres_y_operadores(TipoTokenV::ParentesisAbre);
        },
    }
}

/// As [`lema_sentencia_leida`], of a statement that starts with a name.
pub proof fn lema_de_nombre_leida(t: Seq<TokenV>, p: int, id: Seq<char>)
    requires
        tokens_propios(t),
        0 <= p < t.len(),
        nombre_de_token(t[p].tipo) == Some(id),
    ensures
        match sentencia_de_nombre_v(t, p, id) {
            Ok((s, q)) => {
                &&& sentencia_bien_puesta(s)
                &&& !retorna_nada(s)
                &&& termina_en_expresion(s) ==> no_opera(t[q].tipo)
                &&& no_opera(t[p].tipo) ==> no_opera(formato_sentencia(s)[0])
            },
            Err(_) => true,
        },
{
    lema_nombres_y_operadores(t[p].tipo);
    lema_nombres_y_operadores(TipoTokenV::ParentesisAbre);
    if hay(t, p + 1, TipoTokenV::Asignacion) {
        lema_expresion_termina(t, p + 2);
        if no_opera(t[p].tipo) {
            assert(t[p].tipo == TipoTokenV::Identificador(id));
            assert(token_de_nombre(id) == TipoTokenV::Identificador(id));
            lema_nombres_y_operadores(token_de_nombre(id));
        }
    } else {
        lema_expresion_termina(t, p);
    }
}

/// A block between braces that the parser reads can be written and read back.
pub proof fn lema_llaves_leidas(t: Seq<TokenV>, p: int, abre: Esperado, cierra: Esperado)
    requires
        tokens_propios(t),
        0 <= p < t.len(),
    ensures
        match entre_llaves_v(t, p, abre, cierra) {
            Ok((b, _)) => bloque_bien_puesto(b),
            Err(_) => true,
        },
    decreases restantes(t, p), 42nat,
{
    if hay(t, p, TipoTokenV::LlaveAbre) {
        lema_bloque_leido(t, p + 1, Seq::empty());
    }
}

/// Whether the statements `acc`, read up to `p`, can go on to make a block
/// that can be written and read back.
pub open spec fn va_bien_puesto(t: Seq<TokenV>, p: int, acc: Seq<SentenciaV>) -> bool {
    forall|j: int|
        0 <= j < acc.len() ==> {
            &&& sentencia_bien_puesta(#[trigger] acc[j])
            &&& retorna_nada(acc[j]) ==> j == acc.len() - 1 && hay(t, p, TipoTokenV::LlaveCierra)
            &&& termina_en_expresion(acc[j]) && j + 1 < acc.len() ==> no_opera(
                formato_sentencia(acc[j + 1])[0],
            )
            &&& termina_en_expresion(acc[j]) && j == acc.len() - 1 ==> no_opera(t[p].tipo)
        }
}

/// A block that the parser reads can be written and read back.
pub proof fn lema_bloque_leido(t: Seq<TokenV>, p: int, acc: Seq<SentenciaV>)
    requires
        tokens_propios(t),
        0 <= p < t.len(),
        va_bien_puesto(t, p, acc),
    ensures
        match bloque_v(t, p, acc) {
            Ok((b, _)) => bloque_bien_puesto(b),
            Err(_) => true,
        },
    decreases restantes(t, p), 41nat,
{
    if !(hay(t, p, TipoTokenV::LlaveCierra) || en_fin(t, p)) {
        lema_sentencia_leida(t, p);
        lema_sentencia_avanza(t, p);
        match sentencia_v(t, p) {
            Ok((s, q)) => {
                let nuevo = acc.push(s);
                assert forall|j: int| 0 <= j < nuevo.len() implies {
                    &&& sentencia_bien_puesta(#[trigger] nuevo[j])
                    &&& retorna_nada(nuevo[j]) ==> j == nuevo.len() - 1 && hay(
                        t,
                        q,
                        TipoTokenV::LlaveCierra,
                    )
                    &&& termina_en_expresion(nuevo[j]) && j + 1 < nuevo.len() ==> no_opera(
                        formato_sentencia(nuevo[j + 1])[0],
                    )
                    &&& termina_en_expresion(nuevo[j]) && j == nuevo.len() - 1 ==> no_opera(t[q].tipo)
                } by {
                    if j < acc.len() {
                        assert(nuevo[j] == acc[j]);
                        if j + 1 < acc.len() {
                            assert(nuevo[j + 1] == acc[j + 1]);
                        }
                    }
                }
                lema_bloque_leido(t, q, nuevo);
            },
            Err(_) => {},
        }
    } else {
        assert forall|i: int| 0 <= i < acc.len() implies {
            &&& sentencia_bien_puesta(#[trigger] acc[i])
            &&& retorna_nada(acc[i]) ==> i == acc.len() - 1
            &&& termina_en_expresion(acc[i]) && i + 1 < acc.len() ==> no_opera(
                formato_sentencia(acc[i + 1])[0],
            )
        } by {}
    }
}

/// A declaration that the parser reads holds a `retornar` without a value
/// only at the end of a block.
pub proof fn lema_declaracion_leida(t: Seq<TokenV>, p: int)
    requires
        tokens_propios(t),
        0 <= p < t.len(),
    ensures
        match declaracion_v(t, p) {
            Ok((d, q)) => declaracion_bien_puesta(d) && p < q < t.len(),
            Err(_) => true,
        },
{
    reveal(declaracion_v);
    match t[p].tipo {
        TipoTokenV::Escena => {
            match nombre_v(t, p + 1, Esperado::NombreDeEscena) {
                Ok((nombre, q)) => {
                    lema_llaves_leidas(
                        t,
                        q,
                        Esperado::LlaveAbreDeEscena,
                        Esperado::LlaveCierraDeEscena,
                    );
                    lema_llaves_avanzan(
                        t,
                        q,
                        Esperado::LlaveAbreDeEscena,
                        Esperado::LlaveCierraDeEscena,
                    );
                },
                Err(_) => {},
            }
        },
        TipoTokenV::Funcion => {
            match nombre_v(t, p + 1, Esperado::NombreDeFuncion) {
                Ok((nombre, q)) => {
                    lema_lista_avanza(t, q);
                    match lista_de_parametros_v(t, q) {
                        Ok((parametros, r)) => {
                            match tipo_de_retorno_v(t, r) {
                                Ok((tipo, w)) => {
                                    lema_llaves_leidas(
                                        t,
                                        w,
                                        Esperado::LlaveAbreDeFuncion,
                                        Esperado::LlaveCierraDeFuncion,
                                    );
                                    lema_llaves_avanzan(
                                        t,
                                        w,
                                        Esperado::LlaveAbreDeFuncion,
                                        Esperado::LlaveCierraDeFuncion,
                                    );
                                },
                                Err(_) => {},
                            }
                        },
                        Err(_) => {},
                    }
                },
                Err(_) => {},
            }
        },
        _ => {},
    }
}

/// Parameters that are read end after they start, inside the tokens.
pub proof fn lema_parametros_avanzan(t: Seq<TokenV>, p: int, acc: Seq<ParametroV>)
    requires
        bien_formados(t),
        0 <= p < t.len(),
    ensures
        match parametros_v(t, p, acc) {
            Ok((_, q)) => p < q < t.len(),
            Err(_) => true,
        },
    decreases restantes(t, p),
{
    match nombre_v(t, p, Esperado::NombreDeParametro) {
        Ok((nombre, q)) => {
            match consumir_v(t, q, TipoTokenV::DosPuntos, Esperado::DosPuntosDeParametro) {
                Ok(r) => {
                    match tipo_v(t, r) {
                        Ok((tipo_dato, w)) => {
                            if hay(t, w, TipoTokenV::Coma) {
                                lema_parametros_avanzan(
                                    t,
                                    w + 1,
                                    acc.push(ParametroV { nombre, tipo_dato }),
                                );
                            }
                        },
                        Err(_) => {},
                    }
                },
                Err(_) => {},
            }
        },
        Err(_) => {},
    }
}

/// A parameter list that is read ends after it starts, inside the tokens.
pub proof fn lema_lista_avanza(t: Seq<TokenV>, p: int)
    requires
        bien_formados(t),
        0 <= p < t.len(),
    ensures
        match lista_de_parametros_v(t, p) {
            Ok((_, q)) => p < q < t.len(),
            Err(_) => true,
        },
{
    match consumir_v(t, p, TipoTokenV::ParentesisAbre, Esperado::ParentesisAbreDeFuncion) {
        Ok(q) => {
            if !hay(t, q, TipoTokenV::ParentesisCierra) {
                lema_parametros_avanzan(t, q, Seq::empty());
            }
        },
        Err(_) => {},
    }
}

/// Declarations that the parser reads hold a `retornar` without a value only
/// at the end of a block.
pub proof fn lema_declaraciones_leidas(t: Seq<TokenV>, p: int, acc: Seq<DeclaracionV>)
    requires
        tokens_propios(t),
        0 <= p < t.len(),
        programa_bien_puesto(acc),
    ensures
        match declaraciones_v(t, p, acc) {
            Ok(ds) => programa_bien_puesto(ds),
            Err(_) => true,
        },
    decreases restantes(t, p),
{
    if !en_fin(t, p) {
        lema_declaracion_leida(t, p);
        match declaracion_v(t, p) {
            Ok((d, q)) => {
                assert forall|j: int| 0 <= j < acc.push(d).len() implies declaracion_bien_puesta(
                    #[trigger] acc.push(d)[j],
                ) by {
                    if j < acc.len() {
                        assert(acc.push(d)[j] == acc[j]);
                    }
                }
                lema_declaraciones_leidas(t, q, acc.push(d));
            },
            Err(_) => {},
        }
    }
}

/// Reading the canonical writing of a program in which a `retornar` without
/// a value stands only at the end of a block gives the program back, but
/// for positions.
pub proof fn lema_lee_programa(u: Seq<TokenV>, programa: ProgramaV)
    requires
        programa_bien_puesto(programa.declaraciones),
        u.len() == formato_programa(programa).len(),
        forall|i: int| 0 <= i < u.len() ==> (#[trigger] u[i]).tipo == formato_programa(programa)[i],
    ensures
        programa_de(u) is Ok,
        mismo_programa(programa_de(u)->Ok_0, programa),
{
    let w = formato_declaraciones(programa.declaraciones, 0);
    let todo = formato_programa(programa);
    assert(todo.len() == w.len() + 1);
    assert(u[w.len() as int].tipo == todo[w.len() as int]);
    assert(u.last().tipo is Eof);
    assert forall|i: int| 0 <= i < w.len() implies (#[trigger] u[0 + i]).tipo == w[i] by {
        assert(u[i].tipo == todo[i]);
    }
    lema_lee_declaraciones(u, 0, programa.declaraciones, 0, Seq::empty());
}

/// Every program that the parser reads from tokens that hold no identifier
/// named `y` or `o`, written out in the canonical way, is read back as the
/// same program, but for the positions in it.
pub proof fn ley_ida_y_vuelta(t: Seq<TokenV>, u: Seq<TokenV>)
    requires
        tokens_propios(t),
        programa_de(t) is Ok,
        u.len() == formato_programa(programa_de(t)->Ok_0).len(),
        forall|i: int|
            0 <= i < u.len() ==> (#[trigger] u[i]).tipo == formato_programa(programa_de(t)->Ok_0)[i],
    ensures
        programa_de(u) is Ok,
        mismo_programa(programa_de(u)->Ok_0, programa_de(t)->Ok_0),
{
    lema_declaraciones_leidas(t, 0, Seq::empty());
    lema_lee_programa(u, programa_de(t)->Ok_0);
}


/// The kinds of the tokens of a stream, in order.
pub open spec fn tipos_de(t: Seq<TokenV>) -> Seq<TipoTokenV> {
    Seq::new(t.len(), |i: int| t[i].tipo)
}

/// Appends a token of the kind `tipo` to `v`.
fn agregar(v: &mut Vec<Token>, tipo: TipoToken)
    ensures
        tipos_de(vista_tokens(final(v)@)) == tipos_de(vista_tokens(old(v)@)).push(tipo@),
{
    let columna: usize = if v.len() < usize::MAX {
        v.len() + 1
    } else {
        v.len()
    };
    v.push(Token::new(tipo, String::new(), Posicion::new(1, columna)));
    assert(tipos_de(vista_tokens(v@)) =~= tipos_de(vista_tokens(old(v)@)).push(tipo@));
}

/// The token that writes a name.
fn nombre_como_token(x: &String) -> (t: TipoToken)
    ensures
        t@ == token_de_nombre(x@),
{
    proof {
        reveal_strlit("y");
        reveal_strlit("o");
    }
    let s = x.as_str();
    if s.unicode_len() == 1 {
        let c: char = s.get_char(0);
        if c == 'y' {
            assert(x@ =~= "y"@);
            return TipoToken::Y;
        }
        if c == 'o' {
            assert(x@ =~= "o"@);
            return TipoToken::O;
        }
        assert(x@[0] != "y"@[0]);
        assert(x@[0] != "o"@[0]);
    }
    TipoToken::Identificador(x.clone())
}

/// The token that writes a binary operator.
fn operador_como_token(op: &OperadorBinario) -> (t: TipoToken)
    ensures
        t@ == token_de_operador(*op),
{
    match op {
        OperadorBinario::Suma => TipoToken::Suma,
        OperadorBinario::Resta => TipoToken::Resta,
        OperadorBinario::Multiplicacion => TipoToken::Multiplicacion,
        OperadorBinario::Division => TipoToken::Division,
        OperadorBinario::Modulo => TipoToken::Modulo,
        OperadorBinario::Igual => TipoToken::Igual,
        OperadorBinario::Diferente => TipoToken::Diferente,
        OperadorBinario::Menor => TipoToken::Menor,
        OperadorBinario::MenorIgual => TipoToken::MenorIgual,
        OperadorBinario::Mayor => TipoToken::Mayor,
        OperadorBinario::MayorIgual => TipoToken::MayorIgual,
        OperadorBinario::Y => TipoToken::Y,
        OperadorBinario::O => TipoToken::O,
    }
}

/// The token that writes a type name.
fn tipo_como_token(t: &Tipo) -> (r: TipoToken)
    ensures
        r@ == token_de_tipo(*t),
{
    match t {
        Tipo::Numero => TipoToken::TipoNumero,
        Tipo::Decimal => TipoToken::TipoDecimal,
        Tipo::Texto => TipoToken::TipoTexto,
        Tipo::Booleano => TipoToken::TipoBooleano,
        Tipo::Vector3 => TipoToken::TipoVector3,
        Tipo::Pose => TipoToken::TipoPose,
        Tipo::Mano => TipoToken::TipoMano,
        Tipo::Controlador => TipoToken::TipoControlador,
    }
}

/// Appends the canonical writing of an expression to `v`.
pub fn escribir_expresion(v: &mut Vec<Token>, e: &Expresion)
    ensures
        tipos_de(vista_tokens(final(v)@)) == tipos_de(vista_tokens(old(v)@)) + formato_expresion(e@),
    decreases e, 1nat,
{
    let ghost antes = tipos_de(vista_tokens(v@));
    match e {
        Expresion::Numero(n, _) => {
            agregar(v, TipoToken::Numero(*n));
            assert(tipos_de(vista_tokens(v@)) =~= antes + formato_expresion(e@));
        },
        Expresion::Decimal(d, _) => {
            agregar(v, TipoToken::Decimal(d.clone()));
            assert(tipos_de(vista_tokens(v@)) =~= antes + formato_expresion(e@));
        },
        Expresion::Texto(t, _) => {
            agregar(v, TipoToken::Texto(t.clone()));
            assert(tipos_de(vista_tokens(v@)) =~= antes + formato_expresion(e@));
        },
        Expresion::Booleano(b, _) => {
            if *b {
                agregar(v, TipoToken::Verdadero);
            } else {
                agregar(v, TipoToken::Falso);
            }
            assert(tipos_de(vista_tokens(v@)) =~= antes + formato_expresion(e@));
        },
        Expresion::Variable(x, _) => {
            agregar(v, TipoToken::ParentesisAbre);
            agregar(v, nombre_como_token(x));
            agregar(v, TipoToken::ParentesisCierra);
            assert(formato_expresion(e@) == entre_parentesis(seq![token_de_nombre(x@)]));
            assert(tipos_de(vista_tokens(v@)) =~= antes + entre_parentesis(
                seq![token_de_nombre(x@)],
            ));
        },
        Expresion::Binaria(a, op, b, _) => {
            agregar(v, TipoToken::ParentesisAbre);
            escribir_expresion(v, a);
            agregar(v, operador_como_token(op));
            escribir_expresion(v, b);
            agregar(v, TipoToken::ParentesisCierra);
            let ghost wa = formato_expresion(a@);
            let ghost wb = formato_expresion(b@);
            assert(formato_expresion(e@) == entre_parentesis(junto(wa, token_de_operador(*op), wb)));
            assert(tipos_de(vista_tokens(v@)) =~= antes + entre_parentesis(
                junto(wa, token_de_operador(*op), wb),
            ));
        },
        Expresion::Unaria(op, a, _) => {
            agregar(v, TipoToken::ParentesisAbre);
            match op {
                OperadorUnario::Negacion => agregar(v, TipoToken::Resta),
                OperadorUnario::No => agregar(v, TipoToken::No),
            }
            escribir_expresion(v, a);
            agregar(v, TipoToken::ParentesisCierra);
            let ghost wa = formato_expresion(a@);
            assert(formato_expresion(e@) == entre_parentesis(tras(token_de_unario(*op), wa)));
            assert(tipos_de(vista_tokens(v@)) =~= antes + entre_parentesis(
                tras(token_de_unario(*op), wa),
            ));
        },
        Expresion::Llamada(f, args, _) => {
            agregar(v, nombre_como_token(f));
            agregar(v, TipoToken::ParentesisAbre);
            if args.len() > 0 {
                escribir_argumentos(v, args, 0);
            }
            agregar(v, TipoToken::ParentesisCierra);
            let ghost wargs = formato_argumentos(vista_expresiones(args@), 0);
            assert(formato_expresion(e@) == tras(
                token_de_nombre(f@),
                entre_parentesis(wargs),
            ));
            assert(tipos_de(vista_tokens(v@)) =~= antes + tras(
                token_de_nombre(f@),
                entre_parentesis(wargs),
            ));
        },
    }
}

/// Appends the canonical writing of the arguments `args[i..]` to `v`.
pub fn escribir_argumentos(v: &mut Vec<Token>, args: &Vec<Expresion>, i: usize)
    requires
        i < args.len(),
    ensures
        tipos_de(vista_tokens(final(v)@)) == tipos_de(vista_tokens(old(v)@)) + formato_argumentos(
            vista_expresiones(args@),
            i as int,
        ),
    decreases args, args.len() - i,
{
    let ghost antes = tipos_de(vista_tokens(v@));
    escribir_expresion(v, &args[i]);
    if i + 1 < args.len() {
        agregar(v, TipoToken::Coma);
        escribir_argumentos(v, args, i + 1);
    }
    assert(tipos_de(vista_tokens(v@)) =~= antes + formato_argumentos(
        vista_expresiones(args@),
        i as int,
    ));
}

/// Appends the canonical writing of a block between braces to `v`.
pub fn escribir_llaves(v: &mut Vec<Token>, b: &Vec<Sentencia>)
    ensures
        tipos_de(vista_tokens(final(v)@)) == tipos_de(vista_tokens(old(v)@)) + en_llaves(
            formato_bloque(vista_bloque(b@), 0),
        ),
    decreases b, b.len() + 1,
{
    let ghost antes = tipos_de(vista_tokens(v@));
    agregar(v, TipoToken::LlaveAbre);
    escribir_bloque(v, b, 0);
    agregar(v, TipoToken::LlaveCierra);
    assert(tipos_de(vista_tokens(v@)) =~= antes + en_llaves(formato_bloque(vista_bloque(b@), 0)));
}

/// Appends the canonical writing of the statements `b[i..]` to `v`.
pub fn escribir_bloque(v: &mut Vec<Token>, b: &Vec<Sentencia>, i: usize)
    requires
        i <= b.len(),
    ensures
        tipos_de(vista_tokens(final(v)@)) == tipos_de(vista_tokens(old(v)@)) + formato_bloque(
            vista_bloque(b@),
            i as int,
        ),
    decreases b, b.len() - i,
{
    let ghost antes = tipos_de(vista_tokens(v@));
    if i < b.len() {
        escribir_sentencia(v, &b[i]);
        escribir_bloque(v, b, i + 1);
    }
    assert(tipos_de(vista_tokens(v@)) =~= antes + formato_bloque(vista_bloque(b@), i as int));
}

/// Appends the canonical writing of a statement to `v`.
pub fn escribir_sentencia(v: &mut Vec<Token>, s: &Sentencia)
    ensures
        tipos_de(vista_tokens(final(v)@)) == tipos_de(vista_tokens(old(v)@)) + formato_sentencia(s@),
    decreases s, 1nat,
{
    let ghost antes = tipos_de(vista_tokens(v@));
    match s {
        Sentencia::Mostrar(e, _) => {
            agregar(v, TipoToken::Mostrar);
            escribir_expresion(v, e);
            let ghost w = tras(TipoTokenV::Mostrar, formato_expresion(e@));
            assert(formato_sentencia(s@) == w);
            assert(tipos_de(vista_tokens(v@)) =~= antes + w);
        },
        Sentencia::Var(n, e, _) => {
            agregar(v, TipoToken::Var);
            agregar(v, nombre_como_token(n));
            agregar(v, TipoToken::Asignacion);
            escribir_expresion(v, e);
            let ghost w = tras(
                TipoTokenV::Var,
                tras(
                    token_de_nombre(n@),
                    tras(TipoTokenV::Asignacion, formato_expresion(e@)),
                ),
            );
            assert(formato_sentencia(s@) == w);
            assert(tipos_de(vista_tokens(v@)) =~= antes + w);
        },
        Sentencia::Asignacion(n, e, _) => {
            agregar(v, nombre_como_token(n));
            agregar(v, TipoToken::Asignacion);
            escribir_expresion(v, e);
            let ghost w = tras(
                token_de_nombre(n@),
                tras(TipoTokenV::Asignacion, formato_expresion(e@)),
            );
            assert(formato_sentencia(s@) == w);
            assert(tipos_de(vista_tokens(v@)) =~= antes + w);
        },
        Sentencia::Si(c, a, sino, _) => {
            agregar(v, TipoToken::Si);
            escribir_expresion(v, c);
            escribir_llaves(v, a);
            let ghost w1 = tras(TipoTokenV::Si, formato_expresion(c@)) + en_llaves(
                formato_bloque(vista_bloque(a@), 0),
            );
            assert(tipos_de(vista_tokens(v@)) =~= antes + w1);
            match sino {
                Some(b) => {
                    agregar(v, TipoToken::Sino);
                    escribir_llaves(v, b);
                    let ghost w2 = tras(
                        TipoTokenV::Sino,
                        en_llaves(formato_bloque(vista_bloque(b@), 0)),
                    );
                    assert(formato_sentencia(s@) == w1 + w2);
                    assert(tipos_de(vista_tokens(v@)) =~= antes + (w1 + w2));
                },
                None => {
                    assert(formato_sentencia(s@) == w1 + Seq::<TipoTokenV>::empty());
                    assert(tipos_de(vista_tokens(v@)) =~= antes + (w1 + Seq::<TipoTokenV>::empty()));
                },
            }
        },
        Sentencia::Mientras(c, a, _) => {
            agregar(v, TipoToken::Mientras);
            escribir_expresion(v, c);
            escribir_llaves(v, a);
            let ghost w = tras(TipoTokenV::Mientras, formato_expresion(c@)) + en_llaves(
                formato_bloque(vista_bloque(a@), 0),
            );
            assert(formato_sentencia(s@) == w);
            assert(tipos_de(vista_tokens(v@)) =~= antes + w);
        },
        Sentencia::Para(n, x, y, a, _) => {
            agregar(v, TipoToken::Para);
            agregar(v, nombre_como_token(n));
            agregar(v, TipoToken::Asignacion);
            escribir_expresion(v, x);
            agregar(v, TipoToken::Coma);
            escribir_expresion(v, y);
            escribir_llaves(v, a);
            let ghost w = tras(
                TipoTokenV::Para,
                tras(
                    token_de_nombre(n@),
                    tras(
                        TipoTokenV::Asignacion,
                        junto(formato_expresion(x@), TipoTokenV::Coma, formato_expresion(y@)),
                    ),
                ),
            ) + en_llaves(formato_bloque(vista_bloque(a@), 0));
            assert(formato_sentencia(s@) == w);
            assert(tipos_de(vista_tokens(v@)) =~= antes + w);
        },
        Sentencia::Retornar(e, _) => {
            agregar(v, TipoToken::Retornar);
            match e {
                Some(x) => {
                    escribir_expresion(v, x);
                    let ghost w = tras(TipoTokenV::Retornar, formato_expresion(x@));
                    assert(formato_sentencia(s@) == w);
                    assert(tipos_de(vista_tokens(v@)) =~= antes + w);
                },
                None => {
                    assert(formato_sentencia(s@) == seq![TipoTokenV::Retornar]);
                    assert(tipos_de(vista_tokens(v@)) =~= antes + seq![TipoTokenV::Retornar]);
                },
            }
        },
        Sentencia::Expresion(e) => {
            agregar(v, TipoToken::ParentesisAbre);
            escribir_expresion(v, e);
            agregar(v, TipoToken::ParentesisCierra);
            let ghost w = entre_parentesis(formato_expresion(e@));
            assert(formato_sentencia(s@) == w);
            assert(tipos_de(vista_tokens(v@)) =~= antes + w);
        },
    }
}

/// Appends the canonical writing of the parameters `ps[i..]` to `v`.
pub fn escribir_parametros(v: &mut Vec<Token>, ps: &Vec<Parametro>, i: usize)
    requires
        i <= ps.len(),
    ensures
        tipos_de(vista_tokens(final(v)@)) == tipos_de(vista_tokens(old(v)@)) + formato_parametros(
            vista_parametros(ps@),
            i as int,
        ),
    decreases ps.len() - i,
{
    let ghost antes = tipos_de(vista_tokens(v@));
    if i < ps.len() {
        agregar(v, nombre_como_token(&ps[i].nombre));
        agregar(v, TipoToken::DosPuntos);
        agregar(v, tipo_como_token(&ps[i].tipo_dato));
        if i + 1 < ps.len() {
            agregar(v, TipoToken::Coma);
            escribir_parametros(v, ps, i + 1);
        }
    }
    assert(tipos_de(vista_tokens(v@)) =~= antes + formato_parametros(vista_parametros(ps@), i as int));
}

/// Appends the canonical writing of a declaration to `v`.
pub fn escribir_declaracion(v: &mut Vec<Token>, d: &Declaracion)
    ensures
        tipos_de(vista_tokens(final(v)@)) == tipos_de(vista_tokens(old(v)@)) + formato_declaracion(d@),
{
    let ghost antes = tipos_de(vista_tokens(v@));
    match d {
        Declaracion::Escena(e) => {
            agregar(v, TipoToken::Escena);
            agregar(v, nombre_como_token(&e.nombre));
            escribir_llaves(v, &e.cuerpo);
        },
        Declaracion::Funcion(f) => {
            agregar(v, TipoToken::Funcion);
            agregar(v, nombre_como_token(&f.nombre));
            agregar(v, TipoToken::ParentesisAbre);
            escribir_parametros(v, &f.parametros, 0);
            agregar(v, TipoToken::ParentesisCierra);
            match &f.tipo_retorno {
                Some(tipo) => {
                    agregar(v, TipoToken::DosPuntos);
                    agregar(v, tipo_como_token(tipo));
                },
                None => {},
            }
            escribir_llaves(v, &f.cuerpo);
        },
    }
    assert(tipos_de(vista_tokens(v@)) =~= antes + formato_declaracion(d@));
}

/// The canonical writing of a program, as tokens that end with the end marker.
///
/// What is written is read back by the parser as the same program, but for
/// positions, if the program was read by the parser: see [`ley_ida_y_vuelta`].
pub fn formatear(programa: &Programa) -> (v: Vec<Token>)
    ensures
        tipos_de(vista_tokens(v@)) == formato_programa(programa@),
        bien_formados(vista_tokens(v@)),
{
    let mut v: Vec<Token> = Vec::new();
    let ghost ds = vista_declaraciones(programa.declaraciones@);
    let mut i: usize = 0;
    assert(tipos_de(vista_tokens(v@)) =~= Seq::empty());
    assert(formato_declaraciones(ds, 0) =~= Seq::empty() + formato_declaraciones(ds, 0));
    while i < programa.declaraciones.len()
        invariant
            i <= programa.declaraciones.len(),
            ds == vista_declaraciones(programa.declaraciones@),
            tipos_de(vista_tokens(v@)) + formato_declaraciones(ds, i as int) == formato_declaraciones(
                ds,
                0,
            ),
        decreases programa.declaraciones.len() - i,
    {
        let ghost antes = tipos_de(vista_tokens(v@));
        escribir_declaracion(&mut v, &programa.declaraciones[i]);
        assert(tipos_de(vista_tokens(v@)) + formato_declaraciones(ds, i + 1) =~= antes
            + formato_declaraciones(ds, i as int));
        i += 1;
    }
    assert(tipos_de(vista_tokens(v@)) =~= formato_declaraciones(ds, 0));
    agregar(&mut v, TipoToken::Eof);
    assert(vista_tokens(v@).last().tipo == tipos_de(vista_tokens(v@)).last());
    v
}


} // verus!
