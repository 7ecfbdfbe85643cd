//! Abstract syntax of V-Code programs, with the mathematical model of each node.

use vstd::prelude::*;

verus! {

/// A place in the source text; lines and columns count from 1.
#[derive(Debug, Clone, Copy, PartialEq, Eq, Structural)]
pub struct Posicion {
    pub linea: usize,
    pub columna: usize,
}

impl Posicion {
    /// The position at line `linea`, column `columna`.
    pub fn new(linea: usize, columna: usize) -> (p: Self)
        ensures
            p.linea == linea,
            p.columna == columna,
    {
        Posicion { linea, columna }
    }
}

/// Declared types of parameters and results; read by the parser, never checked.
#[derive(Debug, Clone, Copy, PartialEq, Eq, Structural)]
pub enum Tipo {
    Numero,
    Decimal,
    Texto,
    Booleano,
    Vector3,
    Pose,
    Mano,
    Controlador,
}

impl View for Tipo {
    type V = Tipo;

    open spec fn view(&self) -> Tipo {
        *self
    }
}

/// The binary operators.
#[derive(Debug, Clone, Copy, PartialEq, Eq, Structural)]
pub enum OperadorBinario {
    Suma,
    Resta,
    Multiplicacion,
    Division,
    Modulo,
    Igual,
    Diferente,
    Menor,
    MenorIgual,
    Mayor,
    MayorIgual,
    Y,
    O,
}

/// The unary operators: `-` and `no`.
#[derive(Debug, Clone, Copy, PartialEq, Eq, Structural)]
pub enum OperadorUnario {
    Negacion,
    No,
}

/// An expression. A decimal literal keeps the digits it was written with.
#[derive(Debug, PartialEq)]
pub enum Expresion {
    Numero(i64, Posicion),
    Decimal(String, Posicion),
    Texto(String, Posicion),
    Booleano(bool, Posicion),
    Variable(String, Posicion),
    Binaria(Box<Expresion>, OperadorBinario, Box<Expresion>, Posicion),
    Unaria(OperadorUnario, Box<Expresion>, Posicion),
    Llamada(String, Vec<Expresion>, Posicion),
}

/// Model of [`Expresion`].
pub enum ExpresionV {
    Numero(i64, Posicion),
    Decimal(Seq<char>, Posicion),
    Texto(Seq<char>, Posicion),
    Booleano(bool, Posicion),
    Variable(Seq<char>, Posicion),
    Binaria(Box<ExpresionV>, OperadorBinario, Box<ExpresionV>, Posicion),
    Unaria(OperadorUnario, Box<ExpresionV>, Posicion),
    Llamada(Seq<char>, Seq<ExpresionV>, Posicion),
}

/// Models of the expressions of a list, in order.
pub open spec fn vista_expresiones(v: Seq<Expresion>) -> Seq<ExpresionV>
    decreases v,
{
    Seq::new(
        v.len(),
        |i: int|
            if 0 <= i < v.len() {
                v[i].vista()
            } else {
                arbitrary()
            },
    )
}

impl Expresion {
    /// The model of the node.
    pub open spec fn vista(self) -> ExpresionV
        decreases self,
    {
        match self {
            Expresion::Numero(n, p) => ExpresionV::Numero(n, p),
            Expresion::Decimal(s, p) => ExpresionV::Decimal(s@, p),
            Expresion::Texto(s, p) => ExpresionV::Texto(s@, p),
            Expresion::Booleano(b, p) => ExpresionV::Booleano(b, p),
            Expresion::Variable(s, p) => ExpresionV::Variable(s@, p),
            Expresion::Binaria(a, op, b, p) => ExpresionV::Binaria(
                Box::new((*a).vista()),
                op,
                Box::new((*b).vista()),
                p,
            ),
            Expresion::Unaria(op, a, p) => ExpresionV::Unaria(op, Box::new((*a).vista()), p),
            Expresion::Llamada(n, args, p) => ExpresionV::Llamada(n@, vista_expresiones(args@), p),
        }
    }

    /// The position the expression was read at.
    pub fn posicion(&self) -> (p: &Posicion)
        ensures
            *p == self@.posicion(),
    {
        match self {
            Expresion::Numero(_, pos) => pos,
            Expresion::Decimal(_, pos) => pos,
            Expresion::Texto(_, pos) => pos,
            Expresion::Booleano(_, pos) => pos,
            Expresion::Variable(_, pos) => pos,
            Expresion::Binaria(_, _, _, pos) => pos,
            Expresion::Unaria(_, _, pos) => pos,
            Expresion::Llamada(_, _, pos) => pos,
        }
    }
}

impl View for Expresion {
    type V = ExpresionV;

    open spec fn view(&self) -> ExpresionV {
        self.vista()
    }
}

/// Copies a list of expressions.
#[verifier::loop_isolation(false)]
pub fn clonar_expresiones(v: &Vec<Expresion>) -> (r: Vec<Expresion>)
    ensures
        vista_expresiones(r@) == vista_expresiones(v@),
    decreases v,
{
    let mut r: Vec<Expresion> = Vec::new();
    let mut i: usize = 0;
    while i < v.len()
        invariant
            i <= v.len(),
            r.len() == i,
            forall|j: int| 0 <= j < i ==> r[j]@ == v[j]@,
        decreases v.len() - i,
    {
        r.push(v[i].clone());
        i += 1;
    }
    assert(vista_expresiones(r@) =~= vista_expresiones(v@));
    r
}

impl Clone for Expresion {
    fn clone(&self) -> (r: Self)
        ensures
            r@ == self@,
        decreases self,
    {
        match self {
            Expresion::Numero(n, p) => Expresion::Numero(*n, *p),
            Expresion::Decimal(s, p) => Expresion::Decimal(s.clone(), *p),
            Expresion::Texto(s, p) => Expresion::Texto(s.clone(), *p),
            Expresion::Booleano(b, p) => Expresion::Booleano(*b, *p),
            Expresion::Variable(s, p) => Expresion::Variable(s.clone(), *p),
            Expresion::Binaria(a, op, b, p) => Expresion::Binaria(
                Box::new((&**a).clone()),
                *op,
                Box::new((&**b).clone()),
                *p,
            ),
            Expresion::Unaria(op, a, p) => Expresion::Unaria(*op, Box::new((&**a).clone()), *p),
            Expresion::Llamada(n, args, p) => Expresion::Llamada(
                n.clone(),
                clonar_expresiones(args),
                *p,
            ),
        }
    }
}

impl ExpresionV {
    /// The position the expression was read at.
    pub open spec fn posicion(self) -> Posicion {
        match self {
            ExpresionV::Numero(_, p) => p,
            ExpresionV::Decimal(_, p) => p,
            ExpresionV::Texto(_, p) => p,
            ExpresionV::Booleano(_, p) => p,
            ExpresionV::Variable(_, p) => p,
            ExpresionV::Binaria(_, _, _, p) => p,
            ExpresionV::Unaria(_, _, p) => p,
            ExpresionV::Llamada(_, _, p) => p,
        }
    }
}

/// A statement.
#[derive(Debug, PartialEq)]
pub enum Sentencia {
    Mostrar(Expresion, Posicion),
    Var(String, Expresion, Posicion),
    Asignacion(String, Expresion, Posicion),
    Si(Expresion, Vec<Sentencia>, Option<Vec<Sentencia>>, Posicion),
    Mientras(Expresion, Vec<Sentencia>, Posicion),
    Para(String, Expresion, Expresion, Vec<Sentencia>, Posicion),
    Retornar(Option<Expresion>, Posicion),
    Expresion(Expresion),
}

/// Model of [`Sentencia`].
pub enum SentenciaV {
    Mostrar(ExpresionV, Posicion),
    Var(Seq<char>, ExpresionV, Posicion),
    Asignacion(Seq<char>, ExpresionV, Posicion),
    Si(ExpresionV, Seq<SentenciaV>, Option<Seq<SentenciaV>>, Posicion),
    Mientras(ExpresionV, Seq<SentenciaV>, Posicion),
    Para(Seq<char>, ExpresionV, ExpresionV, Seq<SentenciaV>, Posicion),
    Retornar(Option<ExpresionV>, Posicion),
    Expresion(ExpresionV),
}

/// Models of the statements of a block, in order.
pub open spec fn vista_bloque(v: Seq<Sentencia>) -> Seq<SentenciaV>
    decreases v,
{
    Seq::new(
        v.len(),
        |i: int|
            if 0 <= i < v.len() {
                v[i].vista()
            } else {
                arbitrary()
            },
    )
}

impl Sentencia {
    /// The model of the node.
    pub open spec fn vista(self) -> SentenciaV
        decreases self,
    {
        match self {
            Sentencia::Mostrar(e, p) => SentenciaV::Mostrar(e@, p),
            Sentencia::Var(n, e, p) => SentenciaV::Var(n@, e@, p),
            Sentencia::Asignacion(n, e, p) => SentenciaV::Asignacion(n@, e@, p),
            Sentencia::Si(c, a, b, p) => SentenciaV::Si(
                c@,
                vista_bloque(a@),
                match b {
                    Some(w) => Some(vista_bloque(w@)),
                    None => None,
                },
                p,
            ),
            Sentencia::Mientras(c, a, p) => SentenciaV::Mientras(c@, vista_bloque(a@), p),
            Sentencia::Para(n, x, y, a, p) => SentenciaV::Para(n@, x@, y@, vista_bloque(a@), p),
            Sentencia::Retornar(e, p) => SentenciaV::Retornar(
                match e {
                    Some(x) => Some(x@),
                    None => None,
                },
                p,
            ),
            Sentencia::Expresion(e) => SentenciaV::Expresion(e@),
        }
    }
}

impl View for Sentencia {
    type V = SentenciaV;

    open spec fn view(&self) -> SentenciaV {
        self.vista()
    }
}

/// Copies a block of statements.
#[verifier::loop_isolation(false)]
pub fn clonar_bloque(v: &Vec<Sentencia>) -> (r: Vec<Sentencia>)
    ensures
        vista_bloque(r@) == vista_bloque(v@),
    decreases v,
{
    let mut r: Vec<Sentencia> = Vec::new();
    let mut i: usize = 0;
    while i < v.len()
        invariant
            i <= v.len(),
            r.len() == i,
            forall|j: int| 0 <= j < i ==> r[j]@ == v[j]@,
        decreases v.len() - i,
    {
        r.push(v[i].clone());
        i += 1;
    }
    assert(vista_bloque(r@) =~= vista_bloque(v@));
    r
}

impl Clone for Sentencia {
    fn clone(&self) -> (r: Self)
        ensures
            r@ == self@,
        decreases self,
    {
        match self {
            Sentencia::Mostrar(e, p) => Sentencia::Mostrar(e.clone(), *p),
            Sentencia::Var(n, e, p) => Sentencia::Var(n.clone(), e.clone(), *p),
            Sentencia::Asignacion(n, e, p) => Sentencia::Asignacion(n.clone(), e.clone(), *p),
            Sentencia::Si(c, a, b, p) => Sentencia::Si(
                c.clone(),
                clonar_bloque(a),
                match b {
                    Some(w) => Some(clonar_bloque(w)),
                    None => None,
                },
                *p,
            ),
            Sentencia::Mientras(c, a, p) => Sentencia::Mientras(c.clone(), clonar_bloque(a), *p),
            Sentencia::Para(n, x, y, a, p) => Sentencia::Para(
                n.clone(),
                x.clone(),
                y.clone(),
                clonar_bloque(a),
                *p,
            ),
            Sentencia::Retornar(e, p) => Sentencia::Retornar(
                match e {
                    Some(x) => Some(x.clone()),
                    None => None,
                },
                *p,
            ),
            Sentencia::Expresion(e) => Sentencia::Expresion(e.clone()),
        }
    }
}

/// A parameter of a function: a name and the type written after it.
#[derive(Debug, PartialEq)]
pub struct Parametro {
    pub nombre: String,
    pub tipo_dato: Tipo,
}

/// Model of [`Parametro`].
pub struct ParametroV {
    pub nombre: Seq<char>,
    pub tipo_dato: Tipo,
}

impl View for Parametro {
    type V = ParametroV;

    open spec fn view(&self) -> ParametroV {
        ParametroV { nombre: self.nombre@, tipo_dato: self.tipo_dato }
    }
}

impl Clone for Parametro {
    fn clone(&self) -> (r: Self)
        ensures
            r@ == self@,
    {
        Parametro { nombre: self.nombre.clone(), tipo_dato: self.tipo_dato }
    }
}

/// Copies a list of parameters.
pub fn clonar_parametros(v: &Vec<Parametro>) -> (r: Vec<Parametro>)
    ensures
        vista_parametros(r@) == vista_parametros(v@),
{
    let mut r: Vec<Parametro> = Vec::new();
    let mut i: usize = 0;
    while i < v.len()
        invariant
            i <= v.len(),
            r.len() == i,
            forall|j: int| 0 <= j < i ==> r[j]@ == v[j]@,
        decreases v.len() - i,
    {
        r.push(v[i].clone());
        i += 1;
    }
    assert(vista_parametros(r@) =~= vista_parametros(v@));
    r
}

/// Models of the parameters of a list, in order.
pub open spec fn vista_parametros(v: Seq<Parametro>) -> Seq<ParametroV> {
    Seq::new(v.len(), |i: int| v[i]@)
}

/// A scene: a named block that runs when the program does.
#[derive(Debug, Clone, PartialEq)]
pub struct Escena {
    pub nombre: String,
    pub cuerpo: Vec<Sentencia>,
    pub pos: Posicion,
}

/// Model of [`Escena`].
pub struct EscenaV {
    pub nombre: Seq<char>,
    pub cuerpo: Seq<SentenciaV>,
    pub pos: Posicion,
}

impl View for Escena {
    type V = EscenaV;

    open spec fn view(&self) -> EscenaV {
        EscenaV { nombre: self.nombre@, cuerpo: vista_bloque(self.cuerpo@), pos: self.pos }
    }
}

/// A function declaration.
#[derive(Debug, Clone, PartialEq)]
pub struct Funcion {
    pub nombre: String,
    pub parametros: Vec<Parametro>,
    pub tipo_retorno: Option<Tipo>,
    pub cuerpo: Vec<Sentencia>,
    pub pos: Posicion,
}

/// Model of [`Funcion`].
pub struct FuncionV {
    pub nombre: Seq<char>,
    pub parametros: Seq<ParametroV>,
    pub tipo_retorno: Option<Tipo>,
    pub cuerpo: Seq<SentenciaV>,
    pub pos: Posicion,
}

impl View for Funcion {
    type V = FuncionV;

    open spec fn view(&self) -> FuncionV {
        FuncionV {
            nombre: self.nombre@,
            parametros: vista_parametros(self.parametros@),
            tipo_retorno: self.tipo_retorno,
            cuerpo: vista_bloque(self.cuerpo@),
            pos: self.pos,
        }
    }
}

/// A top-level declaration.
#[derive(Debug, Clone, PartialEq)]
pub enum Declaracion {
    Escena(Escena),
    Funcion(Funcion),
}

/// Model of [`Declaracion`].
pub enum DeclaracionV {
    Escena(EscenaV),
    Funcion(FuncionV),
}

impl View for Declaracion {
    type V = DeclaracionV;

    open spec fn view(&self) -> DeclaracionV {
        match self {
            Declaracion::Escena(e) => DeclaracionV::Escena(e@),
            Declaracion::Funcion(f) => DeclaracionV::Funcion(f@),
        }
    }
}

/// Models of the declarations of a list, in order.
pub open spec fn vista_declaraciones(v: Seq<Declaracion>) -> Seq<DeclaracionV> {
    Seq::new(v.len(), |i: int| v[i]@)
}

/// A whole program: its declarations in source order.
#[derive(Debug, Clone, PartialEq)]
pub struct Programa {
    pub declaraciones: Vec<Declaracion>,
}

/// Model of [`Programa`].
pub struct ProgramaV {
    pub declaraciones: Seq<DeclaracionV>,
}

impl View for Programa {
    type V = ProgramaV;

    open spec fn view(&self) -> ProgramaV {
        ProgramaV { declaraciones: vista_declaraciones(self.declaraciones@) }
    }
}

} // verus!
