//! The evaluator: it walks the syntax tree and computes what the semantics say.

use vstd::prelude::*;
use vstd::string::StringExecFns;
use crate::ast::{
    clonar_bloque, clonar_parametros, vista_bloque, vista_expresiones, vista_parametros,
    Declaracion, Escena, Expresion, ExpresionV, Parametro, Posicion, Programa, Sentencia,
};
use crate::decimal::{
    aritmetica_valida, calcular, decimales_de, formato_valido, Decimal, OperacionDecimal,
};
use crate::entorno::{Entorno, EntornoV};
use crate::error::{ErrorEjecucion, ErrorEjecucionV, Extremo};
use crate::operadores::{aplicar_operador_binario, aplicar_operador_unario, vista_de_resultado};
use crate::semantica::{
    ejecutar_bloque_v, ejecutar_sentencia_v, evaluar_lista_v, evaluar_v, extremo_v, ligar_v, linea,
    llamar_v, mientras_v, para_v, si_v, escenas_v, registrar_v, vueltas_v, Contexto, EstadoV,
    FuncionDefinidaV,
};
use crate::tabla::Tabla;
use crate::valor::{Valor, ValorV};

verus! {

/// A function as the evaluator keeps it: its parameters and its body.
#[derive(Debug)]
pub struct FuncionDefinida {
    pub parametros: Vec<Parametro>,
    pub cuerpo: Vec<Sentencia>,
}

impl View for FuncionDefinida {
    type V = FuncionDefinidaV;

    open spec fn view(&self) -> FuncionDefinidaV {
        FuncionDefinidaV {
            parametros: vista_parametros(self.parametros@),
            cuerpo: vista_bloque(self.cuerpo@),
        }
    }
}

/// Models of the lines of a list, in order.
pub open spec fn vista_salida(v: Seq<String>) -> Seq<Seq<char>> {
    Seq::new(v.len(), |i: int| v[i]@)
}

/// Models of the values of a list, in order.
pub open spec fn vista_valores(v: Seq<Valor>) -> Seq<ValorV> {
    Seq::new(v.len(), |i: int| v[i]@)
}

/// The context that a table of functions and the host's two functions make.
pub open spec fn contexto<A: Fn(OperacionDecimal) -> Decimal, T: Fn(Decimal) -> String>(
    funciones: Map<Seq<char>, FuncionDefinidaV>,
    ar: &A,
    fm: &T,
) -> Contexto {
    Contexto { funciones, decimales: decimales_de(ar, fm) }
}

/// The state that an environment and a list of lines make.
pub open spec fn estado(entorno: EntornoV, salida: Seq<String>) -> EstadoV {
    EstadoV { entorno, salida: vista_salida(salida) }
}

/// What a statement returned, as a model.
pub open spec fn vista_de_flujo(r: Result<Option<Valor>, ErrorEjecucion>) -> Result<
    Option<ValorV>,
    ErrorEjecucionV,
> {
    match r {
        Ok(Some(v)) => Ok(Some(v@)),
        Ok(None) => Ok(None),
        Err(e) => Err(e@),
    }
}

/// The evaluator: the variables, the functions and the lines shown so far,
/// and the budget that each scene runs with.
#[derive(Debug)]
pub struct Ejecutor {
    entorno: Entorno,
    funciones: Tabla<FuncionDefinida>,
    salida: Vec<String>,
    limite: u64,
}

impl Ejecutor {
    /// Evaluates the arguments of a call, from the left.
    pub fn evaluar_argumentos<A: Fn(OperacionDecimal) -> Decimal, T: Fn(Decimal) -> String>(
        funciones: &Tabla<FuncionDefinida>,
        entorno: &Entorno,
        salida: &mut Vec<String>,
        argumentos: &Vec<Expresion>,
        limite: u64,
        ar: &A,
        fm: &T,
    ) -> (r: Result<Vec<Valor>, ErrorEjecucion>)
        requires
            aritmetica_valida(ar),
            formato_valido(fm),
        ensures
            evaluar_lista_v(
                contexto(funciones.mapa(), ar, fm),
                entorno@,
                vista_expresiones(argumentos@),
                0,
                Seq::empty(),
                vista_salida(old(salida)@),
                limite as nat,
            ) == (
                match r {
                    Ok(valores) => Ok::<Seq<ValorV>, ErrorEjecucionV>(vista_valores(valores@)),
                    Err(e) => Err(e@),
                },
                vista_salida(final(salida)@),
            ),
            r is Ok ==> r->Ok_0.len() == argumentos.len(),
        decreases limite, 0nat, argumentos, 0nat, 0nat,
    {
        let ghost cx = contexto(funciones.mapa(), ar, fm);
        let ghost args = vista_expresiones(argumentos@);
        let ghost sal0 = vista_salida(salida@);
        let mut valores: Vec<Valor> = Vec::new();
        let mut i: usize = 0;
        proof {
            assert(vista_valores(valores@) =~= Seq::empty());
        }
        while i < argumentos.len()
            invariant
                aritmetica_valida(ar),
                formato_valido(fm),
                cx == contexto(funciones.mapa(), ar, fm),
                args == vista_expresiones(argumentos@),
                sal0 == vista_salida(old(salida)@),
                i <= argumentos.len(),
                valores.len() == i,
                evaluar_lista_v(
                    cx,
                    entorno@,
                    args,
                    i as int,
                    vista_valores(valores@),
                    vista_salida(salida@),
                    limite as nat,
                ) == evaluar_lista_v(cx, entorno@, args, 0, Seq::empty(), sal0, limite as nat),
            decreases argumentos.len() - i,
        {
            let ghost antes = vista_valores(valores@);
            let v = Self::evaluar_expresion(funciones, entorno, salida, &argumentos[i], limite, ar, fm)?;
            let ghost vv = v@;
            valores.push(v);
            proof {
                assert(vista_valores(valores@) =~= antes.push(vv));
            }
            i += 1;
        }
        Ok(valores)
    }

    /// Binds each parameter to the value at its place, in the current frame of `local`.
    pub fn ligar(local: &mut Entorno, parametros: &Vec<Parametro>, valores: &Vec<Valor>)
        requires
            parametros.len() == valores.len(),
        ensures
            final(local)@ == ligar_v(
                old(local)@,
                vista_parametros(parametros@),
                vista_valores(valores@),
                0,
            ),
    {
        let ghost ps = vista_parametros(parametros@);
        let ghost vs = vista_valores(valores@);
        let mut i: usize = 0;
        while i < parametros.len()
            invariant
                parametros.len() == valores.len(),
                ps == vista_parametros(parametros@),
                vs == vista_valores(valores@),
                i <= parametros.len(),
                ligar_v(local@, ps, vs, i as int) == ligar_v(old(local)@, ps, vs, 0),
            decreases parametros.len() - i,
        {
            local.definir(parametros[i].nombre.clone(), valores[i].clone());
            i += 1;
        }
    }

    /// Calls the function `nombre` on the arguments `argumentos`.
    pub fn llamar_funcion<A: Fn(OperacionDecimal) -> Decimal, T: Fn(Decimal) -> String>(
        funciones: &Tabla<FuncionDefinida>,
        entorno: &Entorno,
        salida: &mut Vec<String>,
        nombre: &String,
        argumentos: &Vec<Expresion>,
        pos: &Posicion,
        limite: u64,
        ar: &A,
        fm: &T,
    ) -> (r: Result<Valor, ErrorEjecucion>)
        requires
            aritmetica_valida(ar),
            formato_valido(fm),
        ensures
            llamar_v(
                contexto(funciones.mapa(), ar, fm),
                entorno@,
                ExpresionV::Llamada(nombre@, vista_expresiones(argumentos@), *pos),
                vista_salida(old(salida)@),
                limite as nat,
            ) == (vista_de_resultado(r), vista_salida(final(salida)@)),
        decreases limite, 0nat, argumentos, 1nat, 0nat,
    {
        let funcion = match funciones.obtener(nombre) {
            Some(f) => f,
            None => {
                return Err(ErrorEjecucion::FuncionNoDefinida { nombre: nombre.clone(), pos: *pos });
            },
        };
        if argumentos.len() != funcion.parametros.len() {
            return Err(
                ErrorEjecucion::Aridad {
                    nombre: nombre.clone(),
                    esperados: funcion.parametros.len(),
                    recibidos: argumentos.len(),
                    pos: *pos,
                },
            );
        }
        let valores = Self::evaluar_argumentos(funciones, entorno, salida, argumentos, limite, ar, fm)?;
        if limite == 0 {
            return Err(ErrorEjecucion::LimiteExcedido);
        }
        let mut local = Entorno::con_padre(entorno.clonar());
        Self::ligar(&mut local, &funcion.parametros, &valores);
        match Self::ejecutar_bloque(funciones, &mut local, salida, &funcion.cuerpo, limite - 1, ar, fm) {
            Ok(Some(v)) => Ok(v),
            Ok(None) => Ok(Valor::Nulo),
            Err(e) => Err(e),
        }
    }

    /// Evaluates an expression.
    pub fn evaluar_expresion<A: Fn(OperacionDecimal) -> Decimal, T: Fn(Decimal) -> String>(
        funciones: &Tabla<FuncionDefinida>,
        entorno: &Entorno,
        salida: &mut Vec<String>,
        expr: &Expresion,
        limite: u64,
        ar: &A,
        fm: &T,
    ) -> (r: Result<Valor, ErrorEjecucion>)
        requires
            aritmetica_valida(ar),
            formato_valido(fm),
        ensures
            evaluar_v(
                contexto(funciones.mapa(), ar, fm),
                entorno@,
                expr@,
                vista_salida(old(salida)@),
                limite as nat,
            ) == (vista_de_resultado(r), vista_salida(final(salida)@)),
        decreases limite, 0nat, expr, 2nat, 0nat,
    {
        match expr {
            Expresion::Numero(n, _) => Ok(Valor::Numero(*n)),
            Expresion::Decimal(d, _) => Ok(
                Valor::Decimal(calcular(ar, OperacionDecimal::Analizar(d.clone()))),
            ),
            Expresion::Texto(s, _) => Ok(Valor::Texto(s.clone())),
            Expresion::Booleano(b, _) => Ok(Valor::Booleano(*b)),
            Expresion::Variable(nombre, pos) => match entorno.obtener(nombre.as_str()) {
                Some(v) => Ok(v),
                None => Err(ErrorEjecucion::VariableNoDefinida { nombre: nombre.clone(), pos: *pos }),
            },
            Expresion::Binaria(izq, op, der, pos) => {
                let valor_izq = Self::evaluar_expresion(funciones, entorno, salida, izq, limite, ar, fm)?;
                let valor_der = Self::evaluar_expresion(funciones, entorno, salida, der, limite, ar, fm)?;
                aplicar_operador_binario(valor_izq, op, valor_der, pos, ar, fm)
            },
            Expresion::Unaria(op, operando, pos) => {
                let valor = Self::evaluar_expresion(funciones, entorno, salida, operando, limite, ar, fm)?;
                aplicar_operador_unario(op, valor, pos)
            },
            Expresion::Llamada(nombre, argumentos, pos) => Self::llamar_funcion(
                funciones,
                entorno,
                salida,
                nombre,
                argumentos,
                pos,
                limite,
                ar,
                fm,
            ),
        }
    }

    /// Runs the statements of a block, in order.
    pub fn ejecutar_bloque<A: Fn(OperacionDecimal) -> Decimal, T: Fn(Decimal) -> String>(
        funciones: &Tabla<FuncionDefinida>,
        entorno: &mut Entorno,
        salida: &mut Vec<String>,
        bloque: &Vec<Sentencia>,
        limite: u64,
        ar: &A,
        fm: &T,
    ) -> (r: Result<Option<Valor>, ErrorEjecucion>)
        requires
            aritmetica_valida(ar),
            formato_valido(fm),
        ensures
            ejecutar_bloque_v(
                contexto(funciones.mapa(), ar, fm),
                estado(old(entorno)@, old(salida)@),
                vista_bloque(bloque@),
                0,
                limite as nat,
            ) == (vista_de_flujo(r), estado(final(entorno)@, final(salida)@)),
        decreases limite, 1nat, bloque, 0nat, 0nat,
    {
        let ghost cx = contexto(funciones.mapa(), ar, fm);
        let ghost b = vista_bloque(bloque@);
        let ghost e0 = estado(entorno@, salida@);
        let mut i: usize = 0;
        while i < bloque.len()
            invariant
                aritmetica_valida(ar),
                formato_valido(fm),
                cx == contexto(funciones.mapa(), ar, fm),
                b == vista_bloque(bloque@),
                e0 == estado(old(entorno)@, old(salida)@),
                i <= bloque.len(),
                ejecutar_bloque_v(cx, estado(entorno@, salida@), b, i as int, limite as nat)
                    == ejecutar_bloque_v(cx, e0, b, 0, limite as nat),
            decreases bloque.len() - i,
        {
            match Self::ejecutar_sentencia(funciones, entorno, salida, &bloque[i], limite, ar, fm) {
                Ok(None) => {},
                Ok(Some(v)) => {
                    return Ok(Some(v));
                },
                Err(e) => {
                    return Err(e);
                },
            }
            i += 1;
        }
        Ok(None)
    }

    /// Runs a statement.
    pub fn ejecutar_sentencia<A: Fn(OperacionDecimal) -> Decimal, T: Fn(Decimal) -> String>(
        funciones: &Tabla<FuncionDefinida>,
        entorno: &mut Entorno,
        salida: &mut Vec<String>,
        sentencia: &Sentencia,
        limite: u64,
        ar: &A,
        fm: &T,
    ) -> (r: Result<Option<Valor>, ErrorEjecucion>)
        requires
            aritmetica_valida(ar),
            formato_valido(fm),
        ensures
            ejecutar_sentencia_v(
                contexto(funciones.mapa(), ar, fm),
                estado(old(entorno)@, old(salida)@),
                sentencia@,
                limite as nat,
            ) == (vista_de_flujo(r), estado(final(entorno)@, final(salida)@)),
        decreases limite, 1nat, sentencia, 3nat, 0nat,
    {
        match sentencia {
            Sentencia::Mostrar(expr, _) => {
                let valor = Self::evaluar_expresion(funciones, entorno, salida, expr, limite, ar, fm)?;
                let mut texto = String::new();
                texto.append("📺 ");
                valor.agregar_a(&mut texto, fm);
                let ghost antes = vista_salida(salida@);
                let ghost t = texto@;
                salida.push(texto);
                proof {
                    assert(t =~= linea(decimales_de(ar, fm), valor@));
                    assert(vista_salida(salida@) =~= antes.push(t));
                }
                Ok(None)
            },
            Sentencia::Var(nombre, expr, _) => {
                let valor = Self::evaluar_expresion(funciones, entorno, salida, expr, limite, ar, fm)?;
                entorno.definir(nombre.clone(), valor);
                Ok(None)
            },
            Sentencia::Asignacion(nombre, expr, pos) => {
                let valor = Self::evaluar_expresion(funciones, entorno, salida, expr, limite, ar, fm)?;
                match entorno.asignar(nombre.as_str(), valor) {
                    Ok(()) => Ok(None),
                    Err(_) => Err(
                        ErrorEjecucion::VariableNoDefinida { nombre: nombre.clone(), pos: *pos },
                    ),
                }
            },
            Sentencia::Si(_, _, _, _) => Self::ejecutar_si(funciones, entorno, salida, sentencia, limite, ar, fm),
            Sentencia::Mientras(_, _, _) => Self::ejecutar_mientras(
                funciones,
                entorno,
                salida,
                sentencia,
                limite,
                ar,
                fm,
            ),
            Sentencia::Para(_, _, _, _, _) => Self::ejecutar_para(
                funciones,
                entorno,
                salida,
                sentencia,
                limite,
                ar,
                fm,
            ),
            Sentencia::Retornar(valor, _) => match valor {
                Some(expr) => {
                    let v = Self::evaluar_expresion(funciones, entorno, salida, expr, limite, ar, fm)?;
                    Ok(Some(v))
                },
                None => Ok(Some(Valor::Nulo)),
            },
            Sentencia::Expresion(expr) => {
                Self::evaluar_expresion(funciones, entorno, salida, expr, limite, ar, fm)?;
                Ok(None)
            },
        }
    }

    /// Runs a `si` statement.
    pub fn ejecutar_si<A: Fn(OperacionDecimal) -> Decimal, T: Fn(Decimal) -> String>(
        funciones: &Tabla<FuncionDefinida>,
        entorno: &mut Entorno,
        salida: &mut Vec<String>,
        sentencia: &Sentencia,
        limite: u64,
        ar: &A,
        fm: &T,
    ) -> (r: Result<Option<Valor>, ErrorEjecucion>)
        requires
            aritmetica_valida(ar),
            formato_valido(fm),
            sentencia is Si,
        ensures
            si_v(
                contexto(funciones.mapa(), ar, fm),
                estado(old(entorno)@, old(salida)@),
                sentencia@,
                limite as nat,
            ) == (vista_de_flujo(r), estado(final(entorno)@, final(salida)@)),
        decreases limite, 1nat, sentencia, 2nat, 0nat,
    {
        match sentencia {
            Sentencia::Si(condicion, entonces, sino, _) => {
                let valor = Self::evaluar_expresion(funciones, entorno, salida, condicion, limite, ar, fm)?;
                if valor.es_verdadero() {
                    Self::ejecutar_bloque(funciones, entorno, salida, entonces, limite, ar, fm)
                } else {
                    match sino {
                        Some(bloque) => Self::ejecutar_bloque(funciones, entorno, salida, bloque, limite, ar, fm),
                        None => Ok(None),
                    }
                }
            },
            _ => Ok(None),
        }
    }

    /// Runs a `mientras` statement.
    #[verifier::loop_isolation(false)]
    pub fn ejecutar_mientras<A: Fn(OperacionDecimal) -> Decimal, T: Fn(Decimal) -> String>(
        funciones: &Tabla<FuncionDefinida>,
        entorno: &mut Entorno,
        salida: &mut Vec<String>,
        sentencia: &Sentencia,
        limite: u64,
        ar: &A,
        fm: &T,
    ) -> (r: Result<Option<Valor>, ErrorEjecucion>)
        requires
            aritmetica_valida(ar),
            formato_valido(fm),
            sentencia is Mientras,
        ensures
            mientras_v(
                contexto(funciones.mapa(), ar, fm),
                estado(old(entorno)@, old(salida)@),
                sentencia@,
                limite as nat,
            ) == (vista_de_flujo(r), estado(final(entorno)@, final(salida)@)),
        decreases limite, 1nat, sentencia, 2nat, 0nat,
    {
        let ghost cx = contexto(funciones.mapa(), ar, fm);
        let ghost e0 = estado(entorno@, salida@);
        match sentencia {
            Sentencia::Mientras(condicion, cuerpo, _) => {
                let mut restante: u64 = limite;
                loop
                    invariant
                        restante <= limite,
                        mientras_v(cx, estado(entorno@, salida@), sentencia@, restante as nat)
                            == mientras_v(cx, e0, sentencia@, limite as nat),
                    decreases restante,
                {
                    let valor = Self::evaluar_expresion(funciones, entorno, salida, condicion, restante, ar, fm)?;
                    if !valor.es_verdadero() {
                        return Ok(None);
                    }
                    if restante == 0 {
                        return Err(ErrorEjecucion::LimiteExcedido);
                    }
                    restante = restante - 1;
                    match Self::ejecutar_bloque(funciones, entorno, salida, cuerpo, restante, ar, fm) {
                        Ok(None) => {},
                        Ok(Some(v)) => {
                            return Ok(Some(v));
                        },
                        Err(e) => {
                            return Err(e);
                        },
                    }
                }
            },
            _ => Ok(None),
        }
    }

    /// Runs the turns of a `para` from `inicio` up to, not including, `fin`.
    pub fn ejecutar_vueltas<A: Fn(OperacionDecimal) -> Decimal, T: Fn(Decimal) -> String>(
        funciones: &Tabla<FuncionDefinida>,
        entorno: &mut Entorno,
        salida: &mut Vec<String>,
        variable: &String,
        cuerpo: &Vec<Sentencia>,
        inicio: i64,
        fin: i64,
        limite: u64,
        ar: &A,
        fm: &T,
    ) -> (r: Result<Option<Valor>, ErrorEjecucion>)
        requires
            aritmetica_valida(ar),
            formato_valido(fm),
        ensures
            vueltas_v(
                contexto(funciones.mapa(), ar, fm),
                estado(old(entorno)@, old(salida)@),
                variable@,
                vista_bloque(cuerpo@),
                inicio as int,
                fin as int,
                limite as nat,
            ) == (vista_de_flujo(r), estado(final(entorno)@, final(salida)@)),
        decreases limite, 1nat, cuerpo, 1nat, 0nat,
    {
        let ghost cx = contexto(funciones.mapa(), ar, fm);
        let ghost b = vista_bloque(cuerpo@);
        let ghost e0 = estado(entorno@, salida@);
        let mut i: i64 = inicio;
        while i < fin
            invariant
                aritmetica_valida(ar),
                formato_valido(fm),
                cx == contexto(funciones.mapa(), ar, fm),
                b == vista_bloque(cuerpo@),
                e0 == estado(old(entorno)@, old(salida)@),
                vueltas_v(cx, estado(entorno@, salida@), variable@, b, i as int, fin as int, limite as nat)
                    == vueltas_v(cx, e0, variable@, b, inicio as int, fin as int, limite as nat),
            decreases fin - i,
        {
            entorno.definir(variable.clone(), Valor::Numero(i));
            match Self::ejecutar_bloque(funciones, entorno, salida, cuerpo, limite, ar, fm) {
                Ok(None) => {},
                Ok(Some(v)) => {
                    return Ok(Some(v));
                },
                Err(e) => {
                    return Err(e);
                },
            }
            i = i + 1;
        }
        Ok(None)
    }

    /// An end of a range as an integer.
    fn extremo(valor: Valor, cual: Extremo, pos: Posicion) -> (r: Result<i64, ErrorEjecucion>)
        ensures
            match extremo_v(valor@, cual, pos) {
                Ok(k) => r == Ok::<i64, ErrorEjecucion>(k),
                Err(e) => r is Err && r->Err_0@ == e,
            },
    {
        match valor.a_numero() {
            Ok(k) => Ok(k),
            Err(_) => Err(ErrorEjecucion::RangoNoNumerico { extremo: cual, valor, pos }),
        }
    }

    /// Runs a `para` statement.
    pub fn ejecutar_para<A: Fn(OperacionDecimal) -> Decimal, T: Fn(Decimal) -> String>(
        funciones: &Tabla<FuncionDefinida>,
        entorno: &mut Entorno,
        salida: &mut Vec<String>,
        sentencia: &Sentencia,
        limite: u64,
        ar: &A,
        fm: &T,
    ) -> (r: Result<Option<Valor>, ErrorEjecucion>)
        requires
            aritmetica_valida(ar),
            formato_valido(fm),
            sentencia is Para,
        ensures
            para_v(
                contexto(funciones.mapa(), ar, fm),
                estado(old(entorno)@, old(salida)@),
                sentencia@,
                limite as nat,
            ) == (vista_de_flujo(r), estado(final(entorno)@, final(salida)@)),
        decreases limite, 1nat, sentencia, 2nat, 0nat,
    {
        match sentencia {
            Sentencia::Para(variable, inicio, fin, cuerpo, pos) => {
                let a = Self::evaluar_expresion(funciones, entorno, salida, inicio, limite, ar, fm)?;
                let i = Self::extremo(a, Extremo::Inicio, *pos)?;
                let b = Self::evaluar_expresion(funciones, entorno, salida, fin, limite, ar, fm)?;
                let f = Self::extremo(b, Extremo::Fin, *pos)?;
                Self::ejecutar_vueltas(funciones, entorno, salida, variable, cuerpo, i, f, limite, ar, fm)
            },
            _ => Ok(None),
        }
    }
}

impl Ejecutor {
    /// The variables in reach.
    pub closed spec fn entorno_v(&self) -> EntornoV {
        self.entorno@
    }

    /// The functions registered so far.
    pub closed spec fn funciones_v(&self) -> Map<Seq<char>, FuncionDefinidaV> {
        self.funciones.mapa()
    }

    /// The lines shown so far.
    pub closed spec fn salida_v(&self) -> Seq<Seq<char>> {
        vista_salida(self.salida@)
    }

    /// The budget of nested calls and loop turns that each scene runs with.
    pub closed spec fn limite_v(&self) -> nat {
        self.limite as nat
    }

    /// The state that statements change.
    pub open spec fn estado_v(&self) -> EstadoV {
        EstadoV { entorno: self.entorno_v(), salida: self.salida_v() }
    }

    /// An evaluator that knows no function, has one empty frame and has
    /// shown nothing, with the largest budget there is.
    pub fn new() -> (e: Self)
        ensures
            e.entorno_v() == EntornoV::nuevo(),
            e.funciones_v() == Map::<Seq<char>, FuncionDefinidaV>::empty(),
            e.salida_v() == Seq::<Seq<char>>::empty(),
            e.limite_v() == u64::MAX,
    {
        Ejecutor::con_limite(u64::MAX)
    }

    /// A new evaluator with the budget `limite`.
    pub fn con_limite(limite: u64) -> (e: Self)
        ensures
            e.entorno_v() == EntornoV::nuevo(),
            e.funciones_v() == Map::<Seq<char>, FuncionDefinidaV>::empty(),
            e.salida_v() == Seq::<Seq<char>>::empty(),
            e.limite_v() == limite,
    {
        let e = Ejecutor {
            entorno: Entorno::new(),
            funciones: Tabla::nueva(),
            salida: Vec::new(),
            limite,
        };
        assert(e.salida_v() =~= Seq::<Seq<char>>::empty());
        e
    }

    /// Registers the functions of the program: a later function of a name
    /// replaces an earlier one.
    pub fn registrar(&mut self, programa: &Programa)
        ensures
            final(self).entorno_v() == old(self).entorno_v(),
            final(self).salida_v() == old(self).salida_v(),
            final(self).limite_v() == old(self).limite_v(),
            final(self).funciones_v() == registrar_v(
                old(self).funciones_v(),
                programa@.declaraciones,
                0,
            ),
    {
        let ghost decls = programa@.declaraciones;
        let mut i: usize = 0;
        while i < programa.declaraciones.len()
            invariant
                decls == programa@.declaraciones,
                i <= programa.declaraciones.len(),
                self.entorno_v() == old(self).entorno_v(),
                self.salida_v() == old(self).salida_v(),
                self.limite_v() == old(self).limite_v(),
                registrar_v(self.funciones_v(), decls, i as int) == registrar_v(
                    old(self).funciones_v(),
                    decls,
                    0,
                ),
            decreases programa.declaraciones.len() - i,
        {
            match &programa.declaraciones[i] {
                Declaracion::Funcion(funcion) => {
                    let definida = FuncionDefinida {
                        parametros: clonar_parametros(&funcion.parametros),
                        cuerpo: clonar_bloque(&funcion.cuerpo),
                    };
                    self.funciones.insertar(funcion.nombre.clone(), definida);
                },
                Declaracion::Escena(_) => {},
            }
            i += 1;
        }
    }

    /// Runs a scene: its statements in order, up to the first that returns.
    pub fn ejecutar_escena<A: Fn(OperacionDecimal) -> Decimal, T: Fn(Decimal) -> String>(
        &mut self,
        escena: &Escena,
        ar: &A,
        fm: &T,
    ) -> (r: Result<(), ErrorEjecucion>)
        requires
            aritmetica_valida(ar),
            formato_valido(fm),
        ensures
            final(self).funciones_v() == old(self).funciones_v(),
            final(self).limite_v() == old(self).limite_v(),
            ({
                let (flujo, est) = ejecutar_bloque_v(
                    contexto(old(self).funciones_v(), ar, fm),
                    old(self).estado_v(),
                    escena@.cuerpo,
                    0,
                    old(self).limite_v(),
                );
                &&& final(self).estado_v() == est
                &&& match flujo {
                    Ok(_) => r is Ok,
                    Err(e) => r is Err && r->Err_0@ == e,
                }
            }),
    {
        match Self::ejecutar_bloque(
            &self.funciones,
            &mut self.entorno,
            &mut self.salida,
            &escena.cuerpo,
            self.limite,
            ar,
            fm,
        ) {
            Ok(_) => Ok(()),
            Err(e) => Err(e),
        }
    }

    /// Runs a program: registers its functions, then runs its scenes in
    /// source order. The first error ends the run.
    pub fn ejecutar<A: Fn(OperacionDecimal) -> Decimal, T: Fn(Decimal) -> String>(
        &mut self,
        programa: &Programa,
        ar: &A,
        fm: &T,
    ) -> (r: Result<(), ErrorEjecucion>)
        requires
            aritmetica_valida(ar),
            formato_valido(fm),
        ensures
            final(self).limite_v() == old(self).limite_v(),
            final(self).funciones_v() == registrar_v(
                old(self).funciones_v(),
                programa@.declaraciones,
                0,
            ),
            escenas_v(
                contexto(final(self).funciones_v(), ar, fm),
                old(self).estado_v(),
                programa@.declaraciones,
                0,
                old(self).limite_v(),
            ) == (
                match r {
                    Ok(_) => Ok::<(), ErrorEjecucionV>(()),
                    Err(e) => Err(e@),
                },
                final(self).estado_v(),
            ),
    {
        self.registrar(programa);
        let ghost decls = programa@.declaraciones;
        let ghost cx = contexto(self.funciones_v(), ar, fm);
        let ghost e0 = self.estado_v();
        let ghost n = self.limite_v();
        let mut i: usize = 0;
        while i < programa.declaraciones.len()
            invariant
                aritmetica_valida(ar),
                formato_valido(fm),
                decls == programa@.declaraciones,
                i <= programa.declaraciones.len(),
                cx == contexto(self.funciones_v(), ar, fm),
                n == self.limite_v(),
                n == old(self).limite_v(),
                e0 == old(self).estado_v(),
                self.funciones_v() == registrar_v(old(self).funciones_v(), decls, 0),
                escenas_v(cx, self.estado_v(), decls, i as int, n) == escenas_v(cx, e0, decls, 0, n),
            decreases programa.declaraciones.len() - i,
        {
            match &programa.declaraciones[i] {
                Declaracion::Escena(escena) => {
                    match self.ejecutar_escena(escena, ar, fm) {
                        Ok(_) => {},
                        Err(e) => {
                            return Err(e);
                        },
                    }
                },
                Declaracion::Funcion(_) => {},
            }
            i += 1;
        }
        Ok(())
    }

    /// Ends the evaluator and hands out the lines it has shown.
    pub fn tomar_salida(self) -> (s: Vec<String>)
        ensures
            vista_salida(s@) == self.salida_v(),
    {
        self.salida
    }

    /// The lines shown so far.
    pub fn obtener_salida(&self) -> (s: &[String])
        ensures
            vista_salida(s@) == self.salida_v(),
    {
        self.salida.as_slice()
    }
}

} // verus!
