use vcode::ast::{
    Declaracion, Escena, Expresion, Funcion, OperadorBinario, OperadorUnario, Parametro, Posicion,
    Programa, Sentencia, Tipo,
};
use vcode::lexer::{Lexer, TipoToken};
use vcode::parser::{ErrorSintactico, Esperado, Parser};

fn analizar(codigo: &str) -> Result<Programa, ErrorSintactico> {
    let tokens = Lexer::new(codigo).tokenizar().unwrap();
    Parser::new(tokens).parsear()
}

fn expresion(codigo: &str) -> Expresion {
    let tokens = Lexer::new(codigo).tokenizar().unwrap();
    Parser::new(tokens).expresion().unwrap()
}

fn cuerpo(codigo: &str) -> Vec<Sentencia> {
    let fuente = format!("escena P {{ {} }}", codigo);
    match analizar(&fuente).unwrap().declaraciones.remove(0) {
        Declaracion::Escena(e) => e.cuerpo,
        Declaracion::Funcion(_) => unreachable!(),
    }
}

fn esperado(codigo: &str) -> (Esperado, TipoToken) {
    let e = analizar(codigo).unwrap_err();
    (e.esperado, e.encontrado)
}

fn p(linea: usize, columna: usize) -> Posicion {
    Posicion::new(linea, columna)
}

fn num(n: i64, c: usize) -> Box<Expresion> {
    Box::new(Expresion::Numero(n, p(1, c)))
}

fn var(n: &str, c: usize) -> Box<Expresion> {
    Box::new(Expresion::Variable(n.to_string(), p(1, c)))
}

fn sin_posiciones(e: &Expresion) -> String {
    match e {
        Expresion::Numero(n, _) => format!("{}", n),
        Expresion::Decimal(d, _) => d.clone(),
        Expresion::Texto(s, _) => format!("{:?}", s),
        Expresion::Booleano(b, _) => format!("{}", b),
        Expresion::Variable(n, _) => n.clone(),
        Expresion::Binaria(a, op, b, _) => {
            format!("({} {:?} {})", sin_posiciones(a), op, sin_posiciones(b))
        }
        Expresion::Unaria(op, a, _) => format!("({:?} {})", op, sin_posiciones(a)),
        Expresion::Llamada(n, args, _) => {
            let partes: Vec<String> = args.iter().map(sin_posiciones).collect();
            format!("{}({})", n, partes.join(", "))
        }
    }
}

#[test]
fn programa_vacio() {
    assert_eq!(analizar(""), Ok(Programa { declaraciones: vec![] }));
}

#[test]
fn analizar_es_determinista() {
    let codigo = "funcion f(a: numero): texto { retornar a } escena P { mostrar f(1) }";
    assert_eq!(analizar(codigo), analizar(codigo));
}

#[test]
fn escena_con_mostrar() {
    assert_eq!(
        analizar("escena P { mostrar \"Hola\" }"),
        Ok(Programa {
            declaraciones: vec![Declaracion::Escena(Escena {
                nombre: "P".to_string(),
                cuerpo: vec![Sentencia::Mostrar(
                    Expresion::Texto("Hola".to_string(), p(1, 20)),
                    p(1, 12)
                )],
                pos: p(1, 1),
            })]
        })
    );
}

#[test]
fn funcion_con_parametros_y_tipo() {
    assert_eq!(
        analizar("funcion f(a: numero, b: vector3): booleano { retornar }"),
        Ok(Programa {
            declaraciones: vec![Declaracion::Funcion(Funcion {
                nombre: "f".to_string(),
                parametros: vec![
                    Parametro { nombre: "a".to_string(), tipo_dato: Tipo::Numero },
                    Parametro { nombre: "b".to_string(), tipo_dato: Tipo::Vector3 },
                ],
                tipo_retorno: Some(Tipo::Booleano),
                cuerpo: vec![Sentencia::Retornar(None, p(1, 46))],
                pos: p(1, 1),
            })]
        })
    );
}

#[test]
fn funcion_sin_parametros_ni_tipo() {
    assert_eq!(
        analizar("funcion f() { }"),
        Ok(Programa {
            declaraciones: vec![Declaracion::Funcion(Funcion {
                nombre: "f".to_string(),
                parametros: vec![],
                tipo_retorno: None,
                cuerpo: vec![],
                pos: p(1, 1),
            })]
        })
    );
}

#[test]
fn todos_los_tipos() {
    let programa = analizar(
        "funcion f(a: numero, b: decimal, c: texto, d: booleano, e: vector3, g: pose, h: mano, i: controlador) { }",
    )
    .unwrap();
    match &programa.declaraciones[0] {
        Declaracion::Funcion(f) => {
            let tipos: Vec<Tipo> = f.parametros.iter().map(|x| x.tipo_dato).collect();
            assert_eq!(
                tipos,
                vec![
                    Tipo::Numero,
                    Tipo::Decimal,
                    Tipo::Texto,
                    Tipo::Booleano,
                    Tipo::Vector3,
                    Tipo::Pose,
                    Tipo::Mano,
                    Tipo::Controlador
                ]
            );
        }
        Declaracion::Escena(_) => unreachable!(),
    }
}

#[test]
fn sentencias_de_cada_forma() {
    assert_eq!(
        cuerpo("var x = 1 x = 2 f(x) retornar x"),
        vec![
            Sentencia::Var("x".to_string(), Expresion::Numero(1, p(1, 20)), p(1, 12)),
            Sentencia::Asignacion("x".to_string(), Expresion::Numero(2, p(1, 26)), p(1, 22)),
            Sentencia::Expresion(Expresion::Llamada(
                "f".to_string(),
                vec![Expresion::Variable("x".to_string(), p(1, 30))],
                p(1, 28)
            )),
            Sentencia::Retornar(Some(Expresion::Variable("x".to_string(), p(1, 42))), p(1, 33)),
        ]
    );
}

#[test]
fn si_con_y_sin_sino() {
    assert_eq!(
        cuerpo("si a { } sino { b } si c { d }"),
        vec![
            Sentencia::Si(
                Expresion::Variable("a".to_string(), p(1, 15)),
                vec![],
                Some(vec![Sentencia::Expresion(Expresion::Variable("b".to_string(), p(1, 28)))]),
                p(1, 12)
            ),
            Sentencia::Si(
                Expresion::Variable("c".to_string(), p(1, 35)),
                vec![Sentencia::Expresion(Expresion::Variable("d".to_string(), p(1, 39)))],
                None,
                p(1, 32)
            ),
        ]
    );
}

#[test]
fn mientras_y_para() {
    assert_eq!(
        cuerpo("mientras a { } para i = 0, n { }"),
        vec![
            Sentencia::Mientras(Expresion::Variable("a".to_string(), p(1, 21)), vec![], p(1, 12)),
            Sentencia::Para(
                "i".to_string(),
                Expresion::Numero(0, p(1, 36)),
                Expresion::Variable("n".to_string(), p(1, 39)),
                vec![],
                p(1, 27)
            ),
        ]
    );
}

#[test]
fn la_multiplicacion_liga_mas_que_la_suma() {
    assert_eq!(
        expresion("1 + 2 * 3"),
        Expresion::Binaria(
            num(1, 1),
            OperadorBinario::Suma,
            Box::new(Expresion::Binaria(num(2, 5), OperadorBinario::Multiplicacion, num(3, 9), p(1, 7))),
            p(1, 3)
        )
    );
}

#[test]
fn los_operadores_asocian_a_la_izquierda() {
    assert_eq!(
        expresion("a - b - c"),
        Expresion::Binaria(
            Box::new(Expresion::Binaria(var("a", 1), OperadorBinario::Resta, var("b", 5), p(1, 3))),
            OperadorBinario::Resta,
            var("c", 9),
            p(1, 7)
        )
    );
}

#[test]
fn niveles_de_precedencia() {
    assert_eq!(
        sin_posiciones(&expresion("a o b y c == d < e + f * g")),
        "(a O (b Y (c Igual (d Menor (e Suma (f Multiplicacion g))))))"
    );
    assert_eq!(
        sin_posiciones(&expresion("a * b + c < d == e y f o g")),
        "((((((a Multiplicacion b) Suma c) Menor d) Igual e) Y f) O g)"
    );
    assert_eq!(
        sin_posiciones(&expresion("a / b % c * d")),
        "(((a Division b) Modulo c) Multiplicacion d)"
    );
    assert_eq!(
        sin_posiciones(&expresion("a <= b >= c > d != e")),
        "((((a MenorIgual b) MayorIgual c) Mayor d) Diferente e)"
    );
}

#[test]
fn unarios_y_parentesis() {
    assert_eq!(
        expresion("no -x"),
        Expresion::Unaria(
            OperadorUnario::No,
            Box::new(Expresion::Unaria(OperadorUnario::Negacion, var("x", 5), p(1, 4))),
            p(1, 1)
        )
    );
    assert_eq!(sin_posiciones(&expresion("(a + b) * c")), "((a Suma b) Multiplicacion c)");
    assert_eq!(sin_posiciones(&expresion("-a * b")), "((Negacion a) Multiplicacion b)");
    assert_eq!(sin_posiciones(&expresion("- - a")), "(Negacion (Negacion a))");
}

#[test]
fn literales() {
    assert_eq!(expresion("12"), Expresion::Numero(12, p(1, 1)));
    assert_eq!(expresion("1.50"), Expresion::Decimal("1.50".to_string(), p(1, 1)));
    assert_eq!(expresion("\"a\""), Expresion::Texto("a".to_string(), p(1, 1)));
    assert_eq!(expresion("verdadero"), Expresion::Booleano(true, p(1, 1)));
    assert_eq!(expresion("falso"), Expresion::Booleano(false, p(1, 1)));
}

#[test]
fn llamadas() {
    assert_eq!(sin_posiciones(&expresion("f()")), "f()");
    assert_eq!(sin_posiciones(&expresion("f(1, g(2), a + b)")), "f(1, g(2), (a Suma b))");
    assert_eq!(expresion("f"), Expresion::Variable("f".to_string(), p(1, 1)));
    assert_eq!(expresion("f(1)").posicion(), &p(1, 1));
    assert_eq!(expresion("1 + 2").posicion(), &p(1, 3));
}

#[test]
fn solo_un_nombre_se_puede_llamar() {
    let tokens = Lexer::new("(f)(1)").tokenizar().unwrap();
    let mut parser = Parser::new(tokens);
    assert_eq!(parser.expresion(), Ok(Expresion::Variable("f".to_string(), p(1, 2))));
}

#[test]
fn retornar_sin_valor_solo_ante_llave() {
    assert_eq!(cuerpo("retornar"), vec![Sentencia::Retornar(None, p(1, 12))]);
    assert_eq!(
        esperado("escena P { retornar"),
        (Esperado::Expresion, TipoToken::Eof)
    );
}

#[test]
fn errores_de_nivel_superior() {
    assert_eq!(esperado("mostrar 1"), (Esperado::EscenaOFuncion, TipoToken::Mostrar));
    assert_eq!(esperado("escena { }"), (Esperado::NombreDeEscena, TipoToken::LlaveAbre));
    assert_eq!(esperado("escena P mostrar"), (Esperado::LlaveAbreDeEscena, TipoToken::Mostrar));
    assert_eq!(esperado("escena P { mostrar 1"), (Esperado::LlaveCierraDeEscena, TipoToken::Eof));
    assert_eq!(
        analizar("escena P { } }"),
        Err(ErrorSintactico {
            esperado: Esperado::EscenaOFuncion,
            encontrado: TipoToken::LlaveCierra,
            pos: p(1, 14)
        })
    );
}

#[test]
fn errores_de_funcion() {
    assert_eq!(esperado("funcion (a) { }"), (Esperado::NombreDeFuncion, TipoToken::ParentesisAbre));
    assert_eq!(esperado("funcion f { }"), (Esperado::ParentesisAbreDeFuncion, TipoToken::LlaveAbre));
    assert_eq!(esperado("funcion f(1) { }"), (Esperado::NombreDeParametro, TipoToken::Numero(1)));
    assert_eq!(esperado("funcion f(a) { }"), (Esperado::DosPuntosDeParametro, TipoToken::ParentesisCierra));
    assert_eq!(
        esperado("funcion f(a: b) { }"),
        (Esperado::TipoDeDato, TipoToken::Identificador("b".to_string()))
    );
    assert_eq!(
        esperado("funcion f(a: numero,) { }"),
        (Esperado::NombreDeParametro, TipoToken::ParentesisCierra)
    );
    assert_eq!(
        esperado("funcion f(a: numero b: numero) { }"),
        (Esperado::ParentesisCierraDeParametros, TipoToken::Identificador("b".to_string()))
    );
    assert_eq!(esperado("funcion f(): { }"), (Esperado::TipoDeDato, TipoToken::LlaveAbre));
    assert_eq!(esperado("funcion f() mostrar"), (Esperado::LlaveAbreDeFuncion, TipoToken::Mostrar));
    assert_eq!(esperado("funcion f() { "), (Esperado::LlaveCierraDeFuncion, TipoToken::Eof));
}

#[test]
fn errores_de_sentencia() {
    assert_eq!(esperado("escena P { var = 1 }"), (Esperado::NombreDeVariable, TipoToken::Asignacion));
    assert_eq!(esperado("escena P { var x 1 }"), (Esperado::AsignacionDeVariable, TipoToken::Numero(1)));
    assert_eq!(esperado("escena P { si a mostrar }"), (Esperado::LlaveAbreDeCondicion, TipoToken::Mostrar));
    assert_eq!(esperado("escena P { si a { "), (Esperado::LlaveCierraDeSi, TipoToken::Eof));
    assert_eq!(esperado("escena P { si a { } sino b }"), (Esperado::LlaveAbreDeSino, TipoToken::Identificador("b".to_string())));
    assert_eq!(esperado("escena P { si a { } sino { "), (Esperado::LlaveCierraDeSino, TipoToken::Eof));
    assert_eq!(esperado("escena P { mientras a { "), (Esperado::LlaveCierraDeMientras, TipoToken::Eof));
    assert_eq!(esperado("escena P { para 1 }"), (Esperado::NombreDeVariable, TipoToken::Numero(1)));
    assert_eq!(esperado("escena P { para i 0 }"), (Esperado::AsignacionDeVariable, TipoToken::Numero(0)));
    assert_eq!(esperado("escena P { para i = 0 { } }"), (Esperado::ComaDeRango, TipoToken::LlaveAbre));
    assert_eq!(esperado("escena P { para i = 0, 3 mostrar }"), (Esperado::LlaveAbreDeRango, TipoToken::Mostrar));
    assert_eq!(esperado("escena P { para i = 0, 3 { "), (Esperado::LlaveCierraDePara, TipoToken::Eof));
}

#[test]
fn errores_de_expresion() {
    assert_eq!(esperado("escena P { mostrar }"), (Esperado::Expresion, TipoToken::LlaveCierra));
    assert_eq!(esperado("escena P { mostrar 1 + }"), (Esperado::Expresion, TipoToken::LlaveCierra));
    assert_eq!(esperado("escena P { mostrar (1 }"), (Esperado::ParentesisCierraDeExpresion, TipoToken::LlaveCierra));
    assert_eq!(esperado("escena P { mostrar f(1 }"), (Esperado::ParentesisCierraDeArgumentos, TipoToken::LlaveCierra));
    assert_eq!(esperado("escena P { mostrar f(1,) }"), (Esperado::Expresion, TipoToken::ParentesisCierra));
    assert_eq!(esperado("escena P { mostrar cada }"), (Esperado::Expresion, TipoToken::Cada));
    assert_eq!(esperado("escena P { constante x = 1 }"), (Esperado::Expresion, TipoToken::Constante));
}

#[test]
fn un_nombre_ante_igual_es_asignacion() {
    assert_eq!(
        cuerpo("x == 1 x = 1"),
        vec![
            Sentencia::Expresion(Expresion::Binaria(
                var("x", 12),
                OperadorBinario::Igual,
                num(1, 17),
                p(1, 14)
            )),
            Sentencia::Asignacion("x".to_string(), Expresion::Numero(1, p(1, 23)), p(1, 19)),
        ]
    );
}

#[test]
fn copia_de_un_arbol() {
    let programa = analizar(
        "funcion f(a: numero) { si a > 0 { retornar f(a - 1) } sino { mostrar \"fin\" } } escena P { para i = 0, 2 { mientras falso { } } }",
    )
    .unwrap();
    assert_eq!(programa.clone(), programa);
}

#[test]
fn pasos_sueltos_del_parser() {
    let tokens = Lexer::new("numero { mostrar 1 } 2 * 3").tokenizar().unwrap();
    let mut parser = Parser::new(tokens);
    assert_eq!(parser.tipo(), Ok(Tipo::Numero));
    assert_eq!(
        parser.entre_llaves(Esperado::LlaveAbreDeEscena, Esperado::LlaveCierraDeEscena),
        Ok(vec![Sentencia::Mostrar(Expresion::Numero(1, p(1, 18)), p(1, 10))])
    );
    assert_eq!(sin_posiciones(&parser.multiplicacion_division().unwrap()), "(2 Multiplicacion 3)");
    assert_eq!(parser.bloque(), Ok(vec![]));
}
