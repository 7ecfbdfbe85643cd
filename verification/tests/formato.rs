use vcode::ast::{Declaracion, Expresion, Programa, Sentencia};
use vcode::escritura::{agregar_texto_de_token, escribir_programa};
use vcode::formato::formatear;
use vcode::lexer::{Lexer, TipoToken};
use vcode::parser::Parser;

fn analizar(codigo: &str) -> Programa {
    let tokens = Lexer::new(codigo).tokenizar().unwrap();
    Parser::new(tokens).parsear().unwrap()
}

fn expresion(e: &Expresion) -> String {
    match e {
        Expresion::Numero(n, _) => format!("{}", n),
        Expresion::Decimal(d, _) => format!("d{}", d),
        Expresion::Texto(s, _) => format!("{:?}", s),
        Expresion::Booleano(b, _) => format!("{}", b),
        Expresion::Variable(n, _) => format!("${}", n),
        Expresion::Binaria(a, op, b, _) => format!("[{} {:?} {}]", expresion(a), op, expresion(b)),
        Expresion::Unaria(op, a, _) => format!("[{:?} {}]", op, expresion(a)),
        Expresion::Llamada(n, args, _) => {
            let partes: Vec<String> = args.iter().map(expresion).collect();
            format!("{}<{}>", n, partes.join(";"))
        }
    }
}

fn bloque(b: &[Sentencia]) -> String {
    let partes: Vec<String> = b.iter().map(sentencia).collect();
    format!("{{{}}}", partes.join(" "))
}

fn sentencia(s: &Sentencia) -> String {
    match s {
        Sentencia::Mostrar(e, _) => format!("mostrar {}", expresion(e)),
        Sentencia::Var(n, e, _) => format!("var {} {}", n, expresion(e)),
        Sentencia::Asignacion(n, e, _) => format!("asignar {} {}", n, expresion(e)),
        Sentencia::Si(c, a, b, _) => match b {
            Some(w) => format!("si {} {} sino {}", expresion(c), bloque(a), bloque(w)),
            None => format!("si {} {}", expresion(c), bloque(a)),
        },
        Sentencia::Mientras(c, a, _) => format!("mientras {} {}", expresion(c), bloque(a)),
        Sentencia::Para(n, x, y, a, _) => {
            format!("para {} {} {} {}", n, expresion(x), expresion(y), bloque(a))
        }
        Sentencia::Retornar(e, _) => match e {
            Some(x) => format!("retornar {}", expresion(x)),
            None => "retornar".to_string(),
        },
        Sentencia::Expresion(e) => format!("expr {}", expresion(e)),
    }
}

fn forma(p: &Programa) -> String {
    let partes: Vec<String> = p
        .declaraciones
        .iter()
        .map(|d| match d {
            Declaracion::Escena(e) => format!("escena {} {}", e.nombre, bloque(&e.cuerpo)),
            Declaracion::Funcion(f) => format!(
                "funcion {} {:?} {:?} {}",
                f.nombre,
                f.parametros,
                f.tipo_retorno,
                bloque(&f.cuerpo)
            ),
        })
        .collect();
    partes.join("\n")
}

fn ida_y_vuelta(codigo: &str) {
    let programa = analizar(codigo);
    let escrito = formatear(&programa);
    assert_eq!(escrito.last().map(|t| &t.tipo), Some(&TipoToken::Eof));
    let leido = Parser::new(escrito).parsear().unwrap();
    assert_eq!(forma(&leido), forma(&programa), "{}", codigo);
    let otra_vez = formatear(&leido);
    let tipos: Vec<TipoToken> = otra_vez.into_iter().map(|t| t.tipo).collect();
    let primero: Vec<TipoToken> = formatear(&programa).into_iter().map(|t| t.tipo).collect();
    assert_eq!(tipos, primero);
}

#[test]
fn escritura_de_una_expresion() {
    let programa = analizar("escena P { mostrar a + 2 * f(x, -1) }");
    let tipos: Vec<TipoToken> = formatear(&programa).into_iter().map(|t| t.tipo).collect();
    let id = |s: &str| TipoToken::Identificador(s.to_string());
    assert_eq!(
        tipos,
        vec![
            TipoToken::Escena,
            id("P"),
            TipoToken::LlaveAbre,
            TipoToken::Mostrar,
            TipoToken::ParentesisAbre,
            TipoToken::ParentesisAbre,
            id("a"),
            TipoToken::ParentesisCierra,
            TipoToken::Suma,
            TipoToken::ParentesisAbre,
            TipoToken::Numero(2),
            TipoToken::Multiplicacion,
            id("f"),
            TipoToken::ParentesisAbre,
            TipoToken::ParentesisAbre,
            id("x"),
            TipoToken::ParentesisCierra,
            TipoToken::Coma,
            TipoToken::ParentesisAbre,
            TipoToken::Resta,
            TipoToken::Numero(1),
            TipoToken::ParentesisCierra,
            TipoToken::ParentesisCierra,
            TipoToken::ParentesisCierra,
            TipoToken::ParentesisCierra,
            TipoToken::LlaveCierra,
            TipoToken::Eof,
        ]
    );
}

#[test]
fn ida_y_vuelta_de_programas() {
    ida_y_vuelta("");
    ida_y_vuelta("escena P { }");
    ida_y_vuelta("escena P { mostrar \"Hola, V-Code\" }");
    ida_y_vuelta("escena P { var x = 10 var y = 20 mostrar x + y }");
    ida_y_vuelta(
        "funcion sumar(a: numero, b: numero): numero { retornar a + b } escena P { mostrar sumar(5, 3) }",
    );
    ida_y_vuelta(
        "escena P { var edad = 25 si edad > 18 { mostrar \"Mayor\" } sino { mostrar \"Menor\" } }",
    );
    ida_y_vuelta("escena P { para i = 0, 3 { mostrar i } }");
    ida_y_vuelta("escena P { mientras a < 10 y no b o c { a = a + 1.5 f() } retornar }");
    ida_y_vuelta("funcion f() { si a { retornar } sino { retornar 1 } retornar f(g(), -h(2, 3)) }");
    ida_y_vuelta("escena P { 1 (y) -o * 2 verdadero falso \"t\" (a == b) != (c <= d) }");
    ida_y_vuelta("escena P { si a { } -x (b + c) * d x = 1 f(1)(2) }");
    ida_y_vuelta("funcion y(o: numero) { retornar o } escena o { var y = 1 si y { } y = y(y) + (o) para o = y, o { } o = 2 }");
    ida_y_vuelta("escena P { 1 (y) (o(1)) mostrar y y o o o si o { } o = y }");
    ida_y_vuelta(
        "funcion f(a: vector3, b: pose, c: mano, d: controlador, e: texto, g: decimal, h: booleano) { } escena A { } escena B { }",
    );
    ida_y_vuelta("escena P { mostrar a o b y c == d < e + f * g - h / i % j > k >= l <= m != n }");
}

fn ida_y_vuelta_de_texto(codigo: &str) {
    let programa = analizar(codigo);
    let texto = escribir_programa(&programa);
    let leido = analizar(&texto);
    assert_eq!(forma(&leido), forma(&programa), "{}", texto);
    assert_eq!(escribir_programa(&leido), texto);
}

#[test]
fn texto_de_un_programa() {
    let programa = analizar(
        "funcion f(a: numero): texto { retornar \"a\\\"b\" + a } escena P { si x < 1.5 { mostrar -f(2) } }",
    );
    assert_eq!(
        escribir_programa(&programa),
        "funcion f ( a : numero ) : texto { retornar ( \"a\\\"b\" + ( a ) ) } escena P { si ( ( x ) < 1.5 ) { mostrar ( - f ( 2 ) ) } } "
    );
}

#[test]
fn texto_de_cada_token() {
    let casos: Vec<(TipoToken, &str)> = vec![
        (TipoToken::Escena, "escena"),
        (TipoToken::Constante, "constante"),
        (TipoToken::TipoVector3, "vector3"),
        (TipoToken::No, "no"),
        (TipoToken::Igual, "=="),
        (TipoToken::Diferente, "!="),
        (TipoToken::MenorIgual, "<="),
        (TipoToken::MayorIgual, ">="),
        (TipoToken::Punto, "."),
        (TipoToken::Numero(120), "120"),
        (TipoToken::Decimal("0.50".to_string()), "0.50"),
        (TipoToken::Identificador("nombre_1".to_string()), "nombre_1"),
        (TipoToken::Texto("a\"b\\c\nd".to_string()), "\"a\\\"b\\\\c\nd\""),
        (TipoToken::Eof, ""),
    ];
    for (tipo, esperado) in casos {
        let mut s = String::new();
        agregar_texto_de_token(&mut s, &tipo);
        assert_eq!(s, esperado);
        if tipo != TipoToken::Eof {
            let leidos = Lexer::new(&format!("{} ", s)).tokenizar().unwrap();
            assert_eq!(leidos.len(), 2);
            assert_eq!(leidos[0].tipo, tipo);
        }
    }
}

#[test]
fn ida_y_vuelta_de_textos() {
    ida_y_vuelta_de_texto("");
    ida_y_vuelta_de_texto("escena P { }");
    ida_y_vuelta_de_texto("escena P { mostrar \"Hola, V-Code\" }");
    ida_y_vuelta_de_texto("escena P { var x = 10 var y = 20 mostrar x + y }");
    ida_y_vuelta_de_texto(
        "funcion sumar(a: numero, b: numero): numero { retornar a + b } escena P { mostrar sumar(5, 3) }",
    );
    ida_y_vuelta_de_texto(
        "escena P { var edad = 25 si edad > 18 { mostrar \"Mayor\" } sino { mostrar \"Menor\" } }",
    );
    ida_y_vuelta_de_texto("escena P { para i = 0, 3 { mostrar i } }");
    ida_y_vuelta_de_texto("escena P { mientras a < 10 y no b o c { a = a + 1.5 f() } retornar }");
    ida_y_vuelta_de_texto("funcion f() { si a { retornar } sino { retornar 1 } retornar f(g(), -h(2, 3)) }");
    ida_y_vuelta_de_texto("escena P { 1 -z * 2 verdadero falso \"t\\n\\q\\\\ \\\" fin\" (a == b) != (c <= d) }");
    ida_y_vuelta_de_texto("escena P { si a { } -x (b + c) * d x = 1 f(1)(2) 9223372036854775807 0.001 }");
    ida_y_vuelta_de_texto("funcion y(o: numero) { retornar o } escena o { var y = 1 si y { } y = y(y) + (o) para o = y, o { } o = 2 }");
    ida_y_vuelta_de_texto("escena P { 1 (y) (o(1)) mostrar y y o o o si o { } o = y }");
    ida_y_vuelta_de_texto(
        "funcion f(a: vector3, b: pose, c: mano, d: controlador, e: texto, g: decimal, h: booleano) { } escena A { } escena B { }",
    );
    ida_y_vuelta_de_texto("escena P { mostrar a o b y c == d < e + f * g - h / i % j > k >= l <= m != n }");
    ida_y_vuelta_de_texto("escena P {\n  // nota\n  mostrar \"dos\nlineas\"\n}\n");
}

#[test]
fn escritura_de_sentencias_y_nombres() {
    let programa = analizar("escena P { si a { } y = o f(1) }");
    let tipos: Vec<TipoToken> = formatear(&programa).into_iter().map(|t| t.tipo).collect();
    let id = |s: &str| TipoToken::Identificador(s.to_string());
    assert_eq!(
        tipos,
        vec![
            TipoToken::Escena,
            id("P"),
            TipoToken::LlaveAbre,
            TipoToken::Si,
            TipoToken::ParentesisAbre,
            id("a"),
            TipoToken::ParentesisCierra,
            TipoToken::LlaveAbre,
            TipoToken::LlaveCierra,
            TipoToken::Y,
            TipoToken::Asignacion,
            TipoToken::ParentesisAbre,
            TipoToken::O,
            TipoToken::ParentesisCierra,
            TipoToken::ParentesisAbre,
            id("f"),
            TipoToken::ParentesisAbre,
            TipoToken::Numero(1),
            TipoToken::ParentesisCierra,
            TipoToken::ParentesisCierra,
            TipoToken::LlaveCierra,
            TipoToken::Eof,
        ]
    );
    assert_eq!(
        escribir_programa(&programa),
        "escena P { si ( a ) { } y = ( o ) ( f ( 1 ) ) } "
    );
}
