use vcode::ast::{OperadorBinario, OperadorUnario, Posicion};
use vcode::decimal::{Decimal, OperacionDecimal};
use vcode::ejecutor::Ejecutor;
use vcode::entorno::{Entorno, NoDefinida};
use vcode::error::{ClaseDeError, ErrorEjecucion, Extremo};
use vcode::interprete::ErrorVCode;
use vcode::lexer::{ErrorLexico, Lexer, TipoToken};
use vcode::mensajes::{agregar_posicion, agregar_simbolo, agregar_simbolo_unario};
use vcode::operadores::{
    aplicar_operador_binario, aplicar_operador_unario, dividir_enteros, multiplicar_enteros,
    negar_entero, restar_enteros, resto_de_enteros, sumar_enteros,
};
use vcode::parser::{ErrorSintactico, Esperado, Parser};
use vcode::tabla::Tabla;
use vcode::valor::{NoNumerico, Valor};

fn decimal(x: f64) -> Decimal {
    Decimal { bits: x.to_bits() }
}

fn numero(d: Decimal) -> f64 {
    f64::from_bits(d.bits)
}

fn aritmetica(op: OperacionDecimal) -> Decimal {
    match op {
        OperacionDecimal::Analizar(texto) => decimal(texto.parse::<f64>().unwrap()),
        OperacionDecimal::DeEntero(n) => decimal(n as f64),
        OperacionDecimal::Sumar(a, b) => decimal(numero(a) + numero(b)),
        OperacionDecimal::Restar(a, b) => decimal(numero(a) - numero(b)),
        OperacionDecimal::Multiplicar(a, b) => decimal(numero(a) * numero(b)),
        OperacionDecimal::Dividir(a, b) => decimal(numero(a) / numero(b)),
    }
}

fn formato(d: Decimal) -> String {
    format!("{}", numero(d))
}

fn texto(s: &str) -> Valor {
    Valor::Texto(s.to_string())
}

fn aplicar(izq: Valor, op: OperadorBinario, der: Valor) -> Result<Valor, ErrorEjecucion> {
    aplicar_operador_binario(izq, &op, der, &Posicion::new(3, 7), &aritmetica, &formato)
}

fn todos_los_valores() -> Vec<Valor> {
    vec![
        Valor::Numero(0),
        Valor::Numero(-7),
        Valor::Decimal(decimal(0.0)),
        Valor::Decimal(decimal(2.5)),
        texto(""),
        texto("a"),
        Valor::Booleano(true),
        Valor::Booleano(false),
        Valor::Nulo,
    ]
}

#[test]
fn verdad_de_cada_valor() {
    assert!(Valor::Booleano(true).es_verdadero());
    assert!(!Valor::Booleano(false).es_verdadero());
    assert!(!Valor::Nulo.es_verdadero());
    assert!(!Valor::Numero(0).es_verdadero());
    assert!(Valor::Numero(-3).es_verdadero());
    assert!(!Valor::Decimal(decimal(0.0)).es_verdadero());
    assert!(!Valor::Decimal(decimal(-0.0)).es_verdadero());
    assert!(Valor::Decimal(decimal(0.1)).es_verdadero());
    assert!(Valor::Decimal(decimal(f64::NAN)).es_verdadero());
    assert!(!texto("").es_verdadero());
    assert!(texto("0").es_verdadero());
}

#[test]
fn conversiones_a_numero() {
    assert_eq!(Valor::Numero(5).a_numero(), Ok(5));
    assert_eq!(Valor::Decimal(decimal(5.9)).a_numero(), Ok(5));
    assert_eq!(Valor::Decimal(decimal(-5.9)).a_numero(), Ok(-5));
    assert_eq!(texto("5").a_numero(), Err(NoNumerico));
    assert_eq!(Valor::Booleano(true).a_numero(), Err(NoNumerico));
    assert_eq!(Valor::Nulo.a_numero(), Err(NoNumerico));
}

#[test]
fn conversiones_a_decimal() {
    assert_eq!(Valor::Numero(5).a_decimal(&aritmetica), Ok(decimal(5.0)));
    assert_eq!(Valor::Decimal(decimal(5.9)).a_decimal(&aritmetica), Ok(decimal(5.9)));
    assert_eq!(texto("5").a_decimal(&aritmetica), Err(NoNumerico));
    assert_eq!(Valor::Nulo.a_decimal(&aritmetica), Err(NoNumerico));
}

#[test]
fn escritura_de_cada_valor() {
    assert_eq!(Valor::Numero(-12).texto(&formato), "-12");
    assert_eq!(Valor::Decimal(decimal(2.5)).texto(&formato), "2.5");
    assert_eq!(Valor::Decimal(decimal(3.0)).texto(&formato), "3");
    assert_eq!(texto("hola").texto(&formato), "hola");
    assert_eq!(Valor::Booleano(true).texto(&formato), "verdadero");
    assert_eq!(Valor::Booleano(false).texto(&formato), "falso");
    assert_eq!(Valor::Nulo.texto(&formato), "nulo");
}

#[test]
fn igualdad_reflexiva_dentro_de_una_variante() {
    for v in todos_los_valores() {
        assert!(v.igual(&v.clone()), "{:?}", v);
    }
}

#[test]
fn igualdad_falsa_entre_variantes() {
    let representantes = vec![
        Valor::Numero(1),
        Valor::Decimal(decimal(1.0)),
        texto("1"),
        Valor::Booleano(true),
        Valor::Nulo,
    ];
    for (i, a) in representantes.iter().enumerate() {
        for (j, b) in representantes.iter().enumerate() {
            assert_eq!(a.igual(b), i == j, "{:?} {:?}", a, b);
        }
    }
}

#[test]
fn igualdad_dentro_de_una_variante() {
    assert!(!Valor::Numero(1).igual(&Valor::Numero(2)));
    assert!(!texto("a").igual(&texto("b")));
    assert!(!Valor::Booleano(true).igual(&Valor::Booleano(false)));
    assert!(Valor::Decimal(decimal(0.0)).igual(&Valor::Decimal(decimal(-0.0))));
    assert!(!Valor::Decimal(decimal(f64::NAN)).igual(&Valor::Decimal(decimal(f64::NAN))));
}

#[test]
fn aritmetica_entera() {
    assert_eq!(sumar_enteros(2, 3), 5);
    assert_eq!(sumar_enteros(i64::MAX, 1), i64::MIN);
    assert_eq!(restar_enteros(2, 3), -1);
    assert_eq!(restar_enteros(i64::MIN, 1), i64::MAX);
    assert_eq!(multiplicar_enteros(-4, 6), -24);
    assert_eq!(multiplicar_enteros(i64::MAX, 2), -2);
    assert_eq!(multiplicar_enteros(i64::MIN, -1), i64::MIN);
    assert_eq!(negar_entero(5), -5);
    assert_eq!(negar_entero(i64::MIN), i64::MIN);
}

#[test]
fn division_hacia_cero() {
    assert_eq!(dividir_enteros(7, 2), 3);
    assert_eq!(dividir_enteros(-7, 2), -3);
    assert_eq!(dividir_enteros(7, -2), -3);
    assert_eq!(dividir_enteros(-7, -2), 3);
    assert_eq!(dividir_enteros(0, 5), 0);
    assert_eq!(dividir_enteros(i64::MIN, -1), i64::MIN);
    assert_eq!(dividir_enteros(i64::MIN, 1), i64::MIN);
    assert_eq!(resto_de_enteros(7, 2), 1);
    assert_eq!(resto_de_enteros(-7, 2), -1);
    assert_eq!(resto_de_enteros(7, -2), 1);
    assert_eq!(resto_de_enteros(-7, -2), -1);
    assert_eq!(resto_de_enteros(i64::MIN, -1), 0);
}

#[test]
fn cociente_por_divisor_mas_resto() {
    let valores: Vec<i64> = vec![0, 1, -1, 2, -2, 7, -7, 100, -100, 12345, i64::MAX, i64::MIN, i64::MAX - 1, i64::MIN + 1];
    for a in valores.iter() {
        for b in valores.iter() {
            if *b != 0 {
                assert_eq!(
                    sumar_enteros(multiplicar_enteros(dividir_enteros(*a, *b), *b), resto_de_enteros(*a, *b)),
                    *a,
                    "{} {}",
                    a,
                    b
                );
            }
        }
    }
}

#[test]
fn suma_de_numeros_y_textos() {
    assert_eq!(aplicar(Valor::Numero(2), OperadorBinario::Suma, Valor::Numero(3)), Ok(Valor::Numero(5)));
    assert_eq!(
        aplicar(Valor::Numero(2), OperadorBinario::Suma, Valor::Decimal(decimal(0.5))),
        Ok(Valor::Decimal(decimal(2.5)))
    );
    assert_eq!(
        aplicar(Valor::Decimal(decimal(0.5)), OperadorBinario::Suma, Valor::Numero(2)),
        Ok(Valor::Decimal(decimal(2.5)))
    );
    assert_eq!(
        aplicar(Valor::Decimal(decimal(0.1)), OperadorBinario::Suma, Valor::Decimal(decimal(0.2))),
        Ok(Valor::Decimal(decimal(0.1 + 0.2)))
    );
    assert_eq!(aplicar(texto("a"), OperadorBinario::Suma, texto("b")), Ok(texto("ab")));
    assert_eq!(aplicar(texto("a"), OperadorBinario::Suma, Valor::Numero(1)), Ok(texto("a1")));
    assert_eq!(aplicar(Valor::Nulo, OperadorBinario::Suma, texto("a")), Ok(texto("nuloa")));
    assert_eq!(
        aplicar(Valor::Decimal(decimal(1.5)), OperadorBinario::Suma, texto("a")),
        Ok(texto("1.5a"))
    );
    assert_eq!(
        aplicar(Valor::Numero(1), OperadorBinario::Suma, Valor::Booleano(true)),
        Err(ErrorEjecucion::OperadorNoAplicable {
            operador: OperadorBinario::Suma,
            izquierda: Valor::Numero(1),
            derecha: Valor::Booleano(true),
            pos: Posicion::new(3, 7),
        })
    );
    assert_eq!(
        aplicar(Valor::Nulo, OperadorBinario::Suma, Valor::Nulo).unwrap_err().clase(),
        ClaseDeError::Tipo
    );
}

#[test]
fn resta_multiplicacion_y_division() {
    assert_eq!(aplicar(Valor::Numero(2), OperadorBinario::Resta, Valor::Numero(3)), Ok(Valor::Numero(-1)));
    assert_eq!(
        aplicar(Valor::Numero(2), OperadorBinario::Multiplicacion, Valor::Decimal(decimal(1.5))),
        Ok(Valor::Decimal(decimal(3.0)))
    );
    assert_eq!(aplicar(Valor::Numero(7), OperadorBinario::Division, Valor::Numero(-2)), Ok(Valor::Numero(-3)));
    assert_eq!(
        aplicar(Valor::Decimal(decimal(7.0)), OperadorBinario::Division, Valor::Numero(2)),
        Ok(Valor::Decimal(decimal(3.5)))
    );
    assert_eq!(
        aplicar(texto("a"), OperadorBinario::Resta, texto("b")).unwrap_err().clase(),
        ClaseDeError::Tipo
    );
    assert_eq!(
        aplicar(texto("a"), OperadorBinario::Multiplicacion, Valor::Numero(2)).unwrap_err().clase(),
        ClaseDeError::Tipo
    );
    assert_eq!(
        aplicar(texto("a"), OperadorBinario::Division, Valor::Numero(0)).unwrap_err().clase(),
        ClaseDeError::Tipo
    );
}

#[test]
fn division_por_cero_de_cada_clase() {
    let error = || ErrorEjecucion::DivisionPorCero {
        operador: OperadorBinario::Division,
        pos: Posicion::new(3, 7),
    };
    assert_eq!(aplicar(Valor::Numero(1), OperadorBinario::Division, Valor::Numero(0)), Err(error()));
    assert_eq!(
        aplicar(Valor::Decimal(decimal(1.0)), OperadorBinario::Division, Valor::Decimal(decimal(-0.0))),
        Err(error())
    );
    assert_eq!(
        aplicar(Valor::Numero(1), OperadorBinario::Division, Valor::Decimal(decimal(0.0))),
        Err(error())
    );
    assert_eq!(
        aplicar(Valor::Decimal(decimal(1.0)), OperadorBinario::Division, Valor::Numero(0)),
        Err(error())
    );
    assert_eq!(
        aplicar(Valor::Numero(1), OperadorBinario::Modulo, Valor::Numero(0)),
        Err(ErrorEjecucion::DivisionPorCero {
            operador: OperadorBinario::Modulo,
            pos: Posicion::new(3, 7)
        })
    );
    assert_eq!(aplicar(Valor::Numero(0), OperadorBinario::Multiplicacion, Valor::Numero(0)), Ok(Valor::Numero(0)));
}

#[test]
fn modulo_solo_de_enteros() {
    assert_eq!(aplicar(Valor::Numero(7), OperadorBinario::Modulo, Valor::Numero(4)), Ok(Valor::Numero(3)));
    assert_eq!(
        aplicar(Valor::Decimal(decimal(7.0)), OperadorBinario::Modulo, Valor::Numero(4))
            .unwrap_err()
            .clase(),
        ClaseDeError::Tipo
    );
}

#[test]
fn comparaciones() {
    let casos: Vec<(Valor, Valor, [bool; 4])> = vec![
        (Valor::Numero(1), Valor::Numero(2), [true, true, false, false]),
        (Valor::Numero(2), Valor::Numero(2), [false, true, false, true]),
        (Valor::Numero(3), Valor::Decimal(decimal(2.5)), [false, false, true, true]),
        (Valor::Decimal(decimal(2.5)), Valor::Numero(3), [true, true, false, false]),
        (Valor::Decimal(decimal(2.5)), Valor::Decimal(decimal(2.5)), [false, true, false, true]),
        (Valor::Decimal(decimal(f64::NAN)), Valor::Numero(1), [false, false, false, false]),
    ];
    let operadores = [
        OperadorBinario::Menor,
        OperadorBinario::MenorIgual,
        OperadorBinario::Mayor,
        OperadorBinario::MayorIgual,
    ];
    for (a, b, esperados) in casos {
        for (op, esperado) in operadores.iter().zip(esperados.iter()) {
            assert_eq!(
                aplicar(a.clone(), *op, b.clone()),
                Ok(Valor::Booleano(*esperado)),
                "{:?} {:?} {:?}",
                a,
                op,
                b
            );
        }
    }
    assert_eq!(
        aplicar(texto("a"), OperadorBinario::Menor, texto("b")).unwrap_err().clase(),
        ClaseDeError::Tipo
    );
}

#[test]
fn igualdad_y_logica_de_cualquier_par() {
    for a in todos_los_valores() {
        for b in todos_los_valores() {
            assert_eq!(
                aplicar(a.clone(), OperadorBinario::Igual, b.clone()),
                Ok(Valor::Booleano(a.igual(&b)))
            );
            assert_eq!(
                aplicar(a.clone(), OperadorBinario::Diferente, b.clone()),
                Ok(Valor::Booleano(!a.igual(&b)))
            );
            assert_eq!(
                aplicar(a.clone(), OperadorBinario::Y, b.clone()),
                Ok(Valor::Booleano(a.es_verdadero() && b.es_verdadero()))
            );
            assert_eq!(
                aplicar(a.clone(), OperadorBinario::O, b.clone()),
                Ok(Valor::Booleano(a.es_verdadero() || b.es_verdadero()))
            );
        }
    }
}

#[test]
fn operadores_unarios() {
    let pos = Posicion::new(1, 1);
    assert_eq!(aplicar_operador_unario(&OperadorUnario::Negacion, Valor::Numero(5), &pos), Ok(Valor::Numero(-5)));
    assert_eq!(
        aplicar_operador_unario(&OperadorUnario::Negacion, Valor::Decimal(decimal(2.5)), &pos),
        Ok(Valor::Decimal(decimal(-2.5)))
    );
    assert_eq!(
        aplicar_operador_unario(&OperadorUnario::Negacion, texto("a"), &pos),
        Err(ErrorEjecucion::NegacionNoAplicable { valor: texto("a"), pos })
    );
    assert_eq!(aplicar_operador_unario(&OperadorUnario::No, texto(""), &pos), Ok(Valor::Booleano(true)));
    assert_eq!(aplicar_operador_unario(&OperadorUnario::No, Valor::Numero(1), &pos), Ok(Valor::Booleano(false)));
}

#[test]
fn tabla_de_nombres() {
    let mut t: Tabla<Valor> = Tabla::nueva();
    let a = "a".to_string();
    let b = "b".to_string();
    assert!(!t.contiene(&a));
    assert_eq!(t.obtener(&a), None);
    t.insertar(a.clone(), Valor::Numero(1));
    t.insertar(b.clone(), Valor::Numero(2));
    assert!(t.contiene(&a));
    assert_eq!(t.obtener(&a), Some(&Valor::Numero(1)));
    assert_eq!(t.obtener(&b), Some(&Valor::Numero(2)));
    t.insertar(a.clone(), Valor::Numero(3));
    assert_eq!(t.obtener(&a), Some(&Valor::Numero(3)));
    assert_eq!(t.obtener(&b), Some(&Valor::Numero(2)));
    let copia = t.clonar();
    t.insertar(b.clone(), Valor::Nulo);
    assert_eq!(copia.obtener(&b), Some(&Valor::Numero(2)));
    assert_eq!(t.obtener(&b), Some(&Valor::Nulo));
}

#[test]
fn entorno_de_un_marco() {
    let mut e = Entorno::new();
    assert_eq!(e.obtener("x"), None);
    assert_eq!(e.asignar("x", Valor::Numero(1)), Err(NoDefinida));
    assert_eq!(e.obtener("x"), None);
    e.definir("x".to_string(), Valor::Numero(1));
    assert_eq!(e.obtener("x"), Some(Valor::Numero(1)));
    e.definir("x".to_string(), texto("otra"));
    assert_eq!(e.obtener("x"), Some(texto("otra")));
    assert_eq!(e.asignar("x", Valor::Nulo), Ok(()));
    assert_eq!(e.obtener("x"), Some(Valor::Nulo));
}

#[test]
fn entorno_con_padre() {
    let mut raiz = Entorno::new();
    raiz.definir("x".to_string(), Valor::Numero(1));
    raiz.definir("y".to_string(), Valor::Numero(2));
    let mut hijo = Entorno::con_padre(raiz.clonar());
    assert_eq!(hijo.obtener("x"), Some(Valor::Numero(1)));
    hijo.definir("x".to_string(), Valor::Numero(10));
    assert_eq!(hijo.obtener("x"), Some(Valor::Numero(10)));
    assert_eq!(hijo.asignar("x", Valor::Numero(11)), Ok(()));
    assert_eq!(hijo.asignar("y", Valor::Numero(20)), Ok(()));
    assert_eq!(hijo.asignar("z", Valor::Numero(30)), Err(NoDefinida));
    assert_eq!(hijo.obtener("x"), Some(Valor::Numero(11)));
    assert_eq!(hijo.obtener("y"), Some(Valor::Numero(20)));
    assert_eq!(raiz.obtener("x"), Some(Valor::Numero(1)));
    assert_eq!(raiz.obtener("y"), Some(Valor::Numero(2)));
    let nieto = Entorno::con_padre(hijo);
    assert_eq!(nieto.obtener("x"), Some(Valor::Numero(11)));
    assert_eq!(nieto.obtener("y"), Some(Valor::Numero(20)));
    assert_eq!(nieto.obtener("z"), None);
}

#[test]
fn ejecutor_por_pasos() {
    let tokens = Lexer::new(
        "funcion doble(a: numero) { retornar a * 2 } escena A { var x = doble(4) mostrar x } escena B { mostrar x + 1 }",
    )
    .tokenizar()
    .unwrap();
    let programa = Parser::new(tokens).parsear().unwrap();
    let mut ejecutor = Ejecutor::new();
    assert!(ejecutor.obtener_salida().is_empty());
    assert_eq!(ejecutor.ejecutar(&programa, &aritmetica, &formato), Ok(()));
    assert_eq!(ejecutor.obtener_salida().to_vec(), vec!["📺 8".to_string(), "📺 9".to_string()]);
    let otro = Parser::new(Lexer::new("escena C { mostrar doble(x) }").tokenizar().unwrap())
        .parsear()
        .unwrap();
    assert_eq!(ejecutor.ejecutar(&otro, &aritmetica, &formato), Ok(()));
    assert_eq!(
        ejecutor.tomar_salida(),
        vec!["📺 8".to_string(), "📺 9".to_string(), "📺 16".to_string()]
    );
}

#[test]
fn la_ultima_funcion_de_un_nombre_gana() {
    let tokens = Lexer::new(
        "funcion f() { retornar 1 } funcion f() { retornar 2 } escena A { mostrar f() }",
    )
    .tokenizar()
    .unwrap();
    let programa = Parser::new(tokens).parsear().unwrap();
    let mut ejecutor = Ejecutor::con_limite(50);
    assert_eq!(ejecutor.ejecutar(&programa, &aritmetica, &formato), Ok(()));
    assert_eq!(ejecutor.obtener_salida().to_vec(), vec!["📺 2".to_string()]);
}

#[test]
fn mensajes_lexicos() {
    assert_eq!(
        ErrorLexico::CaracterInesperado('@', Posicion::new(2, 5)).mensaje(),
        "Carácter inesperado '@' en línea 2, columna 5"
    );
    assert_eq!(
        ErrorLexico::TextoSinTerminar(Posicion::new(10, 1)).mensaje(),
        "String sin terminar en línea 10, columna 1"
    );
    assert_eq!(
        ErrorLexico::EnteroInvalido("99999999999999999999".to_string(), Posicion::new(1, 1)).mensaje(),
        "Número entero inválido '99999999999999999999' en línea 1, columna 1"
    );
}

#[test]
fn mensajes_sintacticos() {
    let pos = Posicion::new(1, 9);
    assert_eq!(
        ErrorSintactico { esperado: Esperado::EscenaOFuncion, encontrado: TipoToken::Mostrar, pos }.mensaje(),
        "Se esperaba 'escena' o 'funcion', se encontró mostrar en línea 1, columna 9"
    );
    assert_eq!(
        ErrorSintactico { esperado: Esperado::LlaveCierraDeSi, encontrado: TipoToken::Eof, pos }.mensaje(),
        "Se esperaba '}' al final del bloque 'si', se encontró Eof en línea 1, columna 9"
    );
    assert_eq!(
        ErrorSintactico { esperado: Esperado::Expresion, encontrado: TipoToken::LlaveCierra, pos }.mensaje(),
        "Expresión inesperada: LlaveCierra en línea 1, columna 9"
    );
    assert_eq!(
        ErrorSintactico { esperado: Esperado::NombreDeVariable, encontrado: TipoToken::Numero(-3), pos }
            .mensaje(),
        "Se esperaba nombre de variable, se encontró número -3 en línea 1, columna 9"
    );
    assert_eq!(
        ErrorSintactico {
            esperado: Esperado::ComaDeRango,
            encontrado: TipoToken::Identificador("x".to_string()),
            pos
        }
        .mensaje(),
        "Se esperaba ',' entre inicio y fin, se encontró identificador 'x' en línea 1, columna 9"
    );
    assert_eq!(
        ErrorSintactico {
            esperado: Esperado::TipoDeDato,
            encontrado: TipoToken::Texto("a b".to_string()),
            pos
        }
        .mensaje(),
        "Se esperaba un tipo de dato, se encontró texto \"a b\" en línea 1, columna 9"
    );
    assert_eq!(
        ErrorSintactico {
            esperado: Esperado::ParentesisCierraDeArgumentos,
            encontrado: TipoToken::Decimal("1.5".to_string()),
            pos
        }
        .mensaje(),
        "Se esperaba ')' después de argumentos, se encontró decimal 1.5 en línea 1, columna 9"
    );
}

#[test]
fn mensajes_de_ejecucion() {
    let pos = Posicion::new(4, 12);
    assert_eq!(
        ErrorEjecucion::VariableNoDefinida { nombre: "x".to_string(), pos }.mensaje(&formato),
        "Variable 'x' no definida en línea 4, columna 12"
    );
    assert_eq!(
        ErrorEjecucion::FuncionNoDefinida { nombre: "f".to_string(), pos }.mensaje(&formato),
        "Función 'f' no definida en línea 4, columna 12"
    );
    assert_eq!(
        ErrorEjecucion::Aridad { nombre: "f".to_string(), esperados: 2, recibidos: 10, pos }
            .mensaje(&formato),
        "Función 'f' espera 2 argumentos, se proporcionaron 10 en línea 4, columna 12"
    );
    assert_eq!(
        ErrorEjecucion::OperadorNoAplicable {
            operador: OperadorBinario::MenorIgual,
            izquierda: Valor::Decimal(decimal(1.5)),
            derecha: Valor::Booleano(true),
            pos
        }
        .mensaje(&formato),
        "Operador '<=' no aplicable a 1.5 y verdadero en línea 4, columna 12"
    );
    assert_eq!(
        ErrorEjecucion::NegacionNoAplicable { valor: Valor::Nulo, pos }.mensaje(&formato),
        "Operador '-' no aplicable a nulo en línea 4, columna 12"
    );
    assert_eq!(
        ErrorEjecucion::DivisionPorCero { operador: OperadorBinario::Division, pos }.mensaje(&formato),
        "División por cero en línea 4, columna 12"
    );
    assert_eq!(
        ErrorEjecucion::DivisionPorCero { operador: OperadorBinario::Modulo, pos }.mensaje(&formato),
        "Módulo por cero en línea 4, columna 12"
    );
    assert_eq!(
        ErrorEjecucion::RangoNoNumerico { extremo: Extremo::Inicio, valor: texto("a"), pos }
            .mensaje(&formato),
        "Inicio de 'para' debe ser número: No se puede convertir a a número en línea 4, columna 12"
    );
    assert_eq!(
        ErrorEjecucion::RangoNoNumerico { extremo: Extremo::Fin, valor: Valor::Nulo, pos }
            .mensaje(&formato),
        "Fin de 'para' debe ser número: No se puede convertir nulo a número en línea 4, columna 12"
    );
    assert_eq!(
        ErrorEjecucion::LimiteExcedido.mensaje(&formato),
        "Límite de llamadas y vueltas excedido"
    );
}

#[test]
fn mensajes_con_su_etapa() {
    assert_eq!(
        ErrorVCode::Lexico(ErrorLexico::TextoSinTerminar(Posicion::new(1, 1))).mensaje(&formato),
        "Error léxico: String sin terminar en línea 1, columna 1"
    );
    assert_eq!(
        ErrorVCode::Sintactico(ErrorSintactico {
            esperado: Esperado::NombreDeEscena,
            encontrado: TipoToken::LlaveAbre,
            pos: Posicion::new(1, 8)
        })
        .mensaje(&formato),
        "Error sintáctico: Se esperaba nombre de escena, se encontró LlaveAbre en línea 1, columna 8"
    );
    assert_eq!(
        ErrorVCode::Ejecucion(ErrorEjecucion::DivisionPorCero {
            operador: OperadorBinario::Division,
            pos: Posicion::new(1, 8)
        })
        .mensaje(&formato),
        "Error de ejecución: División por cero en línea 1, columna 8"
    );
}

#[test]
fn posiciones_y_simbolos() {
    let mut s = String::from("en ");
    agregar_posicion(&mut s, &Posicion::new(12, 340));
    assert_eq!(s, "en línea 12, columna 340");
    let simbolos: Vec<String> = [
        OperadorBinario::Suma,
        OperadorBinario::Resta,
        OperadorBinario::Multiplicacion,
        OperadorBinario::Division,
        OperadorBinario::Modulo,
        OperadorBinario::Igual,
        OperadorBinario::Diferente,
        OperadorBinario::Menor,
        OperadorBinario::MenorIgual,
        OperadorBinario::Mayor,
        OperadorBinario::MayorIgual,
        OperadorBinario::Y,
        OperadorBinario::O,
    ]
    .iter()
    .map(|op| {
        let mut t = String::new();
        agregar_simbolo(&mut t, op);
        t
    })
    .collect();
    assert_eq!(
        simbolos,
        vec!["+", "-", "*", "/", "%", "==", "!=", "<", "<=", ">", ">=", "y", "o"]
    );
    let mut u = String::new();
    agregar_simbolo_unario(&mut u, &OperadorUnario::Negacion);
    agregar_simbolo_unario(&mut u, &OperadorUnario::No);
    assert_eq!(u, "-no");
}

#[test]
fn registrar_y_correr_escena_por_escena() {
    let tokens = Lexer::new(
        "funcion f() { retornar 1 } escena A { mostrar f() } funcion f() { retornar 2 } escena B { mostrar f() + 1 }",
    )
    .tokenizar()
    .unwrap();
    let programa = Parser::new(tokens).parsear().unwrap();
    let mut ejecutor = Ejecutor::new();
    ejecutor.registrar(&programa);
    let mut vistas: Vec<Vec<String>> = Vec::new();
    for declaracion in &programa.declaraciones {
        if let vcode::ast::Declaracion::Escena(escena) = declaracion {
            assert_eq!(ejecutor.ejecutar_escena(escena, &aritmetica, &formato), Ok(()));
            vistas.push(ejecutor.obtener_salida().to_vec());
        }
    }
    assert_eq!(
        vistas,
        vec![vec!["📺 2".to_string()], vec!["📺 2".to_string(), "📺 3".to_string()]]
    );
}
