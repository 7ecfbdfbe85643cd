use vcode::decimal::{Decimal, OperacionDecimal};
use vcode::error::{ClaseDeError, ErrorEjecucion};
use vcode::interprete::{ErrorVCode, Fallo};
use vcode::ast::{OperadorBinario, Posicion};
use vcode::valor::Valor;
use vcode::{ejecutar, ejecutar_con_limite};

fn numero(d: Decimal) -> f64 {
    f64::from_bits(d.bits)
}

fn decimal(x: f64) -> Decimal {
    Decimal { bits: x.to_bits() }
}

fn aritmetica(op: OperacionDecimal) -> Decimal {
    match op {
        OperacionDecimal::Analizar(texto) => decimal(texto.parse::<f64>().unwrap()),
        OperacionDecimal::DeEntero(n) => decimal(n as f64),
        OperacionDecimal::Sumar(a, b) => decimal(numero(a) + numero(b)),
        OperacionDecimal::Restar(a, b) => decimal(numero(a) - numero(b)),
        OperacionDecimal::Multiplicar(a, b) => decimal(numero(a) * numero(b)),
        OperacionDecimal::Dividir(a, b) => decimal(numero(a) / numero(b)),
    }
}

fn formato(d: Decimal) -> String {
    format!("{}", numero(d))
}

fn correr(codigo: &str) -> Result<Vec<String>, Fallo> {
    ejecutar(codigo, &aritmetica, &formato)
}

fn lineas(textos: &[&str]) -> Vec<String> {
    textos.iter().map(|t| t.to_string()).collect()
}

fn error_de(codigo: &str) -> (ErrorEjecucion, Vec<String>) {
    match correr(codigo) {
        Err(Fallo { error: ErrorVCode::Ejecucion(e), salida }) => (e, salida),
        otro => panic!("se esperaba un error de ejecución: {:?}", otro),
    }
}

#[test]
fn test_hola_mundo() {
    let codigo = r#"
            escena Principal {
                mostrar "Hola, V-Code"
            }
        "#;

    assert!(correr(codigo).is_ok());
}

#[test]
fn test_variables() {
    let codigo = r#"
            escena Principal {
                var x = 10
                var y = 20
                var suma = x + y
                mostrar suma
            }
        "#;

    assert!(correr(codigo).is_ok());
}

#[test]
fn test_funciones() {
    let codigo = r#"
            funcion sumar(a: numero, b: numero): numero {
                retornar a + b
            }
            
            escena Principal {
                var resultado = sumar(5, 3)
                mostrar resultado
            }
        "#;

    assert!(correr(codigo).is_ok());
}

#[test]
fn test_control_flujo() {
    let codigo = r#"
            escena Principal {
                var edad = 25
                
                si edad > 18 {
                    mostrar "Mayor de edad"
                } sino {
                    mostrar "Menor de edad"
                }
            }
        "#;

    assert!(correr(codigo).is_ok());
}

#[test]
fn test_bucle_para() {
    let codigo = r#"
            escena Principal {
                para i = 0, 5 {
                    mostrar i
                }
            }
        "#;

    assert!(correr(codigo).is_ok());
}

#[test]
fn hola_muestra_una_linea() {
    assert_eq!(
        correr("escena P { mostrar \"Hola, V-Code\" }"),
        Ok(lineas(&["📺 Hola, V-Code"]))
    );
}

#[test]
fn aritmetica_de_variables() {
    assert_eq!(
        correr("escena P { var x = 10 var y = 20 mostrar x + y }"),
        Ok(lineas(&["📺 30"]))
    );
}

#[test]
fn funcion_que_retorna() {
    assert_eq!(
        correr(
            "funcion sumar(a: numero, b: numero): numero { retornar a + b } escena P { mostrar sumar(5, 3) }"
        ),
        Ok(lineas(&["📺 8"]))
    );
}

#[test]
fn si_y_sino() {
    assert_eq!(
        correr(
            "escena P { var edad = 25 si edad > 18 { mostrar \"Mayor\" } sino { mostrar \"Menor\" } }"
        ),
        Ok(lineas(&["📺 Mayor"]))
    );
    assert_eq!(
        correr(
            "escena P { var edad = 5 si edad > 18 { mostrar \"Mayor\" } sino { mostrar \"Menor\" } }"
        ),
        Ok(lineas(&["📺 Menor"]))
    );
}

#[test]
fn bucle_para_en_orden() {
    assert_eq!(
        correr("escena P { para i = 0, 3 { mostrar i } }"),
        Ok(lineas(&["📺 0", "📺 1", "📺 2"]))
    );
}

#[test]
fn bucle_para_vacio() {
    assert_eq!(
        correr("escena P { para i = 3, 3 { mostrar i } para j = 5, 2 { mostrar j } mostrar \"fin\" }"),
        Ok(lineas(&["📺 fin"]))
    );
}

#[test]
fn la_variable_de_para_queda_visible() {
    assert_eq!(
        correr("escena P { para i = 0, 3 { } mostrar i }"),
        Ok(lineas(&["📺 2"]))
    );
}

#[test]
fn error_de_tipo_en_suma() {
    let (error, salida) = error_de("escena P { mostrar 1 + verdadero }");
    assert_eq!(
        error,
        ErrorEjecucion::OperadorNoAplicable {
            operador: OperadorBinario::Suma,
            izquierda: Valor::Numero(1),
            derecha: Valor::Booleano(true),
            pos: Posicion::new(1, 22),
        }
    );
    assert_eq!(error.clase(), ClaseDeError::Tipo);
    assert!(salida.is_empty());
}

#[test]
fn lineas_antes_del_error() {
    let (error, salida) = error_de("escena P { mostrar 1 mostrar 2 - \"a\" }");
    assert_eq!(error.clase(), ClaseDeError::Tipo);
    assert_eq!(salida, lineas(&["📺 1"]));
}

#[test]
fn division_entera_por_cero() {
    let (error, _) = error_de("escena P { mostrar 1 / 0 }");
    assert_eq!(
        error,
        ErrorEjecucion::DivisionPorCero {
            operador: OperadorBinario::Division,
            pos: Posicion::new(1, 22),
        }
    );
    assert_eq!(error.clase(), ClaseDeError::Aritmetica);
}

#[test]
fn division_decimal_por_cero() {
    let (error, _) = error_de("escena P { mostrar 1.5 / 0.0 }");
    assert_eq!(
        error,
        ErrorEjecucion::DivisionPorCero {
            operador: OperadorBinario::Division,
            pos: Posicion::new(1, 24),
        }
    );
    let (error, _) = error_de("escena P { mostrar 1 / 0.0 }");
    assert_eq!(error.clase(), ClaseDeError::Aritmetica);
    let (error, _) = error_de("escena P { mostrar 1.5 / 0 }");
    assert_eq!(error.clase(), ClaseDeError::Aritmetica);
}

#[test]
fn modulo_por_cero() {
    let (error, _) = error_de("escena P { mostrar 7 % 0 }");
    assert_eq!(
        error,
        ErrorEjecucion::DivisionPorCero {
            operador: OperadorBinario::Modulo,
            pos: Posicion::new(1, 22),
        }
    );
}

#[test]
fn funcion_desconocida() {
    let (error, _) = error_de("escena P { mostrar f(1) }");
    assert_eq!(
        error,
        ErrorEjecucion::FuncionNoDefinida { nombre: "f".to_string(), pos: Posicion::new(1, 20) }
    );
    assert_eq!(error.clase(), ClaseDeError::Nombre);
}

#[test]
fn asignacion_sin_declarar() {
    let (error, _) = error_de("escena P { x = 1 }");
    assert_eq!(
        error,
        ErrorEjecucion::VariableNoDefinida { nombre: "x".to_string(), pos: Posicion::new(1, 12) }
    );
    assert_eq!(error.clase(), ClaseDeError::Nombre);
}

#[test]
fn lectura_sin_declarar() {
    let (error, _) = error_de("escena P { mostrar x }");
    assert_eq!(
        error,
        ErrorEjecucion::VariableNoDefinida { nombre: "x".to_string(), pos: Posicion::new(1, 20) }
    );
}

#[test]
fn aridad_equivocada() {
    let (error, _) = error_de(
        "funcion f(a: numero, b: numero) { retornar a } escena P { mostrar f(1) }",
    );
    assert_eq!(
        error,
        ErrorEjecucion::Aridad {
            nombre: "f".to_string(),
            esperados: 2,
            recibidos: 1,
            pos: Posicion::new(1, 67),
        }
    );
    assert_eq!(error.clase(), ClaseDeError::Aridad);
}

#[test]
fn decimales_del_anfitrion() {
    assert_eq!(
        correr("escena P { mostrar 0.1 + 0.2 mostrar 1.5 * 2 mostrar 7 / 2.0 mostrar 3.0 - 1 }"),
        Ok(lineas(&["📺 0.30000000000000004", "📺 3", "📺 3.5", "📺 2"]))
    );
}

#[test]
fn comparaciones_y_logica() {
    assert_eq!(
        correr(
            "escena P { mostrar 1 < 2 mostrar 2.5 >= 3 mostrar 1 == 1.0 mostrar 1.0 == 1.0 mostrar \"a\" != \"b\" mostrar no 0 mostrar 1 y \"\" mostrar 0 o \"x\" }"
        ),
        Ok(lineas(&[
            "📺 verdadero",
            "📺 falso",
            "📺 falso",
            "📺 verdadero",
            "📺 verdadero",
            "📺 verdadero",
            "📺 falso",
            "📺 verdadero",
        ]))
    );
}

#[test]
fn texto_mas_valor() {
    assert_eq!(
        correr(
            "funcion nada() { } escena P { mostrar \"n=\" + 5 mostrar 2.5 + \"x\" mostrar \"b:\" + falso mostrar \"v:\" + nada() }"
        ),
        Ok(lineas(&["📺 n=5", "📺 2.5x", "📺 b:falso", "📺 v:nulo"]))
    );
}

#[test]
fn precedencia_y_asociatividad() {
    assert_eq!(
        correr("escena P { mostrar 2 + 3 * 4 mostrar (2 + 3) * 4 mostrar 10 - 4 - 3 mostrar -2 * -3 mostrar 7 % 4 + 1 mostrar -7 / 2 mostrar -7 % 2 }"),
        Ok(lineas(&["📺 14", "📺 20", "📺 3", "📺 6", "📺 4", "📺 -3", "📺 -1"]))
    );
}

#[test]
fn mientras_cuenta() {
    assert_eq!(
        correr("escena P { var i = 0 mientras i < 3 { mostrar i i = i + 1 } mostrar \"fin\" }"),
        Ok(lineas(&["📺 0", "📺 1", "📺 2", "📺 fin"]))
    );
}

#[test]
fn mientras_sin_fin_agota_el_limite() {
    let r = ejecutar_con_limite("escena P { mientras verdadero { } }", 1000, &aritmetica, &formato);
    match r {
        Err(Fallo { error: ErrorVCode::Ejecucion(e), .. }) => {
            assert_eq!(e, ErrorEjecucion::LimiteExcedido);
            assert_eq!(e.clase(), ClaseDeError::Limite);
        }
        otro => panic!("{:?}", otro),
    }
}

#[test]
fn recursion_sin_fin_agota_el_limite() {
    let r = ejecutar_con_limite(
        "funcion f(n: numero) { retornar f(n + 1) } escena P { mostrar f(0) }",
        200,
        &aritmetica,
        &formato,
    );
    match r {
        Err(Fallo { error: ErrorVCode::Ejecucion(e), .. }) => {
            assert_eq!(e, ErrorEjecucion::LimiteExcedido)
        }
        otro => panic!("{:?}", otro),
    }
}

#[test]
fn recursion_factorial() {
    assert_eq!(
        correr(
            "funcion fact(n: numero): numero { si n <= 1 { retornar 1 } retornar n * fact(n - 1) } escena P { mostrar fact(10) }"
        ),
        Ok(lineas(&["📺 3628800"]))
    );
}

#[test]
fn la_funcion_no_cambia_al_llamador() {
    assert_eq!(
        correr(
            "funcion f() { x = 99 mostrar x retornar 0 } escena P { var x = 1 f() mostrar x }"
        ),
        Ok(lineas(&["📺 99", "📺 1"]))
    );
}

#[test]
fn argumentos_en_el_entorno_del_llamador() {
    assert_eq!(
        correr(
            "funcion f(a: numero, b: numero) { retornar b } escena P { var a = 10 mostrar f(1, a) }"
        ),
        Ok(lineas(&["📺 10"]))
    );
}

#[test]
fn retornar_termina_la_escena() {
    assert_eq!(
        correr("escena A { mostrar 1 si verdadero { retornar } mostrar 2 } escena B { mostrar 3 }"),
        Ok(lineas(&["📺 1", "📺 3"]))
    );
}

#[test]
fn y_y_o_son_nombres_donde_va_un_nombre() {
    assert_eq!(
        correr("escena P { var y = 2 var o = 0 mostrar y y o mostrar o o y mostrar y + o }"),
        Ok(lineas(&["📺 falso", "📺 verdadero", "📺 2"]))
    );
}

#[test]
fn escenas_en_orden() {
    assert_eq!(
        correr("escena A { mostrar 1 } funcion f() { retornar 2 } escena B { mostrar f() }"),
        Ok(lineas(&["📺 1", "📺 2"]))
    );
}

#[test]
fn sin_mostrar_no_hay_salida() {
    assert_eq!(
        correr("funcion f(a: numero) { retornar a * 2 } escena P { var x = f(4) x = x + 1 para i = 0, 3 { x = x + i } }"),
        Ok(lineas(&[]))
    );
}

#[test]
fn var_y_lectura() {
    assert_eq!(
        correr("escena P { var x = 3 * 4 + 1 mostrar x var x = \"otra\" mostrar x }"),
        Ok(lineas(&["📺 13", "📺 otra"]))
    );
}

#[test]
fn rango_no_numerico() {
    let (error, _) = error_de("escena P { para i = \"a\", 3 { } }");
    assert_eq!(error.clase(), ClaseDeError::Tipo);
    let (error, _) = error_de("escena P { para i = 0, nulo() { } } ");
    assert_eq!(error.clase(), ClaseDeError::Nombre);
}

#[test]
fn rango_decimal_se_trunca() {
    assert_eq!(
        correr("escena P { para i = 0.9, 2.5 { mostrar i } }"),
        Ok(lineas(&["📺 0", "📺 1"]))
    );
}

#[test]
fn enteros_dan_la_vuelta() {
    assert_eq!(
        correr("escena P { mostrar 9223372036854775807 + 1 mostrar (0 - 9223372036854775807 - 1) / -1 }"),
        Ok(lineas(&["📺 -9223372036854775808", "📺 -9223372036854775808"]))
    );
}

#[test]
fn un_limite_mayor_no_cambia_lo_que_cabe_en_uno_menor() {
    let codigo = "funcion fib(n: numero) { si n < 2 { retornar n } retornar fib(n - 1) + fib(n - 2) } escena P { var i = 0 mientras i < 8 { mostrar fib(i) i = i + 1 } }";
    let con_poco = ejecutar_con_limite(codigo, 16, &aritmetica, &formato);
    let con_mucho = ejecutar_con_limite(codigo, 1000, &aritmetica, &formato);
    assert_eq!(
        con_poco,
        Ok(lineas(&["📺 0", "📺 1", "📺 1", "📺 2", "📺 3", "📺 5", "📺 8", "📺 13"]))
    );
    assert_eq!(con_mucho, con_poco);
    assert_eq!(correr(codigo), con_poco);
    match ejecutar_con_limite(codigo, 5, &aritmetica, &formato) {
        Err(Fallo { error: ErrorVCode::Ejecucion(ErrorEjecucion::LimiteExcedido), salida }) => {
            assert_eq!(salida, lineas(&["📺 0", "📺 1", "📺 1"]));
        }
        otro => panic!("{:?}", otro),
    }
}

#[test]
fn errores_de_las_dos_primeras_etapas() {
    match correr("escena P { mostrar @ }") {
        Err(Fallo { error: ErrorVCode::Lexico(e), salida }) => {
            assert_eq!(e.mensaje(), "Carácter inesperado '@' en línea 1, columna 20");
            assert!(salida.is_empty());
        }
        otro => panic!("{:?}", otro),
    }
    match correr("escena P { mostrar 1 ") {
        Err(Fallo { error: ErrorVCode::Sintactico(e), salida }) => {
            assert_eq!(
                e.mensaje(),
                "Se esperaba '}' al final de escena, se encontró Eof en línea 1, columna 22"
            );
            assert!(salida.is_empty());
        }
        otro => panic!("{:?}", otro),
    }
}
