use vcode::ast::Posicion;
use vcode::lexer::{ErrorLexico, Lexer, TipoToken, Token};
use vcode::texto::{caracteres, entero_a_texto, texto_de};

fn tokens(codigo: &str) -> Vec<Token> {
    Lexer::new(codigo).tokenizar().unwrap()
}

fn tipos(codigo: &str) -> Vec<TipoToken> {
    tokens(codigo).into_iter().map(|t| t.tipo).collect()
}

#[test]
fn texto_vacio_da_solo_el_fin() {
    assert_eq!(
        tokens(""),
        vec![Token::new(TipoToken::Eof, String::new(), Posicion::new(1, 1))]
    );
}

#[test]
fn el_fin_aparece_una_vez_y_al_final() {
    let t = tipos("escena P { mostrar 1 + 2 } // fin\n");
    assert_eq!(t.last(), Some(&TipoToken::Eof));
    assert_eq!(t.iter().filter(|x| **x == TipoToken::Eof).count(), 1);
}

#[test]
fn tokenizar_es_determinista() {
    let codigo = "funcion f(a: numero) { retornar a * 2.5 }";
    assert_eq!(tokens(codigo), tokens(codigo));
}

#[test]
fn signos_de_uno_y_dos_caracteres() {
    assert_eq!(
        tipos("+ - * / % = == != < <= > >= ( ) { } , : ."),
        vec![
            TipoToken::Suma,
            TipoToken::Resta,
            TipoToken::Multiplicacion,
            TipoToken::Division,
            TipoToken::Modulo,
            TipoToken::Asignacion,
            TipoToken::Igual,
            TipoToken::Diferente,
            TipoToken::Menor,
            TipoToken::MenorIgual,
            TipoToken::Mayor,
            TipoToken::MayorIgual,
            TipoToken::ParentesisAbre,
            TipoToken::ParentesisCierra,
            TipoToken::LlaveAbre,
            TipoToken::LlaveCierra,
            TipoToken::Coma,
            TipoToken::DosPuntos,
            TipoToken::Punto,
            TipoToken::Eof,
        ]
    );
}

#[test]
fn dos_caracteres_antes_que_uno() {
    assert_eq!(
        tipos("===<=>=!="),
        vec![
            TipoToken::Igual,
            TipoToken::Asignacion,
            TipoToken::MenorIgual,
            TipoToken::MayorIgual,
            TipoToken::Diferente,
            TipoToken::Eof,
        ]
    );
}

#[test]
fn palabras_reservadas() {
    assert_eq!(
        tipos("escena mostrar var constante si sino mientras para funcion retornar verdadero falso cada frame cuando y o no"),
        vec![
            TipoToken::Escena,
            TipoToken::Mostrar,
            TipoToken::Var,
            TipoToken::Constante,
            TipoToken::Si,
            TipoToken::Sino,
            TipoToken::Mientras,
            TipoToken::Para,
            TipoToken::Funcion,
            TipoToken::Retornar,
            TipoToken::Verdadero,
            TipoToken::Falso,
            TipoToken::Cada,
            TipoToken::Frame,
            TipoToken::Cuando,
            TipoToken::Y,
            TipoToken::O,
            TipoToken::No,
            TipoToken::Eof,
        ]
    );
}

#[test]
fn nombres_de_tipo() {
    assert_eq!(
        tipos("numero decimal texto booleano vector3 pose mano controlador"),
        vec![
            TipoToken::TipoNumero,
            TipoToken::TipoDecimal,
            TipoToken::TipoTexto,
            TipoToken::TipoBooleano,
            TipoToken::TipoVector3,
            TipoToken::TipoPose,
            TipoToken::TipoMano,
            TipoToken::TipoControlador,
            TipoToken::Eof,
        ]
    );
}

#[test]
fn identificadores() {
    assert_eq!(
        tipos("x _y z9 siNo escenas Var"),
        vec![
            TipoToken::Identificador("x".to_string()),
            TipoToken::Identificador("_y".to_string()),
            TipoToken::Identificador("z9".to_string()),
            TipoToken::Identificador("siNo".to_string()),
            TipoToken::Identificador("escenas".to_string()),
            TipoToken::Identificador("Var".to_string()),
            TipoToken::Eof,
        ]
    );
}

#[test]
fn numeros_enteros_y_decimales() {
    assert_eq!(
        tokens("42 3.14 007"),
        vec![
            Token::new(TipoToken::Numero(42), "42".to_string(), Posicion::new(1, 1)),
            Token::new(TipoToken::Decimal("3.14".to_string()), "3.14".to_string(), Posicion::new(1, 4)),
            Token::new(TipoToken::Numero(7), "007".to_string(), Posicion::new(1, 9)),
            Token::new(TipoToken::Eof, String::new(), Posicion::new(1, 12)),
        ]
    );
}

#[test]
fn punto_sin_digito_detras_termina_el_numero() {
    assert_eq!(
        tipos("5. 5.x 1.2.3"),
        vec![
            TipoToken::Numero(5),
            TipoToken::Punto,
            TipoToken::Numero(5),
            TipoToken::Punto,
            TipoToken::Identificador("x".to_string()),
            TipoToken::Decimal("1.2".to_string()),
            TipoToken::Punto,
            TipoToken::Numero(3),
            TipoToken::Eof,
        ]
    );
}

#[test]
fn el_mayor_entero_cabe_y_el_siguiente_no() {
    assert_eq!(
        tipos("9223372036854775807"),
        vec![TipoToken::Numero(i64::MAX), TipoToken::Eof]
    );
    assert_eq!(
        Lexer::new("  9223372036854775808").tokenizar(),
        Err(ErrorLexico::EnteroInvalido(
            "9223372036854775808".to_string(),
            Posicion::new(1, 3)
        ))
    );
    assert_eq!(
        Lexer::new("123456789012345678901234567890").tokenizar(),
        Err(ErrorLexico::EnteroInvalido(
            "123456789012345678901234567890".to_string(),
            Posicion::new(1, 1)
        ))
    );
}

#[test]
fn textos_y_escapes() {
    assert_eq!(
        tokens(r#""a\nb\t\\\"\q""#),
        vec![
            Token::new(
                TipoToken::Texto("a\nb\t\\\"\\q".to_string()),
                "\"a\nb\t\\\"\\q\"".to_string(),
                Posicion::new(1, 1)
            ),
            Token::new(TipoToken::Eof, String::new(), Posicion::new(1, 15)),
        ]
    );
}

#[test]
fn texto_vacio_y_con_otros_alfabetos() {
    assert_eq!(
        tipos("\"\" \"añ📺\""),
        vec![
            TipoToken::Texto(String::new()),
            TipoToken::Texto("añ📺".to_string()),
            TipoToken::Eof
        ]
    );
}

#[test]
fn texto_sin_terminar() {
    assert_eq!(
        Lexer::new("var x = \"abc").tokenizar(),
        Err(ErrorLexico::TextoSinTerminar(Posicion::new(1, 9)))
    );
    assert_eq!(
        Lexer::new("\"abc\\").tokenizar(),
        Err(ErrorLexico::TextoSinTerminar(Posicion::new(1, 1)))
    );
}

#[test]
fn caracter_inesperado() {
    assert_eq!(
        Lexer::new("x = 1 @ 2").tokenizar(),
        Err(ErrorLexico::CaracterInesperado('@', Posicion::new(1, 7)))
    );
    assert_eq!(
        Lexer::new("a ! b").tokenizar(),
        Err(ErrorLexico::CaracterInesperado('!', Posicion::new(1, 3)))
    );
    assert_eq!(
        Lexer::new("año").tokenizar(),
        Err(ErrorLexico::CaracterInesperado('ñ', Posicion::new(1, 2)))
    );
}

#[test]
fn lineas_columnas_y_comentarios() {
    let t = tokens("// primero\nvar x = 1 // resto\n\t mostrar x\r\n}");
    let posiciones: Vec<(usize, usize)> = t.iter().map(|k| (k.pos.linea, k.pos.columna)).collect();
    assert_eq!(
        posiciones,
        vec![(2, 1), (2, 5), (2, 7), (2, 9), (3, 3), (3, 11), (4, 1), (4, 2)]
    );
    assert_eq!(t[0].tipo, TipoToken::Var);
    assert_eq!(t[7].tipo, TipoToken::Eof);
}

#[test]
fn una_barra_sola_es_division() {
    assert_eq!(
        tipos("a / b /"),
        vec![
            TipoToken::Identificador("a".to_string()),
            TipoToken::Division,
            TipoToken::Identificador("b".to_string()),
            TipoToken::Division,
            TipoToken::Eof,
        ]
    );
}

#[test]
fn las_posiciones_no_retroceden() {
    let t = tokens("escena P {\n  var x = 10\n  mostrar x + 2.5\n}\n");
    for par in t.windows(2) {
        let a = (par[0].pos.linea, par[0].pos.columna);
        let b = (par[1].pos.linea, par[1].pos.columna);
        assert!(a <= b);
    }
}

#[test]
fn pasos_del_lexer() {
    let mut l = Lexer::new("ab\n c");
    assert!(!l.fin());
    assert_eq!(l.actual(), 'a');
    assert_eq!(l.siguiente(), Some('b'));
    assert_eq!(l.posicion_actual(), Posicion::new(1, 1));
    l.avanzar();
    assert_eq!(l.actual(), 'b');
    assert!(!l.coincidir('x'));
    assert!(l.coincidir('b'));
    assert_eq!(l.posicion_actual(), Posicion::new(1, 3));
    l.saltar_espacios_y_comentarios();
    assert_eq!(l.posicion_actual(), Posicion::new(2, 2));
    assert_eq!(l.actual(), 'c');
    assert_eq!(l.siguiente(), None);
    let t = l.siguiente_token().unwrap();
    assert_eq!(t, Token::new(TipoToken::Identificador("c".to_string()), "c".to_string(), Posicion::new(2, 2)));
    assert!(l.fin());
    l.avanzar();
    assert!(l.fin());
    assert_eq!(l.posicion_actual(), Posicion::new(2, 3));
}

#[test]
fn lecturas_sueltas() {
    let mut l = Lexer::new("\"hola\" 12.5 nombre_1");
    assert_eq!(l.leer_string().unwrap().tipo, TipoToken::Texto("hola".to_string()));
    l.saltar_espacios_y_comentarios();
    assert_eq!(l.leer_numero().unwrap().tipo, TipoToken::Decimal("12.5".to_string()));
    l.saltar_espacios_y_comentarios();
    assert_eq!(
        l.leer_identificador().unwrap().tipo,
        TipoToken::Identificador("nombre_1".to_string())
    );
}

#[test]
fn misma_clase_de_token() {
    assert!(TipoToken::Numero(1).misma_clase(&TipoToken::Numero(2)));
    assert!(TipoToken::Identificador("a".to_string()).misma_clase(&TipoToken::Identificador("b".to_string())));
    assert!(TipoToken::Coma.misma_clase(&TipoToken::Coma));
    assert!(!TipoToken::Coma.misma_clase(&TipoToken::Punto));
    assert!(!TipoToken::Texto("a".to_string()).misma_clase(&TipoToken::Identificador("a".to_string())));
}

#[test]
fn caracteres_y_textos() {
    let v = caracteres("añ📺z");
    assert_eq!(v, vec!['a', 'ñ', '📺', 'z']);
    assert_eq!(texto_de(&v, 1, 3), "ñ📺");
    assert_eq!(texto_de(&v, 2, 2), "");
}

#[test]
fn enteros_como_texto() {
    assert_eq!(entero_a_texto(0), "0");
    assert_eq!(entero_a_texto(7), "7");
    assert_eq!(entero_a_texto(-45), "-45");
    assert_eq!(entero_a_texto(1000), "1000");
    assert_eq!(entero_a_texto(i64::MAX), "9223372036854775807");
    assert_eq!(entero_a_texto(i64::MIN), "-9223372036854775808");
}
