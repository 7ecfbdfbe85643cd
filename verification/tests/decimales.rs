use vcode::decimal::{calcular, escribir, potencia_de_dos, Decimal, OperacionDecimal};

fn decimal(x: f64) -> Decimal {
    Decimal { bits: x.to_bits() }
}

fn numero(d: Decimal) -> f64 {
    f64::from_bits(d.bits)
}

fn muestras() -> Vec<f64> {
    vec![
        0.0,
        -0.0,
        1.0,
        -1.0,
        0.5,
        -0.5,
        0.999999999,
        1.5,
        2.0,
        -2.75,
        3.999,
        1e-300,
        -1e-300,
        5e-324,
        -5e-324,
        2.2250738585072014e-308,
        123456789.987654321,
        -123456789.987654321,
        4503599627370496.0,
        4503599627370497.0,
        9007199254740992.0,
        9007199254740993.0,
        1e18,
        -1e18,
        9223372036854774784.0,
        9223372036854775807.0,
        9223372036854775808.0,
        -9223372036854775808.0,
        -9223372036854777856.0,
        1e19,
        -1e19,
        1e300,
        -1e300,
        f64::MAX,
        f64::MIN,
        f64::MIN_POSITIVE,
        f64::EPSILON,
        f64::INFINITY,
        f64::NEG_INFINITY,
        f64::NAN,
        -f64::NAN,
        f64::from_bits(0x7ff0_0000_0000_0001),
        f64::from_bits(0xfff8_0000_0000_0001),
    ]
}

#[test]
fn truncar_como_la_conversion_a_entero() {
    for x in muestras() {
        assert_eq!(decimal(x).truncar(), x as i64, "{:?}", x);
    }
}

#[test]
fn truncar_valores_exactos() {
    assert_eq!(decimal(2.9).truncar(), 2);
    assert_eq!(decimal(-2.9).truncar(), -2);
    assert_eq!(decimal(0.9).truncar(), 0);
    assert_eq!(decimal(1048576.5).truncar(), 1048576);
    assert_eq!(decimal(f64::NAN).truncar(), 0);
    assert_eq!(decimal(f64::INFINITY).truncar(), i64::MAX);
    assert_eq!(decimal(f64::NEG_INFINITY).truncar(), i64::MIN);
    assert_eq!(decimal(1e19).truncar(), i64::MAX);
    assert_eq!(decimal(-9223372036854775808.0).truncar(), i64::MIN);
    assert_eq!(decimal(4611686018427387904.0).truncar(), 4611686018427387904);
}

#[test]
fn igual_como_la_igualdad_de_decimales() {
    for x in muestras() {
        for y in muestras() {
            assert_eq!(decimal(x).igual(&decimal(y)), x == y, "{:?} {:?}", x, y);
        }
    }
}

#[test]
fn menor_como_el_orden_de_decimales() {
    for x in muestras() {
        for y in muestras() {
            assert_eq!(decimal(x).menor(&decimal(y)), x < y, "{:?} {:?}", x, y);
        }
    }
}

#[test]
fn negar_como_el_opuesto() {
    for x in muestras() {
        assert_eq!(decimal(x).negar().bits, (-x).to_bits(), "{:?}", x);
    }
}

#[test]
fn signo_cero_y_no_numero() {
    for x in muestras() {
        let d = decimal(x);
        assert_eq!(d.cero(), x == 0.0, "{:?}", x);
        assert_eq!(d.no_es_numero(), x.is_nan(), "{:?}", x);
        assert_eq!(d.es_negativo(), x.is_sign_negative(), "{:?}", x);
        assert_eq!(d.magnitud_de(), x.abs().to_bits(), "{:?}", x);
    }
}

#[test]
fn los_dos_ceros_son_iguales_y_ninguno_es_menor() {
    let mas = decimal(0.0);
    let menos = decimal(-0.0);
    assert_ne!(mas, menos);
    assert!(mas.igual(&menos));
    assert!(!mas.menor(&menos));
    assert!(!menos.menor(&mas));
}

#[test]
fn lo_que_no_es_numero_no_es_igual_a_si_mismo() {
    let nan = decimal(f64::NAN);
    assert!(!nan.igual(&nan));
    assert!(!nan.menor(&nan));
    assert!(!nan.menor(&decimal(1.0)));
    assert!(!decimal(1.0).menor(&nan));
}

#[test]
fn potencias_de_dos() {
    assert_eq!(potencia_de_dos(0), 1);
    assert_eq!(potencia_de_dos(1), 2);
    assert_eq!(potencia_de_dos(10), 1024);
    assert_eq!(potencia_de_dos(52), 4503599627370496);
    assert_eq!(potencia_de_dos(62), 4611686018427387904);
}

#[test]
fn calcular_y_escribir_preguntan_al_anfitrion() {
    let aritmetica = |op: OperacionDecimal| match op {
        OperacionDecimal::Sumar(a, b) => decimal(numero(a) + numero(b)),
        OperacionDecimal::DeEntero(n) => decimal(n as f64),
        _ => decimal(0.0),
    };
    let formato = |d: Decimal| format!("{}", numero(d));
    assert_eq!(
        calcular(&aritmetica, OperacionDecimal::Sumar(decimal(1.25), decimal(2.5))),
        decimal(3.75)
    );
    assert_eq!(calcular(&aritmetica, OperacionDecimal::DeEntero(-3)), decimal(-3.0));
    assert_eq!(escribir(&formato, decimal(3.75)), "3.75");
    assert_eq!(escribir(&formato, decimal(100.0)), "100");
}
