use orbit::orbit_main::{
    parse_orbit_main_args, parse_port_bindings, to_lowercase, to_uppercase, tokenize, ParseError, Token,
};

fn names(v: &[Vec<u8>]) -> Vec<String> {
    v.iter().map(|w| String::from_utf8(w.clone()).unwrap()).collect()
}

#[test]
fn parses_apps_and_drivers() {
    let a = parse_orbit_main_args(b"apps(Calc, Blinky), drivers(SystemNumPorts)").ok().unwrap();
    assert_eq!(names(&a.apps), vec!["Calc", "Blinky"]);
    assert_eq!(names(&a.drivers), vec!["SystemNumPorts"]);
}

#[test]
fn parses_token_stream_text_with_spaces_and_trailing_commas() {
    let a = parse_orbit_main_args(b"apps (Calc , Reade ,) , drivers ()").ok().unwrap();
    assert_eq!(names(&a.apps), vec!["Calc", "Reade"]);
    assert!(a.drivers.is_empty());
}

#[test]
fn reports_wrong_keywords() {
    assert_eq!(parse_orbit_main_args(b"app(Calc), drivers()").err(), Some(ParseError::ExpectedApps));
    assert_eq!(parse_orbit_main_args(b"apps(Calc), driver()").err(), Some(ParseError::ExpectedDrivers));
    assert_eq!(parse_orbit_main_args(b"apps(Calc) drivers()").err(), Some(ParseError::Syntax));
    assert_eq!(parse_orbit_main_args(b"apps(Calc), drivers() x").err(), Some(ParseError::Syntax));
    assert_eq!(parse_orbit_main_args(b"apps(,), drivers()").err(), Some(ParseError::Syntax));
    assert_eq!(parse_orbit_main_args(b"apps(Calc;), drivers()").err(), Some(ParseError::Syntax));
    assert_eq!(parse_orbit_main_args(b"").err(), Some(ParseError::Syntax));
}

#[test]
fn parses_port_bindings() {
    let b = parse_port_bindings(b"USART1 = 53, UART4 = 66").ok().unwrap();
    assert_eq!(b.len(), 2);
    assert_eq!(b[0].ident, b"USART1".to_vec());
    assert!(matches!(&b[1].expr, Token::Literal(l) if l == b"66"));
    let one = parse_port_bindings(b"USART2 = 39,").ok().unwrap();
    assert_eq!(one.len(), 1);
    assert!(parse_port_bindings(b"").ok().unwrap().is_empty());
    assert_eq!(parse_port_bindings(b"USART2 39").err(), Some(ParseError::Syntax));
}

#[test]
fn tokens_and_cases() {
    let t = tokenize(b"a_1 ( 0x2 ,=)").unwrap();
    assert_eq!(t.len(), 6);
    assert!(tokenize(b"a;b").is_none());
    assert_eq!(to_lowercase(b"SystemNumPorts"), b"systemnumports".to_vec());
    assert_eq!(to_uppercase(b"usart1"), b"USART1".to_vec());
}
