use qif_parser::parse_number;

fn as_f64(r: Result<String, qif_parser::errors::QifParsingError>) -> f64 {
    r.unwrap().parse::<f64>().unwrap()
}

#[test]
fn test_plain_decimal() {
    assert_eq!(as_f64(parse_number("123.45")), 123.45);
}

#[test]
fn test_negative_decimal() {
    assert_eq!(as_f64(parse_number("-123.45")), -123.45);
}

#[test]
fn test_explicit_plus_sign() {
    assert_eq!(as_f64(parse_number("+123.45")), 123.45);
}

#[test]
fn test_integer_text() {
    assert_eq!(as_f64(parse_number("123")), 123.0);
}

#[test]
fn test_thousands_separator() {
    assert_eq!(parse_number("1,234.56").unwrap(), "1234.56");
    assert_eq!(as_f64(parse_number("1,234.56")), 1234.56);
}

#[test]
fn test_surrounding_whitespace_is_trimmed() {
    assert_eq!(parse_number("  42.5\t").unwrap(), "42.5");
}

#[test]
fn test_exponent_and_special_forms() {
    assert_eq!(as_f64(parse_number("2.5e3")), 2500.0);
    assert_eq!(as_f64(parse_number(".5")), 0.5);
    assert_eq!(as_f64(parse_number("5.")), 5.0);
    assert!(as_f64(parse_number("inf")).is_infinite());
    assert!(as_f64(parse_number("NaN")).is_nan());
}

#[test]
fn test_unicode_whitespace_is_trimmed() {
    // No-break space, figure space and ideographic space all carry the
    // Unicode White_Space property; the zero-width space does not.
    assert_eq!(parse_number("\u{00A0}\u{2007}42.5\u{3000}").unwrap(), "42.5");
    assert!(parse_number("\u{200B}5").is_err());
}

#[test]
fn test_unparsable_amount_message() {
    let r = parse_number(" twelve ");
    match r {
        Err(e) => assert_eq!(
            e.details,
            "Could not parse the following as a number: 'twelve'"
        ),
        Ok(_) => panic!("It should have failed"),
    }
}

#[test]
fn test_rejected_shapes() {
    assert!(parse_number("").is_err());
    assert!(parse_number(".").is_err());
    assert!(parse_number("1.2.3").is_err());
    assert!(parse_number("1e").is_err());
    assert!(parse_number("e5").is_err());
    assert!(parse_number("12 34").is_err());
    assert!(parse_number("--5").is_err());
}
