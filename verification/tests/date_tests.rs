use qif_parser::date::parse_date;

#[test]
fn test_parse_day_first_date() {
    assert_eq!(parse_date("13/01/2020", "%d/%m/%Y").unwrap(), "2020-01-13");
}

#[test]
fn test_parse_month_first_date() {
    assert_eq!(parse_date("02/13/2020", "%m/%d/%Y").unwrap(), "2020-02-13");
}

#[test]
fn test_mismatched_pattern_is_an_error() {
    // Read with the fields swapped, the month comes out as 13; the parse
    // must fail rather than wrap or clamp the date.
    let r = parse_date("02/13/2020", "%d/%m/%Y");
    assert!(r.is_err());
}

#[test]
fn test_date_error_message_names_cause_and_input() {
    let r = parse_date("27/08/2018", "%m/%d/%Y");
    match r {
        Err(e) => assert_eq!(
            e.details,
            "Error when parsing date: input is out of range 27/08/2018"
        ),
        Ok(_) => panic!("It should have failed"),
    }
}

#[test]
fn test_date_is_normalized_not_echoed() {
    // The result comes from the calendar, not from handing the input back.
    assert_eq!(parse_date("1/2/2020", "%d/%m/%Y").unwrap(), "2020-02-01");
    assert_eq!(parse_date("12/21'07", "%m/%d'%y").unwrap(), "2007-12-21");
}

#[test]
fn test_error_message_method() {
    let e = qif_parser::errors::QifParsingError::new("some words");
    assert_eq!(e.message(), "some words");
    assert_eq!(e.details, "some words");
}
