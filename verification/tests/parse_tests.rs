use qif_parser::parse;

fn f(s: &str) -> f64 {
    s.parse::<f64>().unwrap()
}

#[test]
fn test_bank_transaction_with_two_splits() {
    let content = "!Type:Bank\n\
                   D02/10/2020\n\
                   T-100.00\n\
                   PAmazon.com\n\
                   LFood:Groceries\n\
                   SFood:Groceries\n\
                   E50%\n\
                   $-50.00\n\
                   STransportation:Automobile\n\
                   E50%\n\
                   $-50.00\n\
                   ^\n";
    let result = parse(content, "%d/%m/%Y").unwrap();
    assert_eq!(result.file_type, "Bank");
    assert_eq!(result.transactions.len(), 1);
    assert_eq!(result.investments.len(), 0);
    let first = &result.transactions[0];
    assert_eq!(first.date, "2020-10-02");
    assert_eq!(f(&first.amount), -100.0);
    assert_eq!(first.payee, "Amazon.com");
    assert_eq!(first.category, "Food:Groceries");
    assert_eq!(first.splits.len(), 2);
    assert_eq!(first.splits[0].category, "Food:Groceries");
    assert_eq!(first.splits[0].memo, "50%");
    assert_eq!(first.splits[0].amount, "-50.00");
    assert_eq!(first.splits[1].category, "Transportation:Automobile");
    assert_eq!(first.splits[1].memo, "50%");
    assert_eq!(first.splits[1].amount, "-50.00");
    assert_eq!(f(&first.splits[0].amount) + f(&first.splits[1].amount), f(&first.amount));
}

#[test]
fn test_two_triples_build_independent_splits() {
    let content = "SBills:Cell Phone\n\
                   Esign up credit\n\
                   $-15.00\n\
                   SBills:Cell Phone\n\
                   Enew account\n\
                   $82.50\n\
                   ^\n";
    let result = parse(content, "%d/%m/%Y").unwrap();
    assert_eq!(result.transactions.len(), 1);
    let tx = &result.transactions[0];
    assert_eq!(tx.splits.len(), 2);
    assert_eq!(tx.splits[0].memo, "sign up credit");
    assert_eq!(f(&tx.splits[0].amount), -15.0);
    assert_eq!(tx.splits[1].memo, "new account");
    assert_eq!(f(&tx.splits[1].amount), 82.50);
}

#[test]
fn test_check_number_goes_to_last_split() {
    let content = "NCHQ100\n\
                   SFirst\n\
                   NCHQ101\n\
                   SSecond\n\
                   NCHQ102\n\
                   ^\n";
    let result = parse(content, "%d/%m/%Y").unwrap();
    let tx = &result.transactions[0];
    // The first N line came before any split and named the transaction;
    // each later N line touched only the newest split.
    assert_eq!(tx.number_of_the_check, "CHQ100");
    assert_eq!(tx.splits.len(), 2);
    assert_eq!(tx.splits[0].number_of_the_check, "CHQ101");
    assert_eq!(tx.splits[1].number_of_the_check, "CHQ102");
}

#[test]
fn test_split_detail_without_split_fails() {
    let content = "Eorphan memo\n\
                   Dnot a date at all\n\
                   ^\n";
    match parse(content, "%d/%m/%Y") {
        Err(e) => assert_eq!(e.details, "There should be a split item here"),
        Ok(_) => panic!("It should have failed"),
    }
}

#[test]
fn test_split_amount_without_split_fails() {
    let content = "$-10.00\n^\n";
    match parse(content, "%d/%m/%Y") {
        Err(e) => assert_eq!(e.details, "There should be a split item here"),
        Ok(_) => panic!("It should have failed"),
    }
}

#[test]
fn test_investment_block() {
    let content = "!Type:Invst\n\
                   D21/12/2007\n\
                   NBuy\n\
                   YIBM\n\
                   I110.10\n\
                   Q100\n\
                   T11010.00\n\
                   MPurchase of 100 shares of IBM stock\n\
                   ^\n";
    let result = parse(content, "%d/%m/%Y").unwrap();
    assert_eq!(result.file_type, "Invst");
    assert_eq!(result.transactions.len(), 0);
    assert_eq!(result.investments.len(), 1);
    let first = &result.investments[0];
    assert_eq!(first.date, "2007-12-21");
    assert_eq!(first.action, "Buy");
    assert_eq!(first.security_name, "IBM");
    assert_eq!(f(&first.amount), 11010.00);
    assert_eq!(f(&first.price), 110.10);
    assert_eq!(f(&first.quantity), 100.0);
    assert_eq!(f(&first.price) * f(&first.quantity), f(&first.amount));
    assert_eq!(first.memo, "Purchase of 100 shares of IBM stock");
    // The reserved fields stay at their defaults: no tag fills them.
    assert_eq!(f(&first.commission_cost), 0.0);
    assert_eq!(f(&first.amount_transferred), 0.0);
}

#[test]
fn test_investment_mode_is_sticky() {
    let content = "!Type:Invst\n\
                   NBuy\n\
                   ^\n\
                   !Type:Bank\n\
                   PSomeone\n\
                   ^\n\
                   YACME\n\
                   ^\n";
    let result = parse(content, "%d/%m/%Y").unwrap();
    // The later bank header still names the file type, but the mode never
    // falls back: no transaction is ever built. The `P` line is no
    // investment tag, so the second block stays untouched and its
    // terminator commits nothing; the `Y` line opens a third block that
    // commits as an investment.
    assert_eq!(result.file_type, "Bank");
    assert_eq!(result.transactions.len(), 0);
    assert_eq!(result.investments.len(), 2);
    assert_eq!(result.investments[0].action, "Buy");
    assert_eq!(result.investments[1].security_name, "ACME");
}

#[test]
fn test_last_type_header_wins() {
    let content = "!Type:Cash\n^\nPSomeone\n^\n!Type:CCard\n^\n";
    let result = parse(content, "%d/%m/%Y").unwrap();
    // Each header overwrites the file type; header-only blocks leave the
    // accumulator untouched, so their terminators commit nothing.
    assert_eq!(result.file_type, "CCard");
    assert_eq!(result.transactions.len(), 1);
    assert_eq!(result.transactions[0].payee, "Someone");
}

#[test]
fn test_untouched_terminator_commits_nothing() {
    let content = "!Type:Bank\n^\nT1.00\n^extra\nT2.00\n^\n";
    let result = parse(content, "%d/%m/%Y").unwrap();
    // The first terminator closes an untouched accumulator and commits
    // nothing; "^extra" is not exactly the terminator, so it is an
    // unrecognized tag and a no-op; the second amount line overwrites the
    // first in the one record that the final terminator commits.
    assert_eq!(result.file_type, "Bank");
    assert_eq!(result.transactions.len(), 1);
    assert_eq!(f(&result.transactions[0].amount), 2.0);
}

#[test]
fn test_bank_records_with_addresses() {
    let content = "!Type:Bank\n\
                   D27/08/2018\n\
                   T1000\n\
                   PJane Doe\n\
                   ^\n\
                   D28/08/2018\n\
                   T-15.00\n\
                   LTransport\n\
                   PInfinity Motor Cycles\n\
                   A30-32 FairyLand High Street\n\
                   ASecond address line\n\
                   ^\n";
    let result = parse(content, "%d/%m/%Y").unwrap();
    assert_eq!(result.file_type, "Bank");
    assert_eq!(result.transactions.len(), 2);
    let first = &result.transactions[0];
    assert_eq!(first.date, "2018-08-27");
    assert_eq!(f(&first.amount), 1000.0);
    assert_eq!(first.payee, "Jane Doe");
    assert_eq!(first.category, "");
    assert_eq!(first.cleared_status, "");
    assert_eq!(first.address.len(), 0);
    let second = &result.transactions[1];
    assert_eq!(second.date, "2018-08-28");
    assert_eq!(f(&second.amount), -15.0);
    assert_eq!(second.category, "Transport");
    assert_eq!(second.payee, "Infinity Motor Cycles");
    assert_eq!(second.address.len(), 2);
    assert_eq!(second.address[0], "30-32 FairyLand High Street");
    assert_eq!(second.address[1], "Second address line");
}

#[test]
fn test_amount_with_thousands_separators() {
    let content = "T10,000\n^\nT-10,000,000.00\n^\nT+123\n^\n";
    let result = parse(content, "%d/%m/%Y").unwrap();
    assert_eq!(result.transactions.len(), 3);
    assert_eq!(f(&result.transactions[0].amount), 10_000.0);
    assert_eq!(f(&result.transactions[1].amount), -10_000_000.0);
    assert_eq!(f(&result.transactions[2].amount), 123.0);
}

#[test]
fn test_unicode_text_fields() {
    let content = "PHuge Amount \u{1F605} with UTF8\n\
                   MCaf\u{e9} visit\n\
                   ^\n";
    let result = parse(content, "%d/%m/%Y").unwrap();
    let tx = &result.transactions[0];
    assert_eq!(tx.payee, "Huge Amount \u{1F605} with UTF8");
    assert_eq!(tx.memo, "Caf\u{e9} visit");
}

#[test]
fn test_crlf_line_endings() {
    let content = "!Type:Bank\r\nPWindows Export\r\n^\r\n";
    let result = parse(content, "%d/%m/%Y").unwrap();
    assert_eq!(result.file_type, "Bank");
    assert_eq!(result.transactions.len(), 1);
    assert_eq!(result.transactions[0].payee, "Windows Export");
}

#[test]
fn test_empty_input_gives_empty_document() {
    let result = parse("", "%d/%m/%Y").unwrap();
    assert_eq!(result.file_type, "");
    assert_eq!(result.transactions.len(), 0);
    assert_eq!(result.investments.len(), 0);
}

#[test]
fn test_unterminated_trailing_record_is_dropped() {
    let content = "PFirst\n^\nPSecond without terminator\n";
    let result = parse(content, "%d/%m/%Y").unwrap();
    assert_eq!(result.transactions.len(), 1);
    assert_eq!(result.transactions[0].payee, "First");
}

#[test]
fn test_blank_and_unknown_lines_are_ignored() {
    let content = "PSomeone\n\nZunknown tag\n^\n";
    let result = parse(content, "%d/%m/%Y").unwrap();
    assert_eq!(result.transactions.len(), 1);
    assert_eq!(result.transactions[0].payee, "Someone");
}

#[test]
fn test_default_amounts_are_zero() {
    let content = "PNo amount here\n^\n";
    let result = parse(content, "%d/%m/%Y").unwrap();
    let tx = &result.transactions[0];
    assert_eq!(tx.amount, "0");
    assert_eq!(f(&tx.amount), 0.0);
    assert_eq!(tx.date, "");
}

#[test]
fn test_bad_amount_stops_the_parse() {
    let content = "Tnot-a-number\nPNever reached\n^\n";
    match parse(content, "%d/%m/%Y") {
        Err(e) => assert_eq!(
            e.details,
            "Could not parse the following as a number: 'not-a-number'"
        ),
        Ok(_) => panic!("It should have failed"),
    }
}

#[test]
fn test_bad_date_stops_the_parse() {
    let content = "D27/08/2018\nT100\n^\n";
    match parse(content, "%m/%d/%Y") {
        Err(e) => assert_eq!(
            e.details,
            "Error when parsing date: input is out of range 27/08/2018"
        ),
        Ok(_) => panic!("It should have failed"),
    }
}

#[test]
fn test_cleared_status_and_memo() {
    let content = "CX\nMmoney back for damaged parcel\nLMiscellaneous\n^\n";
    let result = parse(content, "%d/%m/%Y").unwrap();
    let tx = &result.transactions[0];
    assert_eq!(tx.cleared_status, "X");
    assert_eq!(tx.memo, "money back for damaged parcel");
    assert_eq!(tx.category, "Miscellaneous");
}

#[test]
fn test_parse_twice_yields_identical_documents() {
    let content = "!Type:Bank\n\
                   D02/10/2020\n\
                   T-100.00\n\
                   PAmazon.com\n\
                   SFood:Groceries\n\
                   E50%\n\
                   $-50.00\n\
                   ^\n";
    let first = parse(content, "%d/%m/%Y").unwrap();
    let second = parse(content, "%d/%m/%Y").unwrap();
    assert_eq!(first, second);
}
