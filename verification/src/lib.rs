//! A parser for QIF, a line-oriented plain-text personal-finance format.
//!
//! A QIF document is a sequence of lines. Each record is a block of tag
//! lines closed by a line holding only `^`; the leading character of a line
//! decides which field of the record the rest of the line fills. The parser
//! turns the text of a whole file into a [`qif::Qif`] document, or returns
//! the first [`errors::QifParsingError`] it runs into.
//!
//! Amounts are kept as their normalized number text (whitespace-trimmed,
//! comma-free, accepted by the `f64` grammar), so a caller may convert them
//! to any numeric type without re-checking their shape. Dates are kept in
//! canonical `YYYY-MM-DD` form, read against the strftime-style pattern the
//! caller supplies; a QIF file does not name its own date order, so the
//! caller must pick the pattern of the source institution, for example
//! `%d/%m/%Y` for `01/11/1982` or `%m/%d'%Y` for `11/01'1982`.

pub mod date;
pub mod errors;
pub mod investment;
pub mod laws;
pub mod model;
pub mod number;
pub mod qif;
pub mod split;
pub mod text;
pub mod transaction;

use crate::errors::QifParsingError;
use crate::investment::QifInvestment;
use crate::model::SplitView;
use crate::model::TransactionView;
use crate::split::QifSplit;
use crate::transaction::QifTransaction;
use vstd::prelude::*;
use vstd::string::StrSliceExecFns;
use vstd::string::StringExecFns;

verus! {

/// Normalizes an amount remainder: trims surrounding whitespace, strips
/// thousands-separator commas, and accepts the result exactly when the
/// `f64` grammar does; otherwise returns an error naming the trimmed text.
pub fn parse_number(remainder: &str) -> (r: Result<String, QifParsingError>)
    ensures
        r is Ok <==> model::amount_ok(remainder@),
        r matches Ok(a) ==> a@ == model::norm_num(remainder@),
        r matches Err(e) ==> e.details@ == model::num_err_msg(remainder@),
{
    let trimmed = text::trim_str(remainder);
    let cleaned = text::remove_commas(trimmed);
    if number::is_float_text(cleaned.as_str()) {
        Ok(cleaned)
    } else {
        let mut m = String::from_str("Could not parse the following as a number: '");
        m.append(trimmed);
        m.append("'");
        Err(QifParsingError::new(m.as_str()))
    }
}

/// Routes one line to a field of the open transaction by its leading tag
/// character, as [`model::dispatch_tx`] describes. On an error the
/// transaction is left untouched: a field is only ever assigned after its
/// value has normalized successfully.
fn parse_line(line: &str, item: &mut QifTransaction, date_format: &str) -> (r: Result<
    (),
    QifParsingError,
>)
    ensures
        r is Ok <==> model::dispatch_tx(old(item)@, line@, date_format@) is Ok,
        r is Ok ==> final(item)@ == model::dispatch_tx(old(item)@, line@, date_format@)->Ok_0,
        r matches Err(e) ==> e.details@ == model::dispatch_tx(
            old(item)@,
            line@,
            date_format@,
        )->Err_0,
        r is Err ==> *final(item) == *old(item),
{
    let len = line.unicode_len();
    if len == 0 {
        return Ok(());
    }
    let tag = line.get_char(0);
    let rem = line.substring_char(1, len);
    proof {
        assert(rem@ =~= line@.skip(1));
    }
    match tag {
        'T' | 'U' => {
            match parse_number(rem) {
                Ok(a) => {
                    item.amount = a;
                    Ok(())
                },
                Err(e) => Err(e),
            }
        },
        'P' => {
            item.payee = rem.to_owned();
            Ok(())
        },
        'L' => {
            item.category = rem.to_owned();
            Ok(())
        },
        'D' => {
            match date::parse_date(rem, date_format) {
                Ok(d) => {
                    item.date = d;
                    Ok(())
                },
                Err(e) => Err(e),
            }
        },
        'C' => {
            item.cleared_status = rem.to_owned();
            Ok(())
        },
        'M' => {
            item.memo = rem.to_owned();
            Ok(())
        },
        'A' => {
            let ghost prev = item.address.deep_view();
            item.address.push(rem.to_owned());
            proof {
                assert(item.address.deep_view() =~= prev.push(rem@));
            }
            Ok(())
        },
        'N' => {
            if item.splits.len() > 0 {
                let ghost sv = item.splits.deep_view();
                let mut last = item.splits.pop().unwrap();
                last.number_of_the_check = rem.to_owned();
                item.splits.push(last);
                proof {
                    assert(item.splits.deep_view() =~= sv.update(
                        sv.len() - 1,
                        SplitView { number_of_the_check: rem@, ..sv[sv.len() - 1] },
                    ));
                }
            } else {
                item.number_of_the_check = rem.to_owned();
            }
            Ok(())
        },
        'S' => {
            let ghost sv = item.splits.deep_view();
            let mut sp = QifSplit::default();
            sp.category = rem.to_owned();
            item.splits.push(sp);
            proof {
                assert(item.splits.deep_view() =~= sv.push(
                    SplitView { category: rem@, ..model::init_split() },
                ));
            }
            Ok(())
        },
        'E' => {
            if item.splits.len() == 0 {
                Err(QifParsingError::new("There should be a split item here"))
            } else {
                let ghost sv = item.splits.deep_view();
                let mut last = item.splits.pop().unwrap();
                last.memo = rem.to_owned();
                item.splits.push(last);
                proof {
                    assert(item.splits.deep_view() =~= sv.update(
                        sv.len() - 1,
                        SplitView { memo: rem@, ..sv[sv.len() - 1] },
                    ));
                }
                Ok(())
            }
        },
        '$' => {
            if item.splits.len() == 0 {
                Err(QifParsingError::new("There should be a split item here"))
            } else {
                match parse_number(rem) {
                    Ok(a) => {
                        let ghost sv = item.splits.deep_view();
                        let mut last = item.splits.pop().unwrap();
                        last.amount = a;
                        item.splits.push(last);
                        proof {
                            assert(item.splits.deep_view() =~= sv.update(
                                sv.len() - 1,
                                SplitView {
                                    amount: model::norm_num(line@.skip(1)),
                                    ..sv[sv.len() - 1]
                                },
                            ));
                        }
                        Ok(())
                    },
                    Err(e) => Err(e),
                }
            }
        },
        _ => Ok(()),
    }
}

/// Routes one line to a field of the open investment entry by its leading
/// tag character, as [`model::dispatch_inv`] describes. On an error the
/// entry is left untouched: a field is only ever assigned after its value
/// has normalized successfully.
fn parse_investment(line: &str, item: &mut QifInvestment, date_format: &str) -> (r: Result<
    (),
    QifParsingError,
>)
    ensures
        r is Ok <==> model::dispatch_inv(old(item)@, line@, date_format@) is Ok,
        r is Ok ==> final(item)@ == model::dispatch_inv(old(item)@, line@, date_format@)->Ok_0,
        r matches Err(e) ==> e.details@ == model::dispatch_inv(
            old(item)@,
            line@,
            date_format@,
        )->Err_0,
        r is Err ==> *final(item) == *old(item),
{
    let len = line.unicode_len();
    if len == 0 {
        return Ok(());
    }
    let tag = line.get_char(0);
    let rem = line.substring_char(1, len);
    proof {
        assert(rem@ =~= line@.skip(1));
    }
    match tag {
        'T' | 'U' => {
            match parse_number(rem) {
                Ok(a) => {
                    item.amount = a;
                    Ok(())
                },
                Err(e) => Err(e),
            }
        },
        'D' => {
            match date::parse_date(rem, date_format) {
                Ok(d) => {
                    item.date = d;
                    Ok(())
                },
                Err(e) => Err(e),
            }
        },
        'C' => {
            item.cleared_status = rem.to_owned();
            Ok(())
        },
        'M' => {
            item.memo = rem.to_owned();
            Ok(())
        },
        'N' => {
            item.action = rem.to_owned();
            Ok(())
        },
        'Y' => {
            item.security_name = rem.to_owned();
            Ok(())
        },
        'I' => {
            match parse_number(rem) {
                Ok(a) => {
                    item.price = a;
                    Ok(())
                },
                Err(e) => Err(e),
            }
        },
        'Q' => {
            match parse_number(rem) {
                Ok(a) => {
                    item.quantity = a;
                    Ok(())
                },
                Err(e) => Err(e),
            }
        },
        _ => Ok(()),
    }
}

/// The running parse state assembled from the parser's local variables.
spec fn live_state(
    file_type: Seq<char>,
    transactions: Seq<model::TransactionView>,
    investments: Seq<model::InvestmentView>,
    current_transaction: TransactionView,
    current_investment: model::InvestmentView,
    investment_mode: bool,
    transaction_touched: bool,
    investment_touched: bool,
) -> model::ParseState {
    model::ParseState {
        file_type,
        transactions,
        investments,
        current_transaction,
        current_investment,
        investment_mode,
        transaction_touched,
        investment_touched,
    }
}

/// Whether the line's leading character is a transaction tag.
fn touches_transaction_line(line: &str) -> (r: bool)
    ensures
        r == model::touches_transaction(line@),
{
    if line.unicode_len() == 0 {
        return false;
    }
    let c = line.get_char(0);
    c == 'T' || c == 'U' || c == 'P' || c == 'L' || c == 'D' || c == 'C' || c == 'M' || c == 'A'
        || c == 'N' || c == 'S' || c == 'E' || c == '$'
}

/// Whether the line's leading character is an investment tag.
fn touches_investment_line(line: &str) -> (r: bool)
    ensures
        r == model::touches_investment(line@),
{
    if line.unicode_len() == 0 {
        return false;
    }
    let c = line.get_char(0);
    c == 'T' || c == 'U' || c == 'D' || c == 'C' || c == 'M' || c == 'N' || c == 'Y' || c == 'I'
        || c == 'Q'
}

/// Parses the text of a QIF file into a document.
///
/// `date_format` is the strftime-style pattern describing the field order
/// of the file's dates; the file itself does not say which order it uses.
/// The result is the document that [`model::spec_parse`] assigns to the
/// input, or the first error met: an unparsable amount, an unparsable or
/// calendar-invalid date, or a split-detail line with no open split. A
/// terminator line commits the open record only if some tag line has
/// touched it since the last commit, so stray terminators add no empty
/// records. If the last line of the input is not a terminator, the record
/// still open at the end is not part of the document.
pub fn parse(qif_content: &str, date_format: &str) -> (r: Result<qif::Qif, QifParsingError>)
    ensures
        r is Ok <==> model::spec_parse(qif_content@, date_format@) is Ok,
        r matches Ok(q) ==> q@ == model::spec_parse(qif_content@, date_format@)->Ok_0,
        r matches Err(e) ==> e.details@ == model::spec_parse(qif_content@, date_format@)->Err_0,
{
    let mut results: Vec<QifTransaction> = Vec::new();
    let mut investments: Vec<QifInvestment> = Vec::new();
    let mut file_type: String = String::new();
    let mut current_item = QifTransaction::default();
    let mut current_investment = QifInvestment::default();
    let mut is_investment = false;
    let mut transaction_touched = false;
    let mut investment_touched = false;
    let lines = text::split_lines(qif_content);
    let ghost all_lines = text::spec_lines(qif_content@);
    let ghost fmt = date_format@;
    let n = lines.len();
    proof {
        assert(results.deep_view() =~= Seq::<model::TransactionView>::empty());
        assert(investments.deep_view() =~= Seq::<model::InvestmentView>::empty());
        assert(all_lines.skip(0) =~= all_lines);
    }
    let mut idx: usize = 0;
    while idx < n
        invariant
            0 <= idx <= n,
            n == lines@.len(),
            lines.deep_view() == all_lines,
            all_lines == text::spec_lines(qif_content@),
            fmt == date_format@,
            model::run_lines(model::init_state(), all_lines, fmt) == model::run_lines(
                live_state(
                    file_type@,
                    results.deep_view(),
                    investments.deep_view(),
                    current_item@,
                    current_investment@,
                    is_investment,
                    transaction_touched,
                    investment_touched,
                ),
                all_lines.skip(idx as int),
                fmt,
            ),
        decreases n - idx,
    {
        let ghost st0 = live_state(
            file_type@,
            results.deep_view(),
            investments.deep_view(),
            current_item@,
            current_investment@,
            is_investment,
            transaction_touched,
            investment_touched,
        );
        let line: &str = lines[idx];
        proof {
            assert(line@ == all_lines[idx as int]);
            model::lemma_run_lines_step(st0, all_lines, idx as int, fmt);
        }
        if text::str_has_prefix(line, "!Type:Invst") {
            is_investment = true;
        }
        if text::str_has_prefix(line, "!Type") {
            let llen = line.unicode_len();
            if llen >= 6 {
                file_type = line.substring_char(6, llen).to_owned();
            } else {
                file_type = String::new();
            }
            proof {
                assert(file_type@ =~= model::after_type_header(line@));
            }
        }
        if text::is_terminator_line(line) {
            if is_investment {
                if investment_touched {
                    let ghost prev = investments.deep_view();
                    let ghost ci = current_investment@;
                    investments.push(current_investment);
                    proof {
                        assert(investments.deep_view() =~= prev.push(ci));
                    }
                    current_item = QifTransaction::default();
                    current_investment = QifInvestment::default();
                    transaction_touched = false;
                    investment_touched = false;
                }
            } else {
                if transaction_touched {
                    let ghost prev = results.deep_view();
                    let ghost ct = current_item@;
                    results.push(current_item);
                    proof {
                        assert(results.deep_view() =~= prev.push(ct));
                    }
                    current_item = QifTransaction::default();
                    current_investment = QifInvestment::default();
                    transaction_touched = false;
                    investment_touched = false;
                }
            }
        }
        proof {
            assert(live_state(
                file_type@,
                results.deep_view(),
                investments.deep_view(),
                current_item@,
                current_investment@,
                is_investment,
                transaction_touched,
                investment_touched,
            ) == model::apply_headers(st0, line@));
        }
        let step_result = if is_investment {
            parse_investment(line, &mut current_investment, date_format)
        } else {
            parse_line(line, &mut current_item, date_format)
        };
        match step_result {
            Ok(()) => {},
            Err(e) => {
                proof {
                    assert(model::spec_step(st0, line@, fmt) == Err::<model::ParseState, Seq<char>>(
                        e.details@,
                    ));
                }
                return Err(e);
            },
        }
        if is_investment {
            if touches_investment_line(line) {
                investment_touched = true;
            }
        } else {
            if touches_transaction_line(line) {
                transaction_touched = true;
            }
        }
        proof {
            assert(model::spec_step(st0, line@, fmt) == Ok::<model::ParseState, Seq<char>>(
                live_state(
                    file_type@,
                    results.deep_view(),
                    investments.deep_view(),
                    current_item@,
                    current_investment@,
                    is_investment,
                    transaction_touched,
                    investment_touched,
                ),
            ));
        }
        idx = idx + 1;
    }
    proof {
        assert(all_lines.skip(n as int) =~= Seq::<Seq<char>>::empty());
    }
    let q = qif::Qif { file_type, transactions: results, investments };
    Ok(q)
}

} // verus!
