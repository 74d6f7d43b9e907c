//! The mathematical model of the parsing engine.
//!
//! Every executable piece of the parser is specified against the functions
//! here: a document is modelled as sequences of record views, and parsing a
//! document is a fold of [`spec_step`] over the lines of the input. The
//! top-level [`crate::parse`] promises that its result equals
//! [`spec_parse`] applied to the views of its arguments.

use crate::date;
use crate::number;
use crate::text;
use vstd::prelude::*;

verus! {

/// The model of one split: a sub-allocation of a transaction's amount.
pub ghost struct SplitView {
    pub category: Seq<char>,
    pub memo: Seq<char>,
    pub amount: Seq<char>,
    pub number_of_the_check: Seq<char>,
}

/// The model of one transaction record.
pub ghost struct TransactionView {
    pub date: Seq<char>,
    pub amount: Seq<char>,
    pub memo: Seq<char>,
    pub payee: Seq<char>,
    pub category: Seq<char>,
    pub cleared_status: Seq<char>,
    pub address: Seq<Seq<char>>,
    pub splits: Seq<SplitView>,
    pub number_of_the_check: Seq<char>,
}

/// The model of one investment record.
pub ghost struct InvestmentView {
    pub date: Seq<char>,
    pub amount: Seq<char>,
    pub memo: Seq<char>,
    pub cleared_status: Seq<char>,
    pub action: Seq<char>,
    pub security_name: Seq<char>,
    pub price: Seq<char>,
    pub quantity: Seq<char>,
    pub commission_cost: Seq<char>,
    pub amount_transferred: Seq<char>,
}

/// The model of a whole parsed document.
pub ghost struct QifView {
    pub file_type: Seq<char>,
    pub transactions: Seq<TransactionView>,
    pub investments: Seq<InvestmentView>,
}

/// A fresh split: empty text fields, zero amount.
pub open spec fn init_split() -> SplitView {
    SplitView {
        category: Seq::empty(),
        memo: Seq::empty(),
        amount: "0"@,
        number_of_the_check: Seq::empty(),
    }
}

/// A fresh transaction accumulator.
pub open spec fn init_transaction() -> TransactionView {
    TransactionView {
        date: Seq::empty(),
        amount: "0"@,
        memo: Seq::empty(),
        payee: Seq::empty(),
        category: Seq::empty(),
        cleared_status: Seq::empty(),
        address: Seq::empty(),
        splits: Seq::empty(),
        number_of_the_check: Seq::empty(),
    }
}

/// A fresh investment accumulator.
pub open spec fn init_investment() -> InvestmentView {
    InvestmentView {
        date: Seq::empty(),
        amount: "0"@,
        memo: Seq::empty(),
        cleared_status: Seq::empty(),
        action: Seq::empty(),
        security_name: Seq::empty(),
        price: "0"@,
        quantity: "0"@,
        commission_cost: "0"@,
        amount_transferred: "0"@,
    }
}

/// An amount remainder after normalization: surrounding whitespace trimmed,
/// thousands-separator commas removed.
pub open spec fn norm_num(rem: Seq<char>) -> Seq<char> {
    text::strip_commas(text::spec_trim(rem))
}

/// Whether an amount remainder normalizes to accepted number text.
pub open spec fn amount_ok(rem: Seq<char>) -> bool {
    number::is_f64_lit(norm_num(rem))
}

/// The message of the error returned for an unparsable amount.
pub open spec fn num_err_msg(rem: Seq<char>) -> Seq<char> {
    "Could not parse the following as a number: '"@ + text::spec_trim(rem) + "'"@
}

/// The message of the error returned for a split-detail line without an
/// open split.
pub open spec fn split_err_msg() -> Seq<char> {
    "There should be a split item here"@
}

/// One line applied to the open transaction, keyed by its leading tag.
pub open spec fn dispatch_tx(tx: TransactionView, line: Seq<char>, fmt: Seq<char>) -> Result<
    TransactionView,
    Seq<char>,
> {
    if line.len() == 0 {
        Ok(tx)
    } else {
        let tag = line[0];
        let rem = line.skip(1);
        if tag == 'T' || tag == 'U' {
            if amount_ok(rem) {
                Ok(TransactionView { amount: norm_num(rem), ..tx })
            } else {
                Err(num_err_msg(rem))
            }
        } else if tag == 'P' {
            Ok(TransactionView { payee: rem, ..tx })
        } else if tag == 'L' {
            Ok(TransactionView { category: rem, ..tx })
        } else if tag == 'D' {
            match date::chrono_norm(rem, fmt) {
                Ok(d) => Ok(TransactionView { date: d, ..tx }),
                Err(_) => Err(date::date_err_msg(rem, fmt)),
            }
        } else if tag == 'C' {
            Ok(TransactionView { cleared_status: rem, ..tx })
        } else if tag == 'M' {
            Ok(TransactionView { memo: rem, ..tx })
        } else if tag == 'A' {
            Ok(TransactionView { address: tx.address.push(rem), ..tx })
        } else if tag == 'N' {
            if tx.splits.len() > 0 {
                let last = tx.splits[tx.splits.len() - 1];
                Ok(
                    TransactionView {
                        splits: tx.splits.update(
                            tx.splits.len() - 1,
                            SplitView { number_of_the_check: rem, ..last },
                        ),
                        ..tx
                    },
                )
            } else {
                Ok(TransactionView { number_of_the_check: rem, ..tx })
            }
        } else if tag == 'S' {
            Ok(TransactionView { splits: tx.splits.push(SplitView { category: rem, ..init_split() }), ..tx })
        } else if tag == 'E' {
            if tx.splits.len() == 0 {
                Err(split_err_msg())
            } else {
                let last = tx.splits[tx.splits.len() - 1];
                Ok(
                    TransactionView {
                        splits: tx.splits.update(
                            tx.splits.len() - 1,
                            SplitView { memo: rem, ..last },
                        ),
                        ..tx
                    },
                )
            }
        } else if tag == '$' {
            if tx.splits.len() == 0 {
                Err(split_err_msg())
            } else if amount_ok(rem) {
                let last = tx.splits[tx.splits.len() - 1];
                Ok(
                    TransactionView {
                        splits: tx.splits.update(
                            tx.splits.len() - 1,
                            SplitView { amount: norm_num(rem), ..last },
                        ),
                        ..tx
                    },
                )
            } else {
                Err(num_err_msg(rem))
            }
        } else {
            Ok(tx)
        }
    }
}

/// One line applied to the open investment, keyed by its leading tag.
pub open spec fn dispatch_inv(iv: InvestmentView, line: Seq<char>, fmt: Seq<char>) -> Result<
    InvestmentView,
    Seq<char>,
> {
    if line.len() == 0 {
        Ok(iv)
    } else {
        let tag = line[0];
        let rem = line.skip(1);
        if tag == 'T' || tag == 'U' {
            if amount_ok(rem) {
                Ok(InvestmentView { amount: norm_num(rem), ..iv })
            } else {
                Err(num_err_msg(rem))
            }
        } else if tag == 'D' {
            match date::chrono_norm(rem, fmt) {
                Ok(d) => Ok(InvestmentView { date: d, ..iv }),
                Err(_) => Err(date::date_err_msg(rem, fmt)),
            }
        } else if tag == 'C' {
            Ok(InvestmentView { cleared_status: rem, ..iv })
        } else if tag == 'M' {
            Ok(InvestmentView { memo: rem, ..iv })
        } else if tag == 'N' {
            Ok(InvestmentView { action: rem, ..iv })
        } else if tag == 'Y' {
            Ok(InvestmentView { security_name: rem, ..iv })
        } else if tag == 'I' {
            if amount_ok(rem) {
                Ok(InvestmentView { price: norm_num(rem), ..iv })
            } else {
                Err(num_err_msg(rem))
            }
        } else if tag == 'Q' {
            if amount_ok(rem) {
                Ok(InvestmentView { quantity: norm_num(rem), ..iv })
            } else {
                Err(num_err_msg(rem))
            }
        } else {
            Ok(iv)
        }
    }
}

/// The running state of a parse: the document built so far, the two open
/// accumulators, the sticky mode flag, and one touched flag per
/// accumulator, set when a tag line mutates it and cleared on commit.
pub ghost struct ParseState {
    pub file_type: Seq<char>,
    pub transactions: Seq<TransactionView>,
    pub investments: Seq<InvestmentView>,
    pub current_transaction: TransactionView,
    pub current_investment: InvestmentView,
    pub investment_mode: bool,
    pub transaction_touched: bool,
    pub investment_touched: bool,
}

/// The state a parse starts from: an empty document, fresh and untouched
/// accumulators, transaction mode.
pub open spec fn init_state() -> ParseState {
    ParseState {
        file_type: Seq::empty(),
        transactions: Seq::empty(),
        investments: Seq::empty(),
        current_transaction: init_transaction(),
        current_investment: init_investment(),
        investment_mode: false,
        transaction_touched: false,
        investment_touched: false,
    }
}

/// Whether a line's leading character is a tag that mutates the open
/// transaction.
pub open spec fn touches_transaction(line: Seq<char>) -> bool {
    line.len() > 0 && (line[0] == 'T' || line[0] == 'U' || line[0] == 'P' || line[0] == 'L'
        || line[0] == 'D' || line[0] == 'C' || line[0] == 'M' || line[0] == 'A' || line[0] == 'N'
        || line[0] == 'S' || line[0] == 'E' || line[0] == '$')
}

/// Whether a line's leading character is a tag that mutates the open
/// investment entry.
pub open spec fn touches_investment(line: Seq<char>) -> bool {
    line.len() > 0 && (line[0] == 'T' || line[0] == 'U' || line[0] == 'D' || line[0] == 'C'
        || line[0] == 'M' || line[0] == 'N' || line[0] == 'Y' || line[0] == 'I' || line[0] == 'Q')
}

/// The text a type-header line carries after its fixed 6-character prefix.
pub open spec fn after_type_header(line: Seq<char>) -> Seq<char> {
    if line.len() >= 6 {
        line.skip(6)
    } else {
        Seq::empty()
    }
}

/// The header-and-terminator part of one step: the sticky mode switch, the
/// type header, and the record commit, in that order. A terminator commits
/// the accumulator of the current mode only if a tag line has touched it
/// since the last commit; an untouched accumulator is still fresh, and no
/// empty default record enters the document for it.
pub open spec fn apply_headers(st: ParseState, line: Seq<char>) -> ParseState {
    let st1 = if text::has_prefix(line, "!Type:Invst"@) {
        ParseState { investment_mode: true, ..st }
    } else {
        st
    };
    let st2 = if text::has_prefix(line, "!Type"@) {
        ParseState { file_type: after_type_header(line), ..st1 }
    } else {
        st1
    };
    let st3 = if text::is_terminator(line) {
        if st2.investment_mode {
            if st2.investment_touched {
                ParseState {
                    investments: st2.investments.push(st2.current_investment),
                    current_transaction: init_transaction(),
                    current_investment: init_investment(),
                    transaction_touched: false,
                    investment_touched: false,
                    ..st2
                }
            } else {
                st2
            }
        } else {
            if st2.transaction_touched {
                ParseState {
                    transactions: st2.transactions.push(st2.current_transaction),
                    current_transaction: init_transaction(),
                    current_investment: init_investment(),
                    transaction_touched: false,
                    investment_touched: false,
                    ..st2
                }
            } else {
                st2
            }
        }
    } else {
        st2
    };
    st3
}

/// One line applied to the whole parse state: the sticky mode switch, the
/// type header, the record terminator, then tag dispatch in the current
/// mode. Dispatch sees header and terminator lines too; their leading
/// characters match no tag, so it leaves the accumulator alone and
/// untouched.
pub open spec fn spec_step(st: ParseState, line: Seq<char>, fmt: Seq<char>) -> Result<
    ParseState,
    Seq<char>,
> {
    let st3 = apply_headers(st, line);
    if st3.investment_mode {
        match dispatch_inv(st3.current_investment, line, fmt) {
            Ok(iv) => Ok(
                ParseState {
                    current_investment: iv,
                    investment_touched: st3.investment_touched || touches_investment(line),
                    ..st3
                },
            ),
            Err(m) => Err(m),
        }
    } else {
        match dispatch_tx(st3.current_transaction, line, fmt) {
            Ok(t) => Ok(
                ParseState {
                    current_transaction: t,
                    transaction_touched: st3.transaction_touched || touches_transaction(line),
                    ..st3
                },
            ),
            Err(m) => Err(m),
        }
    }
}

/// The fold of [`spec_step`] over a sequence of lines, stopping at the
/// first error.
pub open spec fn run_lines(st: ParseState, lines: Seq<Seq<char>>, fmt: Seq<char>) -> Result<
    ParseState,
    Seq<char>,
>
    decreases lines.len(),
{
    if lines.len() == 0 {
        Ok(st)
    } else {
        match spec_step(st, lines[0], fmt) {
            Ok(st2) => run_lines(st2, lines.drop_first(), fmt),
            Err(m) => Err(m),
        }
    }
}

/// The document a finished state denotes. An accumulator still open when
/// the input ends is dropped, as the format's missing final terminator
/// leaves it uncommitted.
pub open spec fn state_doc(st: ParseState) -> QifView {
    QifView { file_type: st.file_type, transactions: st.transactions, investments: st.investments }
}

/// What parsing a whole document yields: the document assembled by folding
/// the tag dispatcher over the input's lines, or the first error message.
pub open spec fn spec_parse(content: Seq<char>, fmt: Seq<char>) -> Result<QifView, Seq<char>> {
    match run_lines(init_state(), text::spec_lines(content), fmt) {
        Ok(st) => Ok(state_doc(st)),
        Err(m) => Err(m),
    }
}

/// Advancing the fold by one line: running the tail of the lines from the
/// stepped state.
pub proof fn lemma_run_lines_step(st: ParseState, lines: Seq<Seq<char>>, i: int, fmt: Seq<char>)
    requires
        0 <= i < lines.len(),
    ensures
        run_lines(st, lines.skip(i), fmt) == match spec_step(st, lines[i], fmt) {
            Ok(st2) => run_lines(st2, lines.skip(i + 1), fmt),
            Err(m) => Err(m),
        },
{
    assert(lines.skip(i)[0] == lines[i]);
    assert(lines.skip(i).drop_first() =~= lines.skip(i + 1));
}

} // verus!
