//! General properties of the parsing engine, stated and proved against the
//! model in [`crate::model`]. The top-level [`crate::parse`] promises that
//! its result equals [`crate::model::spec_parse`] on its inputs, so each
//! property here carries over to every run of the executable parser.

use crate::model::InvestmentView;
use crate::model::ParseState;
use crate::model::QifView;
use crate::model::SplitView;
use crate::model::TransactionView;
use crate::model::amount_ok;
use crate::model::dispatch_inv;
use crate::model::dispatch_tx;
use crate::model::init_investment;
use crate::model::init_transaction;
use crate::model::norm_num;
use crate::model::run_lines;
use crate::model::spec_parse;
use crate::model::spec_step;
use crate::model::split_err_msg;
use crate::number::is_f64_lit;
use vstd::prelude::*;

verus! {

/// The tag dispatcher folded over several lines of one record, stopping at
/// the first error; used to state properties of whole line groups.
pub open spec fn dispatch_all(tx: TransactionView, lines: Seq<Seq<char>>, fmt: Seq<char>) -> Result<
    TransactionView,
    Seq<char>,
>
    decreases lines.len(),
{
    if lines.len() == 0 {
        Ok(tx)
    } else {
        match dispatch_tx(tx, lines[0], fmt) {
            Ok(t) => dispatch_all(t, lines.drop_first(), fmt),
            Err(m) => Err(m),
        }
    }
}

/// A transaction block with two `S`/`E`/`$` triples accumulates two
/// independent splits, in file order: each split carries its own category,
/// memo and amount, the rest of the transaction is untouched, and neither
/// triple disturbs the other's split.
pub proof fn lemma_two_split_triples(
    tx: TransactionView,
    fmt: Seq<char>,
    c1: Seq<char>,
    m1: Seq<char>,
    a1: Seq<char>,
    c2: Seq<char>,
    m2: Seq<char>,
    a2: Seq<char>,
)
    requires
        amount_ok(a1),
        amount_ok(a2),
    ensures
        dispatch_all(
            tx,
            seq![
                seq!['S'] + c1,
                seq!['E'] + m1,
                seq!['$'] + a1,
                seq!['S'] + c2,
                seq!['E'] + m2,
                seq!['$'] + a2,
            ],
            fmt,
        ) == Ok::<TransactionView, Seq<char>>(
            TransactionView {
                splits: tx.splits.push(
                    SplitView {
                        category: c1,
                        memo: m1,
                        amount: norm_num(a1),
                        number_of_the_check: Seq::empty(),
                    },
                ).push(
                    SplitView {
                        category: c2,
                        memo: m2,
                        amount: norm_num(a2),
                        number_of_the_check: Seq::empty(),
                    },
                ),
                ..tx
            },
        ),
{
    let s1 = SplitView {
        category: c1,
        memo: m1,
        amount: norm_num(a1),
        number_of_the_check: Seq::empty(),
    };
    let s2 = SplitView {
        category: c2,
        memo: m2,
        amount: norm_num(a2),
        number_of_the_check: Seq::empty(),
    };
    let l1 = seq!['S'] + c1;
    let l2 = seq!['E'] + m1;
    let l3 = seq!['$'] + a1;
    let l4 = seq!['S'] + c2;
    let l5 = seq!['E'] + m2;
    let l6 = seq!['$'] + a2;
    let all = seq![l1, l2, l3, l4, l5, l6];
    lemma_split_triple(tx, fmt, c1, m1, a1);
    let t3 = TransactionView { splits: tx.splits.push(s1), ..tx };
    lemma_split_triple(t3, fmt, c2, m2, a2);
    let t6 = TransactionView { splits: t3.splits.push(s2), ..t3 };
    let d0 = dispatch_tx(tx, l1, fmt);
    let d1 = dispatch_tx(d0->Ok_0, l2, fmt);
    let d2 = dispatch_tx(d1->Ok_0, l3, fmt);
    assert(d2->Ok_0 == t3);
    assert(dispatch_stretch(d2->Ok_0, all, 3, 3, fmt) == Ok::<TransactionView, Seq<char>>(t3));
    assert(dispatch_stretch(d1->Ok_0, all, 2, 3, fmt) == Ok::<TransactionView, Seq<char>>(t3));
    assert(dispatch_stretch(d0->Ok_0, all, 1, 3, fmt) == Ok::<TransactionView, Seq<char>>(t3));
    assert(dispatch_stretch(tx, all, 0, 3, fmt) == Ok::<TransactionView, Seq<char>>(t3));
    let d3 = dispatch_tx(t3, l4, fmt);
    let d4 = dispatch_tx(d3->Ok_0, l5, fmt);
    let d5 = dispatch_tx(d4->Ok_0, l6, fmt);
    assert(d5->Ok_0 == t6);
    assert(dispatch_stretch(d5->Ok_0, all, 6, 6, fmt) == Ok::<TransactionView, Seq<char>>(t6));
    assert(dispatch_stretch(d4->Ok_0, all, 5, 6, fmt) == Ok::<TransactionView, Seq<char>>(t6));
    assert(dispatch_stretch(d3->Ok_0, all, 4, 6, fmt) == Ok::<TransactionView, Seq<char>>(t6));
    assert(dispatch_stretch(t3, all, 3, 6, fmt) == Ok::<TransactionView, Seq<char>>(t6));
    lemma_dispatch_all_concat(tx, fmt, all, 0, 3, t3);
    lemma_dispatch_all_concat(t3, fmt, all, 3, 6, t6);
    assert(all.skip(0) =~= all);
    assert(all.skip(6) =~= Seq::<Seq<char>>::empty());
}

/// One `S`/`E`/`$` triple appends one fully formed split.
proof fn lemma_split_triple(
    tx: TransactionView,
    fmt: Seq<char>,
    c: Seq<char>,
    m: Seq<char>,
    a: Seq<char>,
)
    requires
        amount_ok(a),
    ensures
        ({
            let s = SplitView {
                category: c,
                memo: m,
                amount: norm_num(a),
                number_of_the_check: Seq::empty(),
            };
            let t1 = dispatch_tx(tx, seq!['S'] + c, fmt);
            let t2 = dispatch_tx(t1->Ok_0, seq!['E'] + m, fmt);
            let t3 = dispatch_tx(t2->Ok_0, seq!['$'] + a, fmt);
            t1 is Ok && t2 is Ok && t3 is Ok && t3->Ok_0 == TransactionView {
                splits: tx.splits.push(s),
                ..tx
            }
        }),
{
    let s0 = SplitView {
        category: c,
        memo: Seq::empty(),
        amount: "0"@,
        number_of_the_check: Seq::empty(),
    };
    let s1 = SplitView { memo: m, ..s0 };
    let s = SplitView {
        category: c,
        memo: m,
        amount: norm_num(a),
        number_of_the_check: Seq::empty(),
    };
    assert((seq!['S'] + c).skip(1) =~= c);
    assert((seq!['E'] + m).skip(1) =~= m);
    assert((seq!['$'] + a).skip(1) =~= a);
    let p = tx.splits;
    let t1 = dispatch_tx(tx, seq!['S'] + c, fmt);
    assert(t1 == Ok::<TransactionView, Seq<char>>(TransactionView { splits: p.push(s0), ..tx }));
    assert(p.push(s0).update(p.len() as int, s1) =~= p.push(s1));
    assert(p.push(s1).update(p.len() as int, s) =~= p.push(s));
}

/// Advancing `dispatch_all` over a middle stretch `[i, j)` of the lines,
/// given the state the stretch ends in.
proof fn lemma_dispatch_all_concat(
    tx: TransactionView,
    fmt: Seq<char>,
    lines: Seq<Seq<char>>,
    i: int,
    j: int,
    t: TransactionView,
)
    requires
        0 <= i <= j <= lines.len(),
        dispatch_stretch(tx, lines, i, j, fmt) == Ok::<TransactionView, Seq<char>>(t),
    ensures
        dispatch_all(tx, lines.skip(i), fmt) == dispatch_all(t, lines.skip(j), fmt),
    decreases j - i,
{
    if i == j {
    } else {
        let m = dispatch_tx(tx, lines[i], fmt);
        assert(lines.skip(i)[0] == lines[i]);
        assert(lines.skip(i).drop_first() =~= lines.skip(i + 1));
        lemma_dispatch_all_concat(m->Ok_0, fmt, lines, i + 1, j, t);
    }
}

/// The dispatcher folded over lines `[i, j)`, stopping at the first error.
spec fn dispatch_stretch(
    tx: TransactionView,
    lines: Seq<Seq<char>>,
    i: int,
    j: int,
    fmt: Seq<char>,
) -> Result<TransactionView, Seq<char>>
    recommends
        0 <= i <= j <= lines.len(),
    decreases j - i,
{
    if i >= j {
        Ok(tx)
    } else {
        match dispatch_tx(tx, lines[i], fmt) {
            Ok(t) => dispatch_stretch(t, lines, i + 1, j, fmt),
            Err(m) => Err(m),
        }
    }
}

/// An `N` line while a split is open sets the check number of the most
/// recently opened split and changes nothing else: earlier splits and the
/// transaction's own check number keep their values.
pub proof fn lemma_check_number_goes_to_last_split(
    tx: TransactionView,
    fmt: Seq<char>,
    num: Seq<char>,
)
    requires
        tx.splits.len() > 0,
    ensures
        dispatch_tx(tx, seq!['N'] + num, fmt) == Ok::<TransactionView, Seq<char>>(
            TransactionView {
                splits: tx.splits.update(
                    tx.splits.len() - 1,
                    SplitView {
                        number_of_the_check: num,
                        ..tx.splits[tx.splits.len() - 1]
                    },
                ),
                ..tx
            },
        ),
{
    assert((seq!['N'] + num).skip(1) =~= num);
}

/// An `E` or `$` line with no split open in the current transaction fails,
/// and no later line is examined: the whole remaining run yields that
/// error, whatever lines follow.
pub proof fn lemma_split_detail_without_split_stops(
    st: ParseState,
    fmt: Seq<char>,
    line: Seq<char>,
    rest: Seq<Seq<char>>,
)
    requires
        !st.investment_mode,
        st.current_transaction.splits.len() == 0,
        line.len() > 0,
        line[0] == 'E' || line[0] == '$',
    ensures
        run_lines(st, seq![line] + rest, fmt) == Err::<ParseState, Seq<char>>(split_err_msg()),
{
    reveal_strlit("!Type:Invst");
    reveal_strlit("!Type");
    assert(!crate::text::has_prefix(line, "!Type:Invst"@)) by {
        assert("!Type:Invst"@[0] == '!');
    }
    assert(!crate::text::has_prefix(line, "!Type"@)) by {
        assert("!Type"@[0] == '!');
    }
    assert((seq![line] + rest)[0] == line);
}

/// Every amount field of a split is accepted number text.
pub open spec fn wf_split(s: SplitView) -> bool {
    is_f64_lit(s.amount)
}

/// Every amount field of a transaction and of its splits is accepted
/// number text.
pub open spec fn wf_transaction(t: TransactionView) -> bool {
    &&& is_f64_lit(t.amount)
    &&& forall|i: int| 0 <= i < t.splits.len() ==> wf_split(#[trigger] t.splits[i])
}

/// Every amount field of an investment entry is accepted number text.
pub open spec fn wf_investment(v: InvestmentView) -> bool {
    &&& is_f64_lit(v.amount)
    &&& is_f64_lit(v.price)
    &&& is_f64_lit(v.quantity)
    &&& is_f64_lit(v.commission_cost)
    &&& is_f64_lit(v.amount_transferred)
}

/// Every amount field anywhere in a document is accepted number text.
pub open spec fn wf_doc(d: QifView) -> bool {
    &&& forall|i: int| 0 <= i < d.transactions.len() ==> wf_transaction(
        #[trigger] d.transactions[i],
    )
    &&& forall|i: int| 0 <= i < d.investments.len() ==> wf_investment(#[trigger] d.investments[i])
}

/// Every amount field of a running state is accepted number text.
spec fn wf_state(st: ParseState) -> bool {
    &&& forall|i: int| 0 <= i < st.transactions.len() ==> wf_transaction(
        #[trigger] st.transactions[i],
    )
    &&& forall|i: int| 0 <= i < st.investments.len() ==> wf_investment(#[trigger] st.investments[i])
    &&& wf_transaction(st.current_transaction)
    &&& wf_investment(st.current_investment)
}

/// The default amount text is accepted by the number grammar.
proof fn lemma_zero_text_is_float()
    ensures
        is_f64_lit("0"@),
{
    reveal_strlit("0");
    let t = "0"@;
    assert(t.len() == 1 && t[0] == '0');
    assert(crate::number::after_sign(t) == t);
    assert(t.skip(1).len() == 0);
    assert(crate::number::find_exp(t.skip(1)) == -1);
    assert(crate::number::find_exp(t) == -1);
    assert(crate::number::find_dot(t.skip(1)) == -1);
    assert(crate::number::find_dot(t) == -1);
    assert(crate::number::all_digits(t));
}

/// The tag dispatcher keeps a transaction's amounts well formed: a new
/// amount only ever comes from a successful normalization, and a new split
/// starts at the default zero text.
proof fn lemma_dispatch_tx_preserves_wf(tx: TransactionView, line: Seq<char>, fmt: Seq<char>)
    requires
        wf_transaction(tx),
        dispatch_tx(tx, line, fmt) is Ok,
    ensures
        wf_transaction(dispatch_tx(tx, line, fmt)->Ok_0),
{
    lemma_zero_text_is_float();
    let r = dispatch_tx(tx, line, fmt)->Ok_0;
    if line.len() > 0 {
        let tag = line[0];
        let n = tx.splits.len() as int;
        if tag == 'N' && n > 0 {
            assert forall|i: int| 0 <= i < r.splits.len() implies wf_split(
                #[trigger] r.splits[i],
            ) by {
                assert(r.splits[i].amount == tx.splits[i].amount);
            }
        } else if tag == 'S' {
            assert forall|i: int| 0 <= i < r.splits.len() implies wf_split(
                #[trigger] r.splits[i],
            ) by {
                if i < n {
                    assert(r.splits[i] == tx.splits[i]);
                }
            }
        } else if tag == 'E' && n > 0 {
            assert forall|i: int| 0 <= i < r.splits.len() implies wf_split(
                #[trigger] r.splits[i],
            ) by {
                assert(r.splits[i].amount == tx.splits[i].amount);
            }
        } else if tag == '$' && n > 0 {
            assert forall|i: int| 0 <= i < r.splits.len() implies wf_split(
                #[trigger] r.splits[i],
            ) by {
                if i < n - 1 {
                    assert(r.splits[i] == tx.splits[i]);
                }
            }
        }
    }
}

/// The tag dispatcher keeps an investment entry's amounts well formed.
proof fn lemma_dispatch_inv_preserves_wf(iv: InvestmentView, line: Seq<char>, fmt: Seq<char>)
    requires
        wf_investment(iv),
        dispatch_inv(iv, line, fmt) is Ok,
    ensures
        wf_investment(dispatch_inv(iv, line, fmt)->Ok_0),
{
}

/// One whole step keeps every amount of the state well formed.
proof fn lemma_step_preserves_wf(st: ParseState, line: Seq<char>, fmt: Seq<char>)
    requires
        wf_state(st),
        crate::model::spec_step(st, line, fmt) is Ok,
    ensures
        wf_state(crate::model::spec_step(st, line, fmt)->Ok_0),
{
    lemma_zero_text_is_float();
    let st3 = crate::model::apply_headers(st, line);
    assert(wf_state(st3)) by {
        if crate::text::is_terminator(line) {
            assert(forall|i: int|
                0 <= i < st3.transactions.len() ==> wf_transaction(#[trigger] st3.transactions[i]));
            assert(forall|i: int|
                0 <= i < st3.investments.len() ==> wf_investment(#[trigger] st3.investments[i]));
        }
    }
    if st3.investment_mode {
        lemma_dispatch_inv_preserves_wf(st3.current_investment, line, fmt);
    } else {
        lemma_dispatch_tx_preserves_wf(st3.current_transaction, line, fmt);
    }
}

/// Folding any lines from a well-formed state ends, on success, in a
/// well-formed state.
proof fn lemma_run_preserves_wf(st: ParseState, lines: Seq<Seq<char>>, fmt: Seq<char>)
    requires
        wf_state(st),
        run_lines(st, lines, fmt) is Ok,
    ensures
        wf_state(run_lines(st, lines, fmt)->Ok_0),
    decreases lines.len(),
{
    if lines.len() > 0 {
        lemma_step_preserves_wf(st, lines[0], fmt);
        lemma_run_preserves_wf(
            crate::model::spec_step(st, lines[0], fmt)->Ok_0,
            lines.drop_first(),
            fmt,
        );
    }
}

/// Amounts are always well formed after normalization: in any document the
/// parser returns, every amount field of every transaction, split and
/// investment entry is text the `f64` grammar accepts, so converting it to
/// a number cannot fail.
pub proof fn lemma_parse_amounts_well_formed(content: Seq<char>, fmt: Seq<char>, d: QifView)
    requires
        spec_parse(content, fmt) == Ok::<QifView, Seq<char>>(d),
    ensures
        wf_doc(d),
{
    lemma_zero_text_is_float();
    assert(wf_state(crate::model::init_state()));
    lemma_run_preserves_wf(crate::model::init_state(), crate::text::spec_lines(content), fmt);
}

/// A terminator line never fails, and commits exactly when the open
/// accumulator of the current mode has been touched: the open record is
/// appended and both accumulators start fresh and untouched; a terminator
/// that closes an untouched accumulator leaves the state exactly as it
/// was, so no empty default record ever enters the document.
pub proof fn lemma_terminator_commits_iff_touched(st: ParseState, fmt: Seq<char>)
    ensures
        spec_step(st, seq!['^'], fmt) is Ok,
        ({
            let r = spec_step(st, seq!['^'], fmt)->Ok_0;
            if st.investment_mode {
                if st.investment_touched {
                    r == ParseState {
                        investments: st.investments.push(st.current_investment),
                        current_transaction: init_transaction(),
                        current_investment: init_investment(),
                        transaction_touched: false,
                        investment_touched: false,
                        ..st
                    }
                } else {
                    r == st
                }
            } else {
                if st.transaction_touched {
                    r == ParseState {
                        transactions: st.transactions.push(st.current_transaction),
                        current_transaction: init_transaction(),
                        current_investment: init_investment(),
                        transaction_touched: false,
                        investment_touched: false,
                        ..st
                    }
                } else {
                    r == st
                }
            }
        }),
{
    reveal_strlit("!Type:Invst");
    reveal_strlit("!Type");
    let line = seq!['^'];
    assert(!crate::text::has_prefix(line, "!Type:Invst"@));
    assert(!crate::text::has_prefix(line, "!Type"@));
    assert(crate::text::is_terminator(line));
}

/// No line but a terminator ever adds a record: a successful step on any
/// other line leaves both collections of the document unchanged.
pub proof fn lemma_only_terminator_commits(st: ParseState, line: Seq<char>, fmt: Seq<char>)
    requires
        !crate::text::is_terminator(line),
        spec_step(st, line, fmt) is Ok,
    ensures
        spec_step(st, line, fmt)->Ok_0.transactions == st.transactions,
        spec_step(st, line, fmt)->Ok_0.investments == st.investments,
{
}

/// Both reserved fields of an investment entry hold the default zero text.
pub open spec fn reserved_fields_zero(v: InvestmentView) -> bool {
    v.commission_cost == "0"@ && v.amount_transferred == "0"@
}

/// Every investment entry of a running state has its reserved fields at
/// their defaults.
spec fn reserved_zero_state(st: ParseState) -> bool {
    &&& forall|i: int| 0 <= i < st.investments.len() ==> reserved_fields_zero(
        #[trigger] st.investments[i],
    )
    &&& reserved_fields_zero(st.current_investment)
}

/// One whole step leaves every reserved investment field at its default:
/// no tag of the format fills them.
proof fn lemma_step_keeps_reserved(st: ParseState, line: Seq<char>, fmt: Seq<char>)
    requires
        reserved_zero_state(st),
        crate::model::spec_step(st, line, fmt) is Ok,
    ensures
        reserved_zero_state(crate::model::spec_step(st, line, fmt)->Ok_0),
{
}

/// Folding any lines from a state whose reserved fields are at their
/// defaults ends, on success, in such a state again.
proof fn lemma_run_keeps_reserved(st: ParseState, lines: Seq<Seq<char>>, fmt: Seq<char>)
    requires
        reserved_zero_state(st),
        run_lines(st, lines, fmt) is Ok,
    ensures
        reserved_zero_state(run_lines(st, lines, fmt)->Ok_0),
    decreases lines.len(),
{
    if lines.len() > 0 {
        lemma_step_keeps_reserved(st, lines[0], fmt);
        lemma_run_keeps_reserved(
            crate::model::spec_step(st, lines[0], fmt)->Ok_0,
            lines.drop_first(),
            fmt,
        );
    }
}

/// The two reserved investment fields are never populated: in any document
/// the parser returns, every investment entry still carries the default
/// zero text in `commission_cost` and `amount_transferred`.
pub proof fn lemma_reserved_investment_fields_never_set(
    content: Seq<char>,
    fmt: Seq<char>,
    d: QifView,
)
    requires
        spec_parse(content, fmt) == Ok::<QifView, Seq<char>>(d),
    ensures
        forall|i: int| 0 <= i < d.investments.len() ==> reserved_fields_zero(
            #[trigger] d.investments[i],
        ),
{
    assert(reserved_zero_state(crate::model::init_state()));
    lemma_run_keeps_reserved(crate::model::init_state(), crate::text::spec_lines(content), fmt);
}

/// Parsing is a function of the input text and the date pattern alone:
/// any two documents obtained from the same input and pattern are equal,
/// so running the parser twice yields structurally identical results.
pub proof fn lemma_parse_deterministic(content: Seq<char>, fmt: Seq<char>, d1: QifView, d2: QifView)
    requires
        spec_parse(content, fmt) == Ok::<QifView, Seq<char>>(d1),
        spec_parse(content, fmt) == Ok::<QifView, Seq<char>>(d2),
    ensures
        d1 == d2,
{
}

} // verus!
