//! A transaction record: a dated amount with a payee, a category, free-form
//! memo and address text, and possibly a list of splits.

use crate::model::TransactionView;
use crate::model;
use crate::split::QifSplit;
use vstd::prelude::*;
use vstd::string::StringExecFns;

verus! {

/// One transaction of the document. The date, once set, is in canonical
/// `YYYY-MM-DD` form; amount fields hold the normalized number text.
#[derive(Debug, Clone, PartialEq)]
pub struct QifTransaction {
    pub date: String,
    pub amount: String,
    pub memo: String,
    pub payee: String,
    pub category: String,
    pub cleared_status: String,
    pub address: Vec<String>,
    pub splits: Vec<QifSplit>,
    pub number_of_the_check: String,
}

impl View for QifTransaction {
    type V = TransactionView;

    open spec fn view(&self) -> TransactionView {
        TransactionView {
            date: self.date@,
            amount: self.amount@,
            memo: self.memo@,
            payee: self.payee@,
            category: self.category@,
            cleared_status: self.cleared_status@,
            address: self.address.deep_view(),
            splits: self.splits.deep_view(),
            number_of_the_check: self.number_of_the_check@,
        }
    }
}

impl DeepView for QifTransaction {
    type V = TransactionView;

    open spec fn deep_view(&self) -> TransactionView {
        self.view()
    }
}

impl Default for QifTransaction {
    /// A fresh transaction accumulator.
    fn default() -> (t: Self)
        ensures
            t@ == model::init_transaction(),
    {
        let t = QifTransaction {
            date: String::new(),
            amount: String::from_str("0"),
            memo: String::new(),
            payee: String::new(),
            category: String::new(),
            cleared_status: String::new(),
            address: Vec::new(),
            splits: Vec::new(),
            number_of_the_check: String::new(),
        };
        proof {
            assert(t.address.deep_view() =~= Seq::<Seq<char>>::empty());
            assert(t.splits.deep_view() =~= Seq::<crate::model::SplitView>::empty());
        }
        t
    }
}

} // verus!
