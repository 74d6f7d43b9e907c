//! A split: a portion of one transaction's amount, allocated to its own
//! category. A split belongs to exactly one transaction and is built in
//! place by the split-detail tag lines that follow its opening `S` line.

use crate::model::SplitView;
use crate::model;
use vstd::prelude::*;
use vstd::string::StringExecFns;

verus! {

/// One sub-allocation of a transaction. Amount fields hold the normalized
/// number text: whitespace-trimmed, comma-free, accepted by the `f64`
/// grammar.
#[derive(Debug, Clone, PartialEq)]
pub struct QifSplit {
    pub category: String,
    pub memo: String,
    pub amount: String,
    pub number_of_the_check: String,
}

impl View for QifSplit {
    type V = SplitView;

    open spec fn view(&self) -> SplitView {
        SplitView {
            category: self.category@,
            memo: self.memo@,
            amount: self.amount@,
            number_of_the_check: self.number_of_the_check@,
        }
    }
}

impl DeepView for QifSplit {
    type V = SplitView;

    open spec fn deep_view(&self) -> SplitView {
        self.view()
    }
}

impl Default for QifSplit {
    /// A fresh split: empty text fields, zero amount.
    fn default() -> (s: Self)
        ensures
            s@ == model::init_split(),
    {
        QifSplit {
            category: String::new(),
            memo: String::new(),
            amount: String::from_str("0"),
            number_of_the_check: String::new(),
        }
    }
}

} // verus!
