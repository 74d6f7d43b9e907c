//! An investment record: an action on a security, with its price, quantity
//! and total amount. The `commission_cost` and `amount_transferred` fields
//! are part of the schema but no tag of this format version fills them.

use crate::model::InvestmentView;
use crate::model;
use vstd::prelude::*;
use vstd::string::StringExecFns;

verus! {

/// One investment entry of the document. The date, once set, is in
/// canonical `YYYY-MM-DD` form; amount fields hold the normalized number
/// text.
#[derive(Debug, Clone, PartialEq)]
pub struct QifInvestment {
    pub date: String,
    pub amount: String,
    pub memo: String,
    pub cleared_status: String,
    pub action: String,
    pub security_name: String,
    pub price: String,
    pub quantity: String,
    pub commission_cost: String,
    pub amount_transferred: String,
}

impl View for QifInvestment {
    type V = InvestmentView;

    open spec fn view(&self) -> InvestmentView {
        InvestmentView {
            date: self.date@,
            amount: self.amount@,
            memo: self.memo@,
            cleared_status: self.cleared_status@,
            action: self.action@,
            security_name: self.security_name@,
            price: self.price@,
            quantity: self.quantity@,
            commission_cost: self.commission_cost@,
            amount_transferred: self.amount_transferred@,
        }
    }
}

impl DeepView for QifInvestment {
    type V = InvestmentView;

    open spec fn deep_view(&self) -> InvestmentView {
        self.view()
    }
}

impl Default for QifInvestment {
    /// A fresh investment accumulator.
    fn default() -> (v: Self)
        ensures
            v@ == model::init_investment(),
    {
        QifInvestment {
            date: String::new(),
            amount: String::from_str("0"),
            memo: String::new(),
            cleared_status: String::new(),
            action: String::new(),
            security_name: String::new(),
            price: String::from_str("0"),
            quantity: String::from_str("0"),
            commission_cost: String::from_str("0"),
            amount_transferred: String::from_str("0"),
        }
    }
}

} // verus!
