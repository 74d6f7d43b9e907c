//! The parsed document: a file type tag and the ordered collections of
//! transactions and investment entries, in file order.

use crate::investment::QifInvestment;
use crate::model::QifView;
use crate::transaction::QifTransaction;
use vstd::prelude::*;

verus! {

/// A parsed QIF document.
///
/// `file_type` is copied verbatim from the last generic type-header line
/// (`Bank`, `Invst`, `CCard`, ...); the two collections keep the records in
/// the order their terminator lines appeared.
#[derive(Debug, Clone, PartialEq)]
pub struct Qif {
    pub file_type: String,
    pub transactions: Vec<QifTransaction>,
    pub investments: Vec<QifInvestment>,
}

impl View for Qif {
    type V = QifView;

    open spec fn view(&self) -> QifView {
        QifView {
            file_type: self.file_type@,
            transactions: self.transactions.deep_view(),
            investments: self.investments.deep_view(),
        }
    }
}

impl DeepView for Qif {
    type V = QifView;

    open spec fn deep_view(&self) -> QifView {
        self.view()
    }
}

} // verus!
