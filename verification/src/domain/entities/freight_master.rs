use crate::domain::value_objects::freight_code::{check_master_code, is_master_code};
use crate::domain::value_objects::{Amount, PatternName, TransactionDate};
use crate::error::{outcome, DomainError, DomainErrorView, ValidationError, ValidationErrorView};
use crate::text::chars_of;
use vstd::prelude::*;

verus! {

/// One entry of the freight master: the price per kilogram that a freight code stands
/// for, and from when to when it is valid.
#[derive(Debug, Clone)]
pub struct FreightMaster {
    pub freight_code: String,
    pub pattern_name: PatternName,
    pub kg_unit_price: Amount,
    pub valid_from: TransactionDate,
    pub valid_to: Option<TransactionDate>,
}

/// A freight master entry as plain values.
pub struct FreightMasterView {
    pub freight_code: Seq<char>,
    pub pattern_name: Seq<char>,
    pub kg_unit_price: int,
    pub valid_from: Seq<char>,
    pub valid_to: Option<Seq<char>>,
}

impl View for FreightMaster {
    type V = FreightMasterView;

    open spec fn view(&self) -> FreightMasterView {
        FreightMasterView {
            freight_code: self.freight_code@,
            pattern_name: self.pattern_name@,
            kg_unit_price: self.kg_unit_price@,
            valid_from: self.valid_from@,
            valid_to: match self.valid_to {
                Some(date) => Some(date@),
                None => None,
            },
        }
    }
}

/// The freight master entry with these values: there is one exactly when the freight
/// code is `T` and four digits.
pub open spec fn freight_master_of(entry: FreightMasterView) -> Result<
    FreightMasterView,
    DomainErrorView,
> {
    if is_master_code(entry.freight_code) {
        Ok(entry)
    } else {
        Err(
            DomainErrorView::Validation(
                ValidationErrorView::InvalidFreightCode(entry.freight_code),
            ),
        )
    }
}

impl FreightMaster {
    /// Whether the entry is as `new` makes it: its code is `T` and four digits.
    pub open spec fn wf(&self) -> bool {
        is_master_code(self.freight_code@)
    }

    /// The entry with these values; refused unless `freight_code` is `T` and four
    /// digits, exactly as given.
    pub fn new(
        freight_code: String,
        pattern_name: PatternName,
        kg_unit_price: Amount,
        valid_from: TransactionDate,
        valid_to: Option<TransactionDate>,
    ) -> (r: Result<FreightMaster, DomainError>)
        ensures
            outcome(r) == freight_master_of(
                (FreightMaster {
                    freight_code,
                    pattern_name,
                    kg_unit_price,
                    valid_from,
                    valid_to,
                })@,
            ),
            r is Ok ==> r->Ok_0.wf(),
    {
        let chars = chars_of(freight_code.as_str());
        if !check_master_code(&chars) {
            return Err(DomainError::Validation(ValidationError::InvalidFreightCode(freight_code)));
        }
        Ok(FreightMaster { freight_code, pattern_name, kg_unit_price, valid_from, valid_to })
    }
}

} // verus!
