//! From the cells of one row, as trimmed text, to the record that the row stands for.
//!
//! A row that lacks what identifies it is skipped; a row that holds a cell which
//! cannot be read is an error.

use crate::domain::entities::formula_entry::FormulaEntryView;
use crate::domain::entities::freight_master::{freight_master_of, FreightMasterView};
use crate::domain::entities::inventory_transaction::InventoryTransactionView;
use crate::domain::entities::production::ProductionView;
use crate::domain::entities::purchase::PurchaseView;
use crate::domain::entities::{
    FormulaEntry, FreightMaster, InventoryTransaction, Production, Purchase,
};
use crate::domain::value_objects::amount::amount_of;
use crate::domain::value_objects::consumption_ratio::consumption_ratio_of;
use crate::domain::value_objects::freight_code::{freight_code_of, FreightCodeView};
use crate::domain::value_objects::pattern_name::pattern_name_of;
use crate::domain::value_objects::product_code::product_code_of;
use crate::domain::value_objects::quantity::quantity_of;
use crate::domain::value_objects::transaction_date::transaction_date_of;
use crate::domain::value_objects::yield_rate::yield_rate_of;
use crate::domain::value_objects::{
    Amount, ConsumptionRatio, FreightCode, InventoryType, PatternName, ProductCode, Quantity,
    TransactionDate, YieldRate,
};
use crate::error::{outcome, DomainError, DomainErrorView};
use crate::fixed_point::{decimal_value, is_decimal, parse_number};
use crate::text::{trim, trimmed};
use vstd::prelude::*;

verus! {

/// The cells of a row that must hold a number.
#[derive(Debug, Clone, Copy, PartialEq, Eq, Structural)]
pub enum NumberCell {
    ConsumptionRatio,
    KgUnitPrice,
    UnitPrice,
    Quantity,
    YieldRate,
    CoagulantCost,
    ClayTreatmentCost,
}

/// Why a row cannot be read.
#[derive(Debug, Clone, PartialEq, Eq)]
pub enum RowError {
    /// A cell that every row must fill is empty.
    MissingData,
    /// A cell that must hold a number holds this text.
    NotANumber(NumberCell, String),
    /// A value of the row was refused.
    Invalid(DomainError),
}

/// Why a row cannot be read, as a plain value.
pub enum RowErrorView {
    MissingData,
    NotANumber(NumberCell, Seq<char>),
    Invalid(DomainErrorView),
}

impl View for RowError {
    type V = RowErrorView;

    open spec fn view(&self) -> RowErrorView {
        match self {
            RowError::MissingData => RowErrorView::MissingData,
            RowError::NotANumber(cell, text) => RowErrorView::NotANumber(*cell, text@),
            RowError::Invalid(error) => RowErrorView::Invalid(error@),
        }
    }
}

/// What reading a row gave, as a plain value: the record, nothing for a row that is
/// skipped, or the error.
pub open spec fn row_outcome<T: View>(result: Result<Option<T>, RowError>) -> Result<
    Option<T::V>,
    RowErrorView,
> {
    match result {
        Ok(Some(record)) => Ok(Some(record@)),
        Ok(None) => Ok(None),
        Err(error) => Err(error@),
    }
}

/// What reading a value of a row gave, as a plain value.
pub open spec fn cell_outcome<T: View>(result: Result<T, RowError>) -> Result<T::V, RowErrorView> {
    match result {
        Ok(value) => Ok(value@),
        Err(error) => Err(error@),
    }
}

/// A value of the domain as the value of a cell: what was refused there is an error
/// of the row.
pub open spec fn in_row<V>(value: Result<V, DomainErrorView>) -> Result<V, RowErrorView> {
    match value {
        Ok(value) => Ok(value),
        Err(error) => Err(RowErrorView::Invalid(error)),
    }
}

/// The number in the cell `text`, in millionths.
pub open spec fn number_in(text: Seq<char>, cell: NumberCell) -> Result<i64, RowErrorView> {
    if is_decimal(text) {
        Ok(decimal_value(text) as i64)
    } else {
        Err(RowErrorView::NotANumber(cell, text))
    }
}

/// The number in the cell `text`, zero for an empty cell.
pub open spec fn number_or_zero_in(text: Seq<char>, cell: NumberCell) -> Result<
    i64,
    RowErrorView,
> {
    if text.len() == 0 {
        Ok(0i64)
    } else {
        number_in(text, cell)
    }
}

/// The number in the cell `text`, in millionths.
pub fn read_number(text: &str, cell: NumberCell) -> (r: Result<i64, RowError>)
    ensures
        cell_outcome(r) == number_in(text@, cell),
{
    match parse_number(text) {
        Some(value) => Ok(value),
        None => Err(RowError::NotANumber(cell, text.to_owned())),
    }
}

/// The number in the cell `text`, zero for an empty cell.
pub fn read_number_or_zero(text: &str, cell: NumberCell) -> (r: Result<i64, RowError>)
    ensures
        cell_outcome(r) == number_or_zero_in(text@, cell),
{
    if text.is_empty() {
        Ok(0)
    } else {
        read_number(text, cell)
    }
}

/// A value of the domain as the value of a cell.
fn checked<T: View>(value: Result<T, DomainError>) -> (r: Result<T, RowError>)
    ensures
        cell_outcome(r) == in_row(outcome(value)),
        r is Ok ==> value is Ok && r->Ok_0 == value->Ok_0,
{
    match value {
        Ok(value) => Ok(value),
        Err(error) => Err(RowError::Invalid(error)),
    }
}

/// The recipe line of a row of the formula sheet, with the code of the product that
/// it belongs to. A row with an empty cell is skipped.
pub open spec fn formula_row(
    product_code: Seq<char>,
    material_code: Seq<char>,
    consumption_ratio: Seq<char>,
) -> Result<Option<(Seq<char>, FormulaEntryView)>, RowErrorView> {
    if product_code.len() == 0 || material_code.len() == 0 || consumption_ratio.len() == 0 {
        Ok(None)
    } else {
        match in_row(product_code_of(material_code)) {
            Err(error) => Err(error),
            Ok(material_code) => match number_in(consumption_ratio, NumberCell::ConsumptionRatio) {
                Err(error) => Err(error),
                Ok(ratio) => match in_row(consumption_ratio_of(ratio)) {
                    Err(error) => Err(error),
                    Ok(consumption_ratio) => Ok(
                        Some((product_code, FormulaEntryView { material_code, consumption_ratio })),
                    ),
                },
            },
        }
    }
}

/// The recipe line of a row of the formula sheet, with the code of the product that
/// it belongs to.
pub fn formula_from_cells(product_code: &str, material_code: &str, consumption_ratio: &str) -> (r:
    Result<Option<(String, FormulaEntry)>, RowError>)
    ensures
        row_outcome(r) == formula_row(product_code@, material_code@, consumption_ratio@),
{
    if product_code.is_empty() || material_code.is_empty() || consumption_ratio.is_empty() {
        return Ok(None);
    }
    let material = checked(ProductCode::new(material_code.to_owned()))?;
    let ratio = read_number(consumption_ratio, NumberCell::ConsumptionRatio)?;
    let ratio = checked(ConsumptionRatio::new(ratio))?;
    Ok(Some((product_code.to_owned(), FormulaEntry::new(material, ratio))))
}

/// The entry of a row of the freight master sheet. A row without freight code,
/// pattern name, price or first day of validity is skipped.
pub open spec fn freight_master_row(
    freight_code: Seq<char>,
    pattern_name: Seq<char>,
    kg_unit_price: Seq<char>,
    valid_from: Seq<char>,
    valid_to: Seq<char>,
) -> Result<Option<FreightMasterView>, RowErrorView> {
    if freight_code.len() == 0 || pattern_name.len() == 0 || kg_unit_price.len() == 0
        || valid_from.len() == 0 {
        Ok(None)
    } else {
        match in_row(pattern_name_of(pattern_name)) {
            Err(error) => Err(error),
            Ok(pattern_name) => match number_in(kg_unit_price, NumberCell::KgUnitPrice) {
                Err(error) => Err(error),
                Ok(price) => match in_row(transaction_date_of(valid_from)) {
                    Err(error) => Err(error),
                    Ok(valid_from) => match optional_date(valid_to) {
                        Err(error) => Err(error),
                        Ok(valid_to) => match in_row(amount_of(price)) {
                            Err(error) => Err(error),
                            Ok(kg_unit_price) => match in_row(
                                freight_master_of(
                                    FreightMasterView {
                                        freight_code,
                                        pattern_name,
                                        kg_unit_price,
                                        valid_from,
                                        valid_to,
                                    },
                                ),
                            ) {
                                Err(error) => Err(error),
                                Ok(entry) => Ok(Some(entry)),
                            },
                        },
                    },
                },
            },
        }
    }
}

/// The date in a cell that may be empty.
pub open spec fn optional_date(text: Seq<char>) -> Result<Option<Seq<char>>, RowErrorView> {
    if text.len() == 0 {
        Ok(None)
    } else {
        match in_row(transaction_date_of(text)) {
            Err(error) => Err(error),
            Ok(date) => Ok(Some(date)),
        }
    }
}

/// The entry of a row of the freight master sheet.
pub fn freight_master_from_cells(
    freight_code: &str,
    pattern_name: &str,
    kg_unit_price: &str,
    valid_from: &str,
    valid_to: &str,
) -> (r: Result<Option<FreightMaster>, RowError>)
    ensures
        row_outcome(r) == freight_master_row(
            freight_code@,
            pattern_name@,
            kg_unit_price@,
            valid_from@,
            valid_to@,
        ),
{
    if freight_code.is_empty() || pattern_name.is_empty() || kg_unit_price.is_empty()
        || valid_from.is_empty() {
        return Ok(None);
    }
    let pattern = checked(PatternName::new(pattern_name.to_owned()))?;
    let price = read_number(kg_unit_price, NumberCell::KgUnitPrice)?;
    let from = checked(TransactionDate::new(valid_from.to_owned()))?;
    let to = if valid_to.is_empty() {
        None
    } else {
        Some(checked(TransactionDate::new(valid_to.to_owned()))?)
    };
    let price = checked(Amount::new(price))?;
    let entry = checked(FreightMaster::new(freight_code.to_owned(), pattern, price, from, to))?;
    Ok(Some(entry))
}

/// The purchase of a row of the purchase sheet, with the code of the material bought.
/// A row without product code or unit price is skipped. An empty quantity is zero;
/// an empty freight cell is a direct price of zero.
pub open spec fn purchase_row(
    product_code: Seq<char>,
    product_name: Seq<char>,
    unit_price: Seq<char>,
    quantity: Seq<char>,
    freight: Seq<char>,
) -> Result<Option<(Seq<char>, PurchaseView)>, RowErrorView> {
    if product_code.len() == 0 || unit_price.len() == 0 {
        Ok(None)
    } else {
        match number_in(unit_price, NumberCell::UnitPrice) {
            Err(error) => Err(error),
            Ok(price) => match in_row(amount_of(price)) {
                Err(error) => Err(error),
                Ok(unit_price) => match number_or_zero_in(quantity, NumberCell::Quantity) {
                    Err(error) => Err(error),
                    Ok(bought) => match freight_in(freight) {
                        Err(error) => Err(error),
                        Ok(freight_code) => match in_row(quantity_of(bought)) {
                            Err(error) => Err(error),
                            Ok(quantity) => Ok(
                                Some(
                                    (
                                        product_code,
                                        PurchaseView {
                                            product_name,
                                            unit_price,
                                            quantity,
                                            freight_code,
                                        },
                                    ),
                                ),
                            ),
                        },
                    },
                },
            },
        }
    }
}

/// The freight code in a cell: a direct price of zero for an empty cell.
pub open spec fn freight_in(text: Seq<char>) -> Result<FreightCodeView, RowErrorView> {
    if text.len() == 0 {
        Ok(FreightCodeView::DirectPrice(0))
    } else {
        in_row(freight_code_of(text))
    }
}

/// The purchase of a row of the purchase sheet, with the code of the material bought.
pub fn purchase_from_cells(
    product_code: &str,
    product_name: &str,
    unit_price: &str,
    quantity: &str,
    freight: &str,
) -> (r: Result<Option<(String, Purchase)>, RowError>)
    ensures
        row_outcome(r) == purchase_row(
            product_code@,
            product_name@,
            unit_price@,
            quantity@,
            freight@,
        ),
{
    if product_code.is_empty() || unit_price.is_empty() {
        return Ok(None);
    }
    let price = read_number(unit_price, NumberCell::UnitPrice)?;
    let price = checked(Amount::new(price))?;
    let bought = read_number_or_zero(quantity, NumberCell::Quantity)?;
    let freight_code = if freight.is_empty() {
        FreightCode::DirectPrice(0)
    } else {
        checked(FreightCode::new(freight.to_owned()))?
    };
    let bought = checked(Quantity::new(bought))?;
    Ok(
        Some(
            (
                product_code.to_owned(),
                Purchase::new(product_name.to_owned(), price, bought, freight_code),
            ),
        ),
    )
}

/// The stock event of a row of the production, purchase or sales sheet. A row
/// without date, product code or quantity is skipped.
pub open spec fn transaction_row(
    inventory_type: InventoryType,
    date: Seq<char>,
    product_code: Seq<char>,
    product_name: Seq<char>,
    quantity: Seq<char>,
) -> Result<Option<InventoryTransactionView>, RowErrorView> {
    if date.len() == 0 || product_code.len() == 0 || quantity.len() == 0 {
        Ok(None)
    } else {
        match number_in(quantity, NumberCell::Quantity) {
            Err(error) => Err(error),
            Ok(moved) => match in_row(transaction_date_of(date)) {
                Err(error) => Err(error),
                Ok(date) => match in_row(product_code_of(product_code)) {
                    Err(error) => Err(error),
                    Ok(product_code) => match in_row(quantity_of(moved)) {
                        Err(error) => Err(error),
                        Ok(quantity) => Ok(
                            Some(
                                InventoryTransactionView {
                                    date,
                                    inventory_type,
                                    product_code,
                                    product_name,
                                    quantity,
                                },
                            ),
                        ),
                    },
                },
            },
        }
    }
}

/// The stock event of a row of the production, purchase or sales sheet.
pub fn transaction_from_cells(
    inventory_type: InventoryType,
    date: &str,
    product_code: &str,
    product_name: &str,
    quantity: &str,
) -> (r: Result<Option<InventoryTransaction>, RowError>)
    ensures
        row_outcome(r) == transaction_row(
            inventory_type,
            date@,
            product_code@,
            product_name@,
            quantity@,
        ),
{
    if date.is_empty() || product_code.is_empty() || quantity.is_empty() {
        return Ok(None);
    }
    let moved = read_number(quantity, NumberCell::Quantity)?;
    let date = checked(TransactionDate::new(date.to_owned()))?;
    let code = checked(ProductCode::new(product_code.to_owned()))?;
    let moved = checked(Quantity::new(moved))?;
    Ok(
        Some(
            InventoryTransaction::new(date, inventory_type, code, product_name.to_owned(), moved),
        ),
    )
}

/// The batch of a row of the production sheet. Date, product code, quantity and
/// yield rate must be there; empty coagulant and clay treatment cells are zero.
pub open spec fn production_row(
    production_date: Seq<char>,
    product_code: Seq<char>,
    quantity: Seq<char>,
    yield_rate: Seq<char>,
    coagulant: Seq<char>,
    clay_treatment: Seq<char>,
) -> Result<ProductionView, RowErrorView> {
    if production_date.len() == 0 || product_code.len() == 0 || quantity.len() == 0
        || yield_rate.len() == 0 {
        Err(RowErrorView::MissingData)
    } else {
        match number_in(quantity, NumberCell::Quantity) {
            Err(error) => Err(error),
            Ok(produced) => match number_in(yield_rate, NumberCell::YieldRate) {
                Err(error) => Err(error),
                Ok(rate) => match number_or_zero_in(coagulant, NumberCell::CoagulantCost) {
                    Err(error) => Err(error),
                    Ok(coagulant) => match number_or_zero_in(
                        clay_treatment,
                        NumberCell::ClayTreatmentCost,
                    ) {
                        Err(error) => Err(error),
                        Ok(clay) => production_of(product_code, produced, rate, coagulant, clay),
                    },
                },
            },
        }
    }
}

/// The batch with these values, each checked in turn.
pub open spec fn production_of(
    product_code: Seq<char>,
    quantity: i64,
    yield_rate: i64,
    coagulant: i64,
    clay_treatment: i64,
) -> Result<ProductionView, RowErrorView> {
    match in_row(product_code_of(product_code)) {
        Err(error) => Err(error),
        Ok(product_code) => match in_row(quantity_of(quantity)) {
            Err(error) => Err(error),
            Ok(quantity) => match in_row(yield_rate_of(yield_rate)) {
                Err(error) => Err(error),
                Ok(yield_rate) => match in_row(amount_of(coagulant)) {
                    Err(error) => Err(error),
                    Ok(coagulant_cost) => match in_row(amount_of(clay_treatment)) {
                        Err(error) => Err(error),
                        Ok(clay_treatment_cost) => Ok(
                            ProductionView {
                                product_code,
                                quantity,
                                yield_rate,
                                coagulant_cost,
                                clay_treatment_cost,
                            },
                        ),
                    },
                },
            },
        },
    }
}

/// The batch of a row of the production sheet.
pub fn production_from_cells(
    production_date: &str,
    product_code: &str,
    quantity: &str,
    yield_rate: &str,
    coagulant: &str,
    clay_treatment: &str,
) -> (r: Result<Production, RowError>)
    ensures
        cell_outcome(r) == production_row(
            production_date@,
            product_code@,
            quantity@,
            yield_rate@,
            coagulant@,
            clay_treatment@,
        ),
{
    if production_date.is_empty() || product_code.is_empty() || quantity.is_empty()
        || yield_rate.is_empty() {
        return Err(RowError::MissingData);
    }
    let produced = read_number(quantity, NumberCell::Quantity)?;
    let rate = read_number(yield_rate, NumberCell::YieldRate)?;
    let coagulant = read_number_or_zero(coagulant, NumberCell::CoagulantCost)?;
    let clay = read_number_or_zero(clay_treatment, NumberCell::ClayTreatmentCost)?;
    let code = checked(ProductCode::new(product_code.to_owned()))?;
    let produced = checked(Quantity::new(produced))?;
    let rate = checked(YieldRate::new(rate))?;
    let coagulant = checked(Amount::new(coagulant))?;
    let clay = checked(Amount::new(clay))?;
    Ok(Production::new(code, produced, rate, coagulant, clay))
}

/// The place of the first header that is `name` once trimmed.
pub open spec fn first_column_of(headers: Seq<Seq<char>>, name: Seq<char>) -> Option<int>
    decreases headers.len(),
{
    if headers.len() == 0 {
        None
    } else if trimmed(headers[0]) == name {
        Some(0int)
    } else {
        match first_column_of(headers.drop_first(), name) {
            Some(i) => Some(i + 1),
            None => None,
        }
    }
}

/// The place of the first header that is `column_name` once trimmed, if there is one.
pub fn find_column_index(header_row: &[String], column_name: &str) -> (r: Option<usize>)
    ensures
        r is Some <==> first_column_of(
            header_row@.map_values(|h: String| h@),
            column_name@,
        ) is Some,
        r is Some ==> r->Some_0 == first_column_of(
            header_row@.map_values(|h: String| h@),
            column_name@,
        )->Some_0,
{
    let wanted = column_name.to_owned();
    let ghost headers = header_row@.map_values(|h: String| h@);
    let mut i: usize = 0;
    assert(headers.skip(0) =~= headers);
    while i < header_row.len()
        invariant
            i <= header_row@.len(),
            headers == header_row@.map_values(|h: String| h@),
            wanted@ == column_name@,
            first_column_of(headers, column_name@) == match first_column_of(
                headers.skip(i as int),
                column_name@,
            ) {
                Some(k) => Some(k + i),
                None => None,
            },
        decreases header_row@.len() - i,
    {
        assert(headers.skip(i as int)[0] == header_row@[i as int]@);
        assert(headers.skip(i as int).drop_first() =~= headers.skip(i + 1));
        let header = trim(header_row[i].as_str());
        if header == wanted {
            return Some(i);
        }
        i += 1;
    }
    None
}

} // verus!
