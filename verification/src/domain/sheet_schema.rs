//! Where the columns of a sheet stand, found by the sheet's header row.
//!
//! A header names a column when it is the column's name once whitespace at its ends
//! is left out. Where two headers name the same column, the one further right counts.

use crate::error::{outcome, DomainError, DomainErrorView, ValidationError, ValidationErrorView};
use crate::text::{trim, trimmed};
use vstd::prelude::*;
use vstd::string::StringExecFns;

verus! {

/// The place of a column in a row, counted from zero.
#[derive(Debug, Clone, Copy, PartialEq, Eq, Structural)]
pub struct ColumnIndex(usize);

impl View for ColumnIndex {
    type V = int;

    closed spec fn view(&self) -> int {
        self.0 as int
    }
}

impl ColumnIndex {
    /// The column at place `index`.
    pub fn new(index: usize) -> (r: ColumnIndex)
        ensures
            r@ == index,
    {
        ColumnIndex(index)
    }

    /// The place of the column.
    pub fn value(&self) -> (index: usize)
        ensures
            index == self@,
    {
        self.0
    }
}

/// The headers as plain values, in the same order.
pub open spec fn header_texts(headers: Seq<String>) -> Seq<Seq<char>> {
    headers.map_values(|h: String| h@)
}

/// The place of the column that `name` names: that of the last header which is `name`
/// once trimmed.
pub open spec fn column_of(headers: Seq<Seq<char>>, name: Seq<char>) -> Option<int>
    decreases headers.len(),
{
    if headers.len() == 0 {
        None
    } else if trimmed(headers.last()) == name {
        Some(headers.len() - 1)
    } else {
        column_of(headers.drop_last(), name)
    }
}

/// Those of the `required` names that no header names, in the order of `required`.
pub open spec fn missing_columns(headers: Seq<Seq<char>>, required: Seq<Seq<char>>) -> Seq<
    Seq<char>,
>
    decreases required.len(),
{
    if required.len() == 0 {
        Seq::empty()
    } else {
        let before = missing_columns(headers, required.drop_last());
        if column_of(headers, required.last()) is None {
            before.push(required.last())
        } else {
            before
        }
    }
}

/// The place of the column that `name` names, if a header names it.
fn find_column(headers: &[String], name: &str) -> (r: Option<usize>)
    ensures
        r matches Some(i) ==> column_of(header_texts(headers@), name@) == Some(i as int) && i
            < headers@.len(),
        r is None ==> column_of(header_texts(headers@), name@) is None,
{
    let wanted = String::from_str(name);
    let ghost texts = header_texts(headers@);
    let mut i: usize = headers.len();
    assert(texts.take(i as int) =~= texts);
    while i > 0
        invariant
            i <= headers@.len(),
            texts == header_texts(headers@),
            wanted@ == name@,
            column_of(texts, name@) == column_of(texts.take(i as int), name@),
        decreases i,
    {
        i -= 1;
        assert(texts.take(i + 1).last() == headers@[i as int]@);
        assert(texts.take(i + 1).drop_last() =~= texts.take(i as int));
        let header = trim(headers[i].as_str());
        if header == wanted {
            return Some(i);
        }
    }
    None
}

/// The place of the column that `name`, the `k`-th of the `required` names, names;
/// where no header names it, `name` goes to the end of `missing`, which holds the
/// names that are missing among those before the `k`-th.
fn require_column(
    headers: &[String],
    name: &str,
    missing: &mut Vec<String>,
    Ghost(required): Ghost<Seq<Seq<char>>>,
    Ghost(k): Ghost<int>,
) -> (r: usize)
    requires
        0 <= k < required.len(),
        required[k] == name@,
        header_texts(old(missing)@) == missing_columns(header_texts(headers@), required.take(k)),
    ensures
        header_texts(final(missing)@) == missing_columns(
            header_texts(headers@),
            required.take(k + 1),
        ),
        final(missing)@.len() >= old(missing)@.len(),
        final(missing)@.len() == 0 ==> column_of(header_texts(headers@), name@) == Some(r as int),
{
    proof {
        assert(required.take(k + 1).drop_last() =~= required.take(k));
        assert(required.take(k + 1).last() == name@);
    }
    let found = find_column(headers, name);
    match found {
        Some(i) => i,
        None => {
            let ghost before = header_texts(missing@);
            missing.push(String::from_str(name));
            assert(header_texts(missing@) =~= before.push(name@));
            0
        },
    }
}

/// The columns that a production sheet must have.
pub open spec fn production_columns() -> Seq<Seq<char>> {
    seq![
        "生産日"@,
        "商品コード"@,
        "生産品番"@,
        "生産数量"@,
        "歩留率"@,
        "凝集剤"@,
        "粘土処理"@,
        "材料運賃"@,
    ]
}

/// The columns that a purchase sheet must have.
pub open spec fn purchase_columns() -> Seq<Seq<char>> {
    seq!["仕入日"@, "商品コード"@, "商品"@, "仕入単価"@, "数量"@, "運賃"@]
}

/// The columns that a sales sheet must have.
pub open spec fn sales_columns() -> Seq<Seq<char>> {
    seq!["売上日"@, "商品コード"@, "商品名"@, "数量"@]
}

/// Where the columns of a production sheet stand.
#[derive(Debug, Clone)]
pub struct ProductionSheetSchema {
    col_production_date: ColumnIndex,
    col_product_code: ColumnIndex,
    col_quantity: ColumnIndex,
    col_yield_rate: ColumnIndex,
    col_coagulant: ColumnIndex,
    col_clay_treatment: ColumnIndex,
    col_freight: ColumnIndex,
}

/// The places of the columns of a production sheet as plain values.
pub struct ProductionSheetSchemaView {
    pub production_date: int,
    pub product_code: int,
    pub quantity: int,
    pub yield_rate: int,
    pub coagulant: int,
    pub clay_treatment: int,
    pub freight: int,
}

impl View for ProductionSheetSchema {
    type V = ProductionSheetSchemaView;

    closed spec fn view(&self) -> ProductionSheetSchemaView {
        ProductionSheetSchemaView {
            production_date: self.col_production_date@,
            product_code: self.col_product_code@,
            quantity: self.col_quantity@,
            yield_rate: self.col_yield_rate@,
            coagulant: self.col_coagulant@,
            clay_treatment: self.col_clay_treatment@,
            freight: self.col_freight@,
        }
    }
}

/// Where the columns of a production sheet with these headers stand; an error with
/// the names of the missing columns unless it has all the columns it must have.
pub open spec fn production_schema_of(headers: Seq<Seq<char>>) -> Result<
    ProductionSheetSchemaView,
    DomainErrorView,
> {
    if missing_columns(headers, production_columns()).len() > 0 {
        Err(
            DomainErrorView::Validation(
                ValidationErrorView::MissingColumns(missing_columns(headers, production_columns())),
            ),
        )
    } else {
        Ok(
            ProductionSheetSchemaView {
                production_date: column_of(headers, "生産日"@)->Some_0,
                product_code: column_of(headers, "商品コード"@)->Some_0,
                quantity: column_of(headers, "生産数量"@)->Some_0,
                yield_rate: column_of(headers, "歩留率"@)->Some_0,
                coagulant: column_of(headers, "凝集剤"@)->Some_0,
                clay_treatment: column_of(headers, "粘土処理"@)->Some_0,
                freight: column_of(headers, "材料運賃"@)->Some_0,
            },
        )
    }
}

impl ProductionSheetSchema {
    /// Where the columns stand in a sheet with these headers; refused, with the names
    /// of the columns that are missing, unless the sheet has all the columns it must
    /// have.
    pub fn from_headers(headers: &[String]) -> (r: Result<ProductionSheetSchema, DomainError>)
        ensures
            outcome(r) == production_schema_of(header_texts(headers@)),
    {
        let mut missing: Vec<String> = Vec::new();
        let ghost required = production_columns();
        assert(header_texts(missing@) =~= missing_columns(header_texts(headers@), required.take(0)));
        let production_date = require_column(
            headers,
            "生産日",
            &mut missing,
            Ghost(required),
            Ghost(0),
        );
        let product_code = require_column(
            headers,
            "商品コード",
            &mut missing,
            Ghost(required),
            Ghost(1),
        );
        let _ = require_column(headers, "生産品番", &mut missing, Ghost(required), Ghost(2));
        let quantity = require_column(headers, "生産数量", &mut missing, Ghost(required), Ghost(3));
        let yield_rate = require_column(headers, "歩留率", &mut missing, Ghost(required), Ghost(4));
        let coagulant = require_column(headers, "凝集剤", &mut missing, Ghost(required), Ghost(5));
        let clay_treatment = require_column(
            headers,
            "粘土処理",
            &mut missing,
            Ghost(required),
            Ghost(6),
        );
        let freight = require_column(headers, "材料運賃", &mut missing, Ghost(required), Ghost(7));
        assert(required.take(8) =~= required);
        if missing.len() > 0 {
            return Err(DomainError::Validation(ValidationError::MissingColumns(missing)));
        }
        Ok(
            ProductionSheetSchema {
                col_production_date: ColumnIndex::new(production_date),
                col_product_code: ColumnIndex::new(product_code),
                col_quantity: ColumnIndex::new(quantity),
                col_yield_rate: ColumnIndex::new(yield_rate),
                col_coagulant: ColumnIndex::new(coagulant),
                col_clay_treatment: ColumnIndex::new(clay_treatment),
                col_freight: ColumnIndex::new(freight),
            },
        )
    }

    /// The column of the production date.
    pub fn production_date(&self) -> (r: ColumnIndex)
        ensures
            r@ == self@.production_date,
    {
        self.col_production_date
    }

    /// The column of the product code.
    pub fn product_code(&self) -> (r: ColumnIndex)
        ensures
            r@ == self@.product_code,
    {
        self.col_product_code
    }

    /// The column of the quantity produced.
    pub fn quantity(&self) -> (r: ColumnIndex)
        ensures
            r@ == self@.quantity,
    {
        self.col_quantity
    }

    /// The column of the yield rate.
    pub fn yield_rate(&self) -> (r: ColumnIndex)
        ensures
            r@ == self@.yield_rate,
    {
        self.col_yield_rate
    }

    /// The column of the coagulant cost.
    pub fn coagulant(&self) -> (r: ColumnIndex)
        ensures
            r@ == self@.coagulant,
    {
        self.col_coagulant
    }

    /// The column of the clay treatment cost.
    pub fn clay_treatment(&self) -> (r: ColumnIndex)
        ensures
            r@ == self@.clay_treatment,
    {
        self.col_clay_treatment
    }

    /// The column of the material freight.
    pub fn freight(&self) -> (r: ColumnIndex)
        ensures
            r@ == self@.freight,
    {
        self.col_freight
    }
}

/// Where the columns of a purchase sheet stand.
#[derive(Debug, Clone)]
pub struct PurchaseSheetSchema {
    col_purchase_date: ColumnIndex,
    col_product_code: ColumnIndex,
    col_product_name: ColumnIndex,
    col_unit_price: ColumnIndex,
    col_quantity: ColumnIndex,
    col_freight: ColumnIndex,
}

/// The places of the columns of a purchase sheet as plain values.
pub struct PurchaseSheetSchemaView {
    pub purchase_date: int,
    pub product_code: int,
    pub product_name: int,
    pub unit_price: int,
    pub quantity: int,
    pub freight: int,
}

impl View for PurchaseSheetSchema {
    type V = PurchaseSheetSchemaView;

    closed spec fn view(&self) -> PurchaseSheetSchemaView {
        PurchaseSheetSchemaView {
            purchase_date: self.col_purchase_date@,
            product_code: self.col_product_code@,
            product_name: self.col_product_name@,
            unit_price: self.col_unit_price@,
            quantity: self.col_quantity@,
            freight: self.col_freight@,
        }
    }
}

/// Where the columns of a purchase sheet with these headers stand; an error with the
/// names of the missing columns unless it has all the columns it must have.
pub open spec fn purchase_schema_of(headers: Seq<Seq<char>>) -> Result<
    PurchaseSheetSchemaView,
    DomainErrorView,
> {
    if missing_columns(headers, purchase_columns()).len() > 0 {
        Err(
            DomainErrorView::Validation(
                ValidationErrorView::MissingColumns(missing_columns(headers, purchase_columns())),
            ),
        )
    } else {
        Ok(
            PurchaseSheetSchemaView {
                purchase_date: column_of(headers, "仕入日"@)->Some_0,
                product_code: column_of(headers, "商品コード"@)->Some_0,
                product_name: column_of(headers, "商品"@)->Some_0,
                unit_price: column_of(headers, "仕入単価"@)->Some_0,
                quantity: column_of(headers, "数量"@)->Some_0,
                freight: column_of(headers, "運賃"@)->Some_0,
            },
        )
    }
}

impl PurchaseSheetSchema {
    /// Where the columns stand in a sheet with these headers; refused, with the names
    /// of the columns that are missing, unless the sheet has all the columns it must
    /// have.
    pub fn from_headers(headers: &[String]) -> (r: Result<PurchaseSheetSchema, DomainError>)
        ensures
            outcome(r) == purchase_schema_of(header_texts(headers@)),
    {
        let mut missing: Vec<String> = Vec::new();
        let ghost required = purchase_columns();
        assert(header_texts(missing@) =~= missing_columns(header_texts(headers@), required.take(0)));
        let purchase_date = require_column(headers, "仕入日", &mut missing, Ghost(required), Ghost(0));
        let product_code = require_column(headers, "商品コード", &mut missing, Ghost(required), Ghost(1));
        let product_name = require_column(headers, "商品", &mut missing, Ghost(required), Ghost(2));
        let unit_price = require_column(headers, "仕入単価", &mut missing, Ghost(required), Ghost(3));
        let quantity = require_column(headers, "数量", &mut missing, Ghost(required), Ghost(4));
        let freight = require_column(headers, "運賃", &mut missing, Ghost(required), Ghost(5));
        assert(required.take(6) =~= required);
        if missing.len() > 0 {
            return Err(DomainError::Validation(ValidationError::MissingColumns(missing)));
        }
        Ok(
            PurchaseSheetSchema {
                col_purchase_date: ColumnIndex::new(purchase_date),
                col_product_code: ColumnIndex::new(product_code),
                col_product_name: ColumnIndex::new(product_name),
                col_unit_price: ColumnIndex::new(unit_price),
                col_quantity: ColumnIndex::new(quantity),
                col_freight: ColumnIndex::new(freight),
            },
        )
    }

    /// The column of the purchase date.
    pub fn purchase_date(&self) -> (r: ColumnIndex)
        ensures
            r@ == self@.purchase_date,
    {
        self.col_purchase_date
    }

    /// The column of the product code.
    pub fn product_code(&self) -> (r: ColumnIndex)
        ensures
            r@ == self@.product_code,
    {
        self.col_product_code
    }

    /// The column of the product name.
    pub fn product_name(&self) -> (r: ColumnIndex)
        ensures
            r@ == self@.product_name,
    {
        self.col_product_name
    }

    /// The column of the price per unit.
    pub fn unit_price(&self) -> (r: ColumnIndex)
        ensures
            r@ == self@.unit_price,
    {
        self.col_unit_price
    }

    /// The column of the quantity bought.
    pub fn quantity(&self) -> (r: ColumnIndex)
        ensures
            r@ == self@.quantity,
    {
        self.col_quantity
    }

    /// The column of the freight code or freight price.
    pub fn freight(&self) -> (r: ColumnIndex)
        ensures
            r@ == self@.freight,
    {
        self.col_freight
    }
}

/// Where the columns of a sales sheet stand.
#[derive(Debug, Clone)]
pub struct SalesSheetSchema {
    col_sales_date: ColumnIndex,
    col_product_code: ColumnIndex,
    col_product_name: ColumnIndex,
    col_quantity: ColumnIndex,
}

/// The places of the columns of a sales sheet as plain values.
pub struct SalesSheetSchemaView {
    pub sales_date: int,
    pub product_code: int,
    pub product_name: int,
    pub quantity: int,
}

impl View for SalesSheetSchema {
    type V = SalesSheetSchemaView;

    closed spec fn view(&self) -> SalesSheetSchemaView {
        SalesSheetSchemaView {
            sales_date: self.col_sales_date@,
            product_code: self.col_product_code@,
            product_name: self.col_product_name@,
            quantity: self.col_quantity@,
        }
    }
}

/// Where the columns of a sales sheet with these headers stand; an error with the
/// names of the missing columns unless it has all the columns it must have.
pub open spec fn sales_schema_of(headers: Seq<Seq<char>>) -> Result<
    SalesSheetSchemaView,
    DomainErrorView,
> {
    if missing_columns(headers, sales_columns()).len() > 0 {
        Err(
            DomainErrorView::Validation(
                ValidationErrorView::MissingColumns(missing_columns(headers, sales_columns())),
            ),
        )
    } else {
        Ok(
            SalesSheetSchemaView {
                sales_date: column_of(headers, "売上日"@)->Some_0,
                product_code: column_of(headers, "商品コード"@)->Some_0,
                product_name: column_of(headers, "商品名"@)->Some_0,
                quantity: column_of(headers, "数量"@)->Some_0,
            },
        )
    }
}

impl SalesSheetSchema {
    /// Where the columns stand in a sheet with these headers; refused, with the names
    /// of the columns that are missing, unless the sheet has all the columns it must
    /// have.
    pub fn from_headers(headers: &[String]) -> (r: Result<SalesSheetSchema, DomainError>)
        ensures
            outcome(r) == sales_schema_of(header_texts(headers@)),
    {
        let mut missing: Vec<String> = Vec::new();
        let ghost required = sales_columns();
        assert(header_texts(missing@) =~= missing_columns(header_texts(headers@), required.take(0)));
        let sales_date = require_column(headers, "売上日", &mut missing, Ghost(required), Ghost(0));
        let product_code = require_column(headers, "商品コード", &mut missing, Ghost(required), Ghost(1));
        let product_name = require_column(headers, "商品名", &mut missing, Ghost(required), Ghost(2));
        let quantity = require_column(headers, "数量", &mut missing, Ghost(required), Ghost(3));
        assert(required.take(4) =~= required);
        if missing.len() > 0 {
            return Err(DomainError::Validation(ValidationError::MissingColumns(missing)));
        }
        Ok(
            SalesSheetSchema {
                col_sales_date: ColumnIndex::new(sales_date),
                col_product_code: ColumnIndex::new(product_code),
                col_product_name: ColumnIndex::new(product_name),
                col_quantity: ColumnIndex::new(quantity),
            },
        )
    }

    /// The column of the sales date.
    pub fn sales_date(&self) -> (r: ColumnIndex)
        ensures
            r@ == self@.sales_date,
    {
        self.col_sales_date
    }

    /// The column of the product code.
    pub fn product_code(&self) -> (r: ColumnIndex)
        ensures
            r@ == self@.product_code,
    {
        self.col_product_code
    }

    /// The column of the product name.
    pub fn product_name(&self) -> (r: ColumnIndex)
        ensures
            r@ == self@.product_name,
    {
        self.col_product_name
    }

    /// The column of the quantity sold.
    pub fn quantity(&self) -> (r: ColumnIndex)
        ensures
            r@ == self@.quantity,
    {
        self.col_quantity
    }
}

} // verus!
