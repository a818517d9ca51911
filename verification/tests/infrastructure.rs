use material_cost_engine::domain::value_objects::{FreightCode, InventoryType};
use material_cost_engine::error::{DomainError, ValidationError};
use material_cost_engine::fixed_point::{format_hundredths, parse_number};
use material_cost_engine::infrastructure::date_cell::{
    excel_serial_to_date, format_date, get_cell_date_string, whole_days, DateCell,
};
use material_cost_engine::infrastructure::sheet_rows::{
    find_column_index, formula_from_cells, freight_master_from_cells, production_from_cells,
    purchase_from_cells, read_number, read_number_or_zero, transaction_from_cells, NumberCell,
    RowError,
};

/// A decimal number as a count of millionths.
fn micros(x: f64) -> i64 {
    (x * 1_000_000.0).round() as i64
}

#[test]
fn numbers_are_read_in_millionths() {
    assert_eq!(parse_number("150.5"), Some(micros(150.5)));
    assert_eq!(parse_number("0"), Some(0));
    assert_eq!(parse_number("+12"), Some(micros(12.0)));
    assert_eq!(parse_number(".5"), Some(micros(0.5)));
    assert_eq!(parse_number("5."), Some(micros(5.0)));
    assert_eq!(parse_number("0.03"), Some(30_000));
    assert_eq!(parse_number("123.456"), Some(123_456_000));
    assert_eq!(parse_number("-10"), Some(micros(-10.0)));
    assert_eq!(parse_number("-0"), Some(0));
    assert_eq!(parse_number("0.0000019"), Some(1));
    assert_eq!(parse_number("-0.0000019"), Some(-2));
    assert_eq!(parse_number("-0.0000001"), Some(-1));
    assert_eq!(parse_number("9223372036854.775807"), Some(i64::MAX));
    assert_eq!(parse_number("9223372036854.775808"), Some(i64::MAX));
    assert_eq!(parse_number("99999999999999999999999999"), Some(i64::MAX));
    assert_eq!(parse_number("-99999999999999999999999999"), Some(-i64::MAX));
    assert_eq!(parse_number(""), None);
    assert_eq!(parse_number("."), None);
    assert_eq!(parse_number("+"), None);
    assert_eq!(parse_number("1.2.3"), None);
    assert_eq!(parse_number("1e3"), None);
    assert_eq!(parse_number(" 1"), None);
    assert_eq!(parse_number("T0001"), None);
    assert_eq!(parse_number("１２"), None);
}

#[test]
fn hundredths_are_rounded_to_the_even_neighbour() {
    assert_eq!(format_hundredths(micros(10.0)), "10.00");
    assert_eq!(format_hundredths(micros(150.5)), "150.50");
    assert_eq!(format_hundredths(0), "0.00");
    assert_eq!(format_hundredths(125_000), "0.12");
    assert_eq!(format_hundredths(135_000), "0.14");
    assert_eq!(format_hundredths(125_001), "0.13");
    assert_eq!(format_hundredths(999_999), "1.00");
    assert_eq!(format_hundredths(-1_500_000), "-1.50");
    assert_eq!(format_hundredths(-1), "-0.00");
    assert_eq!(format_hundredths(i64::MAX), "9223372036854.78");
    assert_eq!(format_hundredths(i64::MIN), "-9223372036854.78");
}

#[test]
fn number_cells() {
    assert_eq!(read_number("2.5", NumberCell::Quantity), Ok(micros(2.5)));
    assert_eq!(
        read_number("abc", NumberCell::YieldRate),
        Err(RowError::NotANumber(NumberCell::YieldRate, "abc".to_string()))
    );
    assert_eq!(read_number_or_zero("", NumberCell::CoagulantCost), Ok(0));
    assert_eq!(read_number_or_zero("7", NumberCell::CoagulantCost), Ok(micros(7.0)));
    assert_eq!(
        read_number_or_zero("x", NumberCell::ClayTreatmentCost),
        Err(RowError::NotANumber(NumberCell::ClayTreatmentCost, "x".to_string()))
    );
}

#[test]
fn formula_rows() {
    let (product, entry) = formula_from_cells("P001", "M001", "0.03").unwrap().unwrap();
    assert_eq!(product, "P001");
    assert_eq!(entry.material_code.value(), "M001");
    assert_eq!(entry.consumption_ratio.value(), micros(0.03));
    assert!(formula_from_cells("", "M001", "0.03").unwrap().is_none());
    assert!(formula_from_cells("P001", "", "0.03").unwrap().is_none());
    assert!(formula_from_cells("P001", "M001", "").unwrap().is_none());
    assert_eq!(
        formula_from_cells("P001", "M001", "three").unwrap_err(),
        RowError::NotANumber(NumberCell::ConsumptionRatio, "three".to_string())
    );
    assert_eq!(
        formula_from_cells("P001", "M001", "-0.5").unwrap_err(),
        RowError::Invalid(DomainError::Validation(
            ValidationError::NegativeConsumptionRatio(micros(-0.5))
        ))
    );
    assert_eq!(
        formula_from_cells("P001", " ", "x").unwrap_err(),
        RowError::Invalid(DomainError::Validation(ValidationError::EmptyProductCode))
    );
}

#[test]
fn freight_master_rows() {
    let entry = freight_master_from_cells("T0001", "標準運賃", "15", "2024-01-01", "")
        .unwrap()
        .unwrap();
    assert_eq!(entry.freight_code, "T0001");
    assert_eq!(entry.pattern_name.value(), "標準運賃");
    assert_eq!(entry.kg_unit_price.value(), micros(15.0));
    assert_eq!(entry.valid_from.value(), "2024-01-01");
    assert!(entry.valid_to.is_none());
    let entry = freight_master_from_cells("T0002", "期間限定運賃", "12.5", "2024-01-01", "2024-12-31")
        .unwrap()
        .unwrap();
    assert_eq!(entry.valid_to.unwrap().value(), "2024-12-31");
    assert!(freight_master_from_cells("", "a", "1", "2024-01-01", "").unwrap().is_none());
    assert!(freight_master_from_cells("T0001", "a", "1", "", "").unwrap().is_none());
    assert_eq!(
        freight_master_from_cells("T0001", "a", "one", "2024-01-01", "").unwrap_err(),
        RowError::NotANumber(NumberCell::KgUnitPrice, "one".to_string())
    );
    assert_eq!(
        freight_master_from_cells("T0001", "a", "1", "2024-02-30", "").unwrap_err(),
        RowError::Invalid(DomainError::Validation(ValidationError::InvalidDate(
            "2024-02-30".to_string()
        )))
    );
    assert_eq!(
        freight_master_from_cells("T01", "a", "-1", "2024-01-01", "").unwrap_err(),
        RowError::Invalid(DomainError::Validation(ValidationError::NegativeAmount(micros(-1.0))))
    );
    assert_eq!(
        freight_master_from_cells("T01", "a", "1", "2024-01-01", "").unwrap_err(),
        RowError::Invalid(DomainError::Validation(ValidationError::InvalidFreightCode(
            "T01".to_string()
        )))
    );
}

#[test]
fn purchase_rows() {
    let (code, purchase) = purchase_from_cells("M001", "材料A", "50", "100", "T0001")
        .unwrap()
        .unwrap();
    assert_eq!(code, "M001");
    assert_eq!(purchase.product_name, "材料A");
    assert_eq!(purchase.unit_price.value(), micros(50.0));
    assert_eq!(purchase.quantity.value(), micros(100.0));
    assert_eq!(purchase.freight_code.as_code(), Some("T0001"));
    let (_, purchase) = purchase_from_cells("M001", "材料A", "50", "", "").unwrap().unwrap();
    assert_eq!(purchase.quantity.value(), 0);
    assert!(matches!(purchase.freight_code, FreightCode::DirectPrice(0)));
    let (_, purchase) = purchase_from_cells("M001", "材料A", "50", "1", "10.5").unwrap().unwrap();
    assert_eq!(purchase.freight_code.as_direct_price(), Some(micros(10.5)));
    assert!(purchase_from_cells("", "材料A", "50", "1", "").unwrap().is_none());
    assert!(purchase_from_cells("M001", "材料A", "", "1", "").unwrap().is_none());
    assert_eq!(
        purchase_from_cells("M001", "材料A", "fifty", "1", "").unwrap_err(),
        RowError::NotANumber(NumberCell::UnitPrice, "fifty".to_string())
    );
    assert_eq!(
        purchase_from_cells("M001", "材料A", "50", "many", "").unwrap_err(),
        RowError::NotANumber(NumberCell::Quantity, "many".to_string())
    );
    assert_eq!(
        purchase_from_cells("M001", "材料A", "50", "-1", "A0001").unwrap_err(),
        RowError::Invalid(DomainError::Validation(ValidationError::InvalidFreightCode(
            "A0001".to_string()
        )))
    );
    assert_eq!(
        purchase_from_cells("M001", "材料A", "50", "-1", "").unwrap_err(),
        RowError::Invalid(DomainError::Validation(ValidationError::NegativeQuantity(micros(-1.0))))
    );
}

#[test]
fn transaction_rows() {
    let event = transaction_from_cells(InventoryType::Sales, "2024-03-10", "P002", "製品C", "30")
        .unwrap()
        .unwrap();
    assert_eq!(event.date.value(), "2024-03-10");
    assert_eq!(event.inventory_type, InventoryType::Sales);
    assert_eq!(event.product_code.value(), "P002");
    assert_eq!(event.product_name, "製品C");
    assert_eq!(event.quantity.value(), micros(30.0));
    assert!(transaction_from_cells(InventoryType::Sales, "", "P002", "製品C", "30")
        .unwrap()
        .is_none());
    assert!(transaction_from_cells(InventoryType::Sales, "2024-03-10", "P002", "製品C", "")
        .unwrap()
        .is_none());
    assert_eq!(
        transaction_from_cells(InventoryType::Purchase, "yesterday", "P002", "製品C", "x")
            .unwrap_err(),
        RowError::NotANumber(NumberCell::Quantity, "x".to_string())
    );
    assert_eq!(
        transaction_from_cells(InventoryType::Purchase, "yesterday", "P002", "製品C", "1")
            .unwrap_err(),
        RowError::Invalid(DomainError::Validation(ValidationError::InvalidDate(
            "yesterday".to_string()
        )))
    );
}

#[test]
fn production_rows() {
    let production =
        production_from_cells("2024-01-15", "P001", "1000", "0.95", "100", "").unwrap();
    assert_eq!(production.product_code.value(), "P001");
    assert_eq!(production.quantity.value(), micros(1000.0));
    assert_eq!(production.yield_rate.value(), micros(0.95));
    assert_eq!(production.coagulant_cost.value(), micros(100.0));
    assert_eq!(production.clay_treatment_cost.value(), 0);
    assert_eq!(
        production_from_cells("", "P001", "1000", "0.95", "", "").unwrap_err(),
        RowError::MissingData
    );
    assert_eq!(
        production_from_cells("2024-01-15", "P001", "1000", "", "", "").unwrap_err(),
        RowError::MissingData
    );
    assert_eq!(
        production_from_cells("2024-01-15", "P001", "1000", "95%", "", "").unwrap_err(),
        RowError::NotANumber(NumberCell::YieldRate, "95%".to_string())
    );
    assert_eq!(
        production_from_cells("2024-01-15", "P001", "1000", "1.5", "", "").unwrap_err(),
        RowError::Invalid(DomainError::Validation(ValidationError::YieldRateOutOfRange(
            micros(1.5)
        )))
    );
}

#[test]
fn first_column_with_a_name() {
    let row: Vec<String> = ["運賃コード", " Kg単価 ", "パターン名", "Kg単価"]
        .iter()
        .map(|h| h.to_string())
        .collect();
    assert_eq!(find_column_index(&row, "Kg単価"), Some(1));
    assert_eq!(find_column_index(&row, "運賃コード"), Some(0));
    assert_eq!(find_column_index(&row, "有効開始日"), None);
    assert_eq!(find_column_index(&[], "Kg単価"), None);
}

#[test]
fn serial_numbers_count_days() {
    assert_eq!(whole_days(micros(45000.0)), 44998);
    assert_eq!(whole_days(micros(45000.75)), 44998);
    assert_eq!(whole_days(micros(59.0)), 58);
    assert_eq!(whole_days(micros(60.0)), 58);
    assert_eq!(whole_days(micros(2.5)), 1);
    assert_eq!(whole_days(micros(0.5)), 0);
    assert_eq!(whole_days(micros(-0.5)), -1);
    assert_eq!(whole_days(i64::MIN), -9_223_372_036_855);
}

#[test]
fn serial_numbers_become_dates() {
    assert_eq!(excel_serial_to_date(micros(45000.0)), Some("2023-03-13".to_string()));
    assert_eq!(excel_serial_to_date(micros(1.0)), Some("1899-12-30".to_string()));
    assert_eq!(excel_serial_to_date(micros(61.0)), Some("1900-02-27".to_string()));
    assert_eq!(excel_serial_to_date(micros(0.0)), Some("1899-12-29".to_string()));
    assert_eq!(excel_serial_to_date(i64::MAX), None);
}

#[test]
fn dates_are_written_with_leading_zeros() {
    assert_eq!(format_date(2024, 1, 5), "2024-01-05");
    assert_eq!(format_date(987, 12, 31), "0987-12-31");
    assert_eq!(format_date(12345, 10, 1), "12345-10-01");
    assert_eq!(format_date(-5, 3, 2), "-005-03-02");
    assert_eq!(format_date(0, 0, 0), "0000-00-00");
}

#[test]
fn date_cells() {
    assert_eq!(
        get_cell_date_string(&DateCell::Number(micros(45000.0))),
        Some("2023-03-13".to_string())
    );
    assert_eq!(
        get_cell_date_string(&DateCell::DateTime("45000".to_string())),
        Some("2023-03-13".to_string())
    );
    assert_eq!(
        get_cell_date_string(&DateCell::DateTime("  2024-01-15 10:30:00".to_string())),
        Some("2024-01-15".to_string())
    );
    assert_eq!(
        get_cell_date_string(&DateCell::DateTime("   ".to_string())),
        Some("   ".to_string())
    );
    assert_eq!(
        get_cell_date_string(&DateCell::DateTimeIso("2024-01-15T10:30:00".to_string())),
        Some("2024-01-15".to_string())
    );
    assert_eq!(
        get_cell_date_string(&DateCell::DateTimeIso("2024-01-15".to_string())),
        Some("2024-01-15".to_string())
    );
    assert_eq!(
        get_cell_date_string(&DateCell::Text(" 2024/01/15 ".to_string())),
        Some("2024/01/15".to_string())
    );
    assert_eq!(
        get_cell_date_string(&DateCell::Text("45000".to_string())),
        Some("2023-03-13".to_string())
    );
    assert_eq!(
        get_cell_date_string(&DateCell::Text(" 45000".to_string())),
        Some("45000".to_string())
    );
    assert_eq!(
        get_cell_date_string(&DateCell::Other(" 45000 ".to_string())),
        Some("2023-03-13".to_string())
    );
    assert_eq!(
        get_cell_date_string(&DateCell::Other(" true ".to_string())),
        Some("true".to_string())
    );
    assert_eq!(get_cell_date_string(&DateCell::Missing), Some(String::new()));
}
