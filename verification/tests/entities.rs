use material_cost_engine::domain::entities::{
    FormulaEntry, FreightMaster, InventoryTransaction, Production, Purchase,
};
use material_cost_engine::domain::value_objects::{
    Amount, ConsumptionRatio, FreightCode, InventoryType, PatternName, ProductCode, Quantity,
    TransactionDate, YieldRate,
};
use material_cost_engine::error::{DomainError, ValidationError};

/// A decimal number as a count of millionths.
fn micros(x: f64) -> i64 {
    (x * 1_000_000.0).round() as i64
}

#[test]
fn test_formula_entry_creation() {
    let material_code = ProductCode::new("M001".to_string()).unwrap();
    let consumption_ratio = ConsumptionRatio::new(micros(0.5)).unwrap();

    let entry = FormulaEntry::new(material_code.clone(), consumption_ratio);

    assert_eq!(entry.material_code.value(), "M001");
    assert_eq!(entry.consumption_ratio.value(), micros(0.5));
}

#[test]
fn test_freight_master_valid() {
    let pattern_name = PatternName::new("標準運賃".to_string()).unwrap();
    let kg_unit_price = Amount::new(micros(150.0)).unwrap();
    let valid_from = TransactionDate::new("2024-01-01".to_string()).unwrap();

    let freight_master = FreightMaster::new(
        "T0001".to_string(),
        pattern_name,
        kg_unit_price,
        valid_from,
        None,
    )
    .unwrap();

    assert_eq!(freight_master.freight_code, "T0001");
    assert_eq!(freight_master.kg_unit_price.value(), micros(150.0));
}

#[test]
fn test_freight_master_with_valid_to() {
    let pattern_name = PatternName::new("期間限定運賃".to_string()).unwrap();
    let kg_unit_price = Amount::new(micros(120.0)).unwrap();
    let valid_from = TransactionDate::new("2024-01-01".to_string()).unwrap();
    let valid_to = TransactionDate::new("2024-12-31".to_string()).unwrap();

    let freight_master = FreightMaster::new(
        "T0002".to_string(),
        pattern_name,
        kg_unit_price,
        valid_from,
        Some(valid_to),
    )
    .unwrap();

    assert!(freight_master.valid_to.is_some());
}

#[test]
fn test_freight_master_invalid_code_format() {
    let pattern_name = PatternName::new("標準運賃".to_string()).unwrap();
    let kg_unit_price = Amount::new(micros(150.0)).unwrap();
    let valid_from = TransactionDate::new("2024-01-01".to_string()).unwrap();

    let result = FreightMaster::new(
        "A0001".to_string(),
        pattern_name,
        kg_unit_price,
        valid_from,
        None,
    );

    assert!(result.is_err());
}

#[test]
fn test_freight_master_invalid_code_length() {
    let pattern_name = PatternName::new("標準運賃".to_string()).unwrap();
    let kg_unit_price = Amount::new(micros(150.0)).unwrap();
    let valid_from = TransactionDate::new("2024-01-01".to_string()).unwrap();

    let result = FreightMaster::new(
        "T001".to_string(),
        pattern_name,
        kg_unit_price,
        valid_from,
        None,
    );

    assert!(result.is_err());
}

#[test]
fn test_freight_master_non_numeric_digits() {
    let pattern_name = PatternName::new("標準運賃".to_string()).unwrap();
    let kg_unit_price = Amount::new(micros(150.0)).unwrap();
    let valid_from = TransactionDate::new("2024-01-01".to_string()).unwrap();

    let result = FreightMaster::new(
        "T00A1".to_string(),
        pattern_name,
        kg_unit_price,
        valid_from,
        None,
    );

    assert!(result.is_err());
}

#[test]
fn freight_master_code_is_not_trimmed() {
    let result = FreightMaster::new(
        " T0001".to_string(),
        PatternName::new("標準運賃".to_string()).unwrap(),
        Amount::new(micros(150.0)).unwrap(),
        TransactionDate::new("2024-01-01".to_string()).unwrap(),
        None,
    );
    assert_eq!(
        result.unwrap_err(),
        DomainError::Validation(ValidationError::InvalidFreightCode(" T0001".to_string()))
    );
}

#[test]
fn test_inventory_transaction_production() {
    let date = TransactionDate::new("2024-01-15".to_string()).unwrap();
    let product_code = ProductCode::new("P001".to_string()).unwrap();
    let quantity = Quantity::new(micros(100.0)).unwrap();

    let transaction = InventoryTransaction::new(
        date,
        InventoryType::Production,
        product_code.clone(),
        "製品A".to_string(),
        quantity,
    );

    assert_eq!(transaction.date.value(), "2024-01-15");
    assert_eq!(transaction.inventory_type, InventoryType::Production);
    assert_eq!(transaction.product_code.value(), "P001");
    assert_eq!(transaction.product_name, "製品A");
    assert_eq!(transaction.quantity.value(), micros(100.0));
}

#[test]
fn test_inventory_transaction_purchase() {
    let date = TransactionDate::new("2024-02-20".to_string()).unwrap();
    let product_code = ProductCode::new("M001".to_string()).unwrap();
    let quantity = Quantity::new(micros(50.0)).unwrap();

    let transaction = InventoryTransaction::new(
        date,
        InventoryType::Purchase,
        product_code,
        "材料B".to_string(),
        quantity,
    );

    assert_eq!(transaction.inventory_type, InventoryType::Purchase);
}

#[test]
fn test_inventory_transaction_sales() {
    let date = TransactionDate::new("2024-03-10".to_string()).unwrap();
    let product_code = ProductCode::new("P002".to_string()).unwrap();
    let quantity = Quantity::new(micros(30.0)).unwrap();

    let transaction = InventoryTransaction::new(
        date,
        InventoryType::Sales,
        product_code,
        "製品C".to_string(),
        quantity,
    );

    assert_eq!(transaction.inventory_type, InventoryType::Sales);
}

#[test]
fn test_production_creation() {
    let product_code = ProductCode::new("P001".to_string()).unwrap();
    let quantity = Quantity::new(micros(1000.0)).unwrap();
    let yield_rate = YieldRate::new(micros(0.95)).unwrap();
    let coagulant_cost = Amount::new(micros(100.0)).unwrap();
    let clay_treatment_cost = Amount::new(micros(50.0)).unwrap();

    let production = Production::new(
        product_code.clone(),
        quantity,
        yield_rate,
        coagulant_cost,
        clay_treatment_cost,
    );

    assert_eq!(production.product_code.value(), "P001");
    assert_eq!(production.quantity.value(), micros(1000.0));
    assert_eq!(production.yield_rate.value(), micros(0.95));
    assert_eq!(production.coagulant_cost.value(), micros(100.0));
    assert_eq!(production.clay_treatment_cost.value(), micros(50.0));
}

#[test]
fn test_purchase_with_code() {
    let unit_price = Amount::new(micros(100.0)).unwrap();
    let quantity = Quantity::new(micros(50.0)).unwrap();
    let freight_code = FreightCode::new("T0001".to_string()).unwrap();

    let purchase = Purchase::new("原材料A".to_string(), unit_price, quantity, freight_code);

    assert_eq!(purchase.product_name, "原材料A");
    assert_eq!(purchase.unit_price.value(), micros(100.0));
    assert_eq!(purchase.quantity.value(), micros(50.0));
    assert!(purchase.freight_code.is_code());
}

#[test]
fn test_purchase_with_direct_price() {
    let unit_price = Amount::new(micros(100.0)).unwrap();
    let quantity = Quantity::new(micros(50.0)).unwrap();
    let freight_code = FreightCode::new("150.5".to_string()).unwrap();

    let purchase = Purchase::new("原材料B".to_string(), unit_price, quantity, freight_code);

    assert_eq!(purchase.product_name, "原材料B");
    assert!(purchase.freight_code.is_direct_price());
    assert_eq!(purchase.freight_code.as_direct_price(), Some(micros(150.5)));
}
