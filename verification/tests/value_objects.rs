use material_cost_engine::domain::value_objects::{
    Amount, ConsumptionRatio, FreightCode, InventoryBalance, InventoryType, PatternName,
    ProductCode, Quantity, TransactionDate, YieldRate,
};
use material_cost_engine::error::{DomainError, ValidationError};

/// A decimal number as a count of millionths.
fn micros(x: f64) -> i64 {
    (x * 1_000_000.0).round() as i64
}

#[test]
fn test_quantity_valid() {
    let qty = Quantity::new(micros(100.0)).unwrap();
    assert_eq!(qty.value(), micros(100.0));
}

#[test]
fn test_quantity_zero() {
    let qty = Quantity::new(micros(0.0)).unwrap();
    assert_eq!(qty.value(), micros(0.0));
}

#[test]
fn test_quantity_negative() {
    let result = Quantity::new(micros(-10.0));
    assert!(result.is_err());
}

#[test]
fn test_quantity_decimal() {
    let qty = Quantity::new(micros(123.456)).unwrap();
    assert_eq!(qty.value(), micros(123.456));
    assert_eq!(qty.value(), 123_456_000);
}

#[test]
fn test_amount_valid() {
    let amount = Amount::new(micros(1000.0)).unwrap();
    assert_eq!(amount.value(), micros(1000.0));
}

#[test]
fn test_amount_zero() {
    let amount = Amount::zero();
    assert_eq!(amount.value(), micros(0.0));
}

#[test]
fn test_amount_negative() {
    let result = Amount::new(micros(-100.0));
    assert!(result.is_err());
}

#[test]
fn test_amount_add() {
    let a1 = Amount::new(micros(100.0)).unwrap();
    let a2 = Amount::new(micros(200.0)).unwrap();
    let result = a1.add(&a2);
    assert_eq!(result.value(), micros(300.0));
}

#[test]
fn test_amount_multiply() {
    let amount = Amount::new(micros(100.0)).unwrap();
    let result = amount.multiply(micros(2.5));
    assert_eq!(result.value(), micros(250.0));
}

#[test]
fn test_amount_divide() {
    let amount = Amount::new(micros(100.0)).unwrap();
    let result = amount.divide_by(micros(4.0));
    assert_eq!(result.value(), micros(25.0));
}

#[test]
fn test_yield_rate_valid() {
    let rate = YieldRate::new(micros(0.95)).unwrap();
    assert_eq!(rate.value(), micros(0.95));
}

#[test]
fn test_yield_rate_zero() {
    let rate = YieldRate::new(micros(0.0)).unwrap();
    assert_eq!(rate.value(), micros(0.0));
}

#[test]
fn test_yield_rate_one() {
    let rate = YieldRate::new(micros(1.0)).unwrap();
    assert_eq!(rate.value(), micros(1.0));
}

#[test]
fn test_yield_rate_negative() {
    let result = YieldRate::new(micros(-0.1));
    assert!(result.is_err());
}

#[test]
fn test_yield_rate_over_one() {
    let result = YieldRate::new(micros(1.5));
    assert!(result.is_err());
}

#[test]
fn test_consumption_ratio_valid() {
    let ratio = ConsumptionRatio::new(micros(0.5)).unwrap();
    assert_eq!(ratio.value(), micros(0.5));
}

#[test]
fn test_consumption_ratio_zero() {
    let ratio = ConsumptionRatio::new(micros(0.0)).unwrap();
    assert_eq!(ratio.value(), micros(0.0));
}

#[test]
fn test_consumption_ratio_large() {
    let ratio = ConsumptionRatio::new(micros(10.5)).unwrap();
    assert_eq!(ratio.value(), micros(10.5));
}

#[test]
fn test_consumption_ratio_negative() {
    let result = ConsumptionRatio::new(micros(-0.5));
    assert!(result.is_err());
}

#[test]
fn test_inventory_balance_positive() {
    let balance = InventoryBalance::new(micros(100.0) as i128).unwrap();
    assert_eq!(balance.value(), micros(100.0) as i128);
}

#[test]
fn test_inventory_balance_zero() {
    let balance = InventoryBalance::new(micros(0.0) as i128).unwrap();
    assert_eq!(balance.value(), micros(0.0) as i128);
}

#[test]
fn test_inventory_balance_negative() {
    let balance = InventoryBalance::new(micros(-50.0) as i128).unwrap();
    assert_eq!(balance.value(), micros(-50.0) as i128);
}

#[test]
fn test_inventory_type_production() {
    let inv_type = InventoryType::Production;
    assert_eq!(inv_type.as_str(), "生産");
}

#[test]
fn test_inventory_type_purchase() {
    let inv_type = InventoryType::Purchase;
    assert_eq!(inv_type.as_str(), "仕入");
}

#[test]
fn test_inventory_type_sales() {
    let inv_type = InventoryType::Sales;
    assert_eq!(inv_type.as_str(), "売上");
}

#[test]
fn test_inventory_type_equality() {
    let inv1 = InventoryType::Production;
    let inv2 = InventoryType::Production;
    assert_eq!(inv1, inv2);
}

#[test]
fn test_product_code_valid() {
    let code = ProductCode::new("P001".to_string()).unwrap();
    assert_eq!(code.value(), "P001");
}

#[test]
fn test_product_code_with_whitespace() {
    let code = ProductCode::new("  P001  ".to_string()).unwrap();
    assert_eq!(code.value(), "P001");
}

#[test]
fn test_product_code_empty() {
    let result = ProductCode::new("".to_string());
    assert!(result.is_err());
}

#[test]
fn test_product_code_whitespace_only() {
    let result = ProductCode::new("   ".to_string());
    assert!(result.is_err());
}

#[test]
fn test_pattern_name_valid() {
    let name = PatternName::new("標準運賃".to_string()).unwrap();
    assert_eq!(name.value(), "標準運賃");
}

#[test]
fn test_pattern_name_with_whitespace() {
    let name = PatternName::new("  標準運賃  ".to_string()).unwrap();
    assert_eq!(name.value(), "標準運賃");
}

#[test]
fn test_pattern_name_empty() {
    let result = PatternName::new("".to_string());
    assert!(result.is_err());
}

#[test]
fn test_pattern_name_whitespace_only() {
    let result = PatternName::new("   ".to_string());
    assert!(result.is_err());
}

#[test]
fn test_pattern_name_equality() {
    let name1 = PatternName::new("標準運賃".to_string()).unwrap();
    let name2 = PatternName::new("標準運賃".to_string()).unwrap();
    assert_eq!(name1, name2);
}

#[test]
fn test_freight_code_valid_code() {
    let code = FreightCode::new("T0001".to_string()).unwrap();
    assert!(code.is_code());
    assert_eq!(code.as_code(), Some("T0001"));
}

#[test]
fn test_freight_code_valid_direct_price() {
    let code = FreightCode::new("150.5".to_string()).unwrap();
    assert!(code.is_direct_price());
    assert_eq!(code.as_direct_price(), Some(micros(150.5)));
}

#[test]
fn test_freight_code_zero_price() {
    let code = FreightCode::new("0".to_string()).unwrap();
    assert!(code.is_direct_price());
    assert_eq!(code.as_direct_price(), Some(micros(0.0)));
}

#[test]
fn test_freight_code_negative_price() {
    let result = FreightCode::new("-10".to_string());
    assert!(result.is_err());
}

#[test]
fn test_freight_code_invalid_format() {
    let result = FreightCode::new("ABC123".to_string());
    assert!(result.is_err());
}

#[test]
fn test_freight_code_invalid_length() {
    let result = FreightCode::new("T001".to_string());
    assert!(result.is_err());
}

#[test]
fn test_freight_code_invalid_prefix() {
    let result = FreightCode::new("A0001".to_string());
    assert!(result.is_err());
}

#[test]
fn test_freight_code_empty() {
    let result = FreightCode::new("".to_string());
    assert!(result.is_err());
}

#[test]
fn test_freight_code_with_whitespace() {
    let code = FreightCode::new("  T0001  ".to_string()).unwrap();
    assert!(code.is_code());
    assert_eq!(code.as_code(), Some("T0001"));
}

#[test]
fn test_transaction_date_valid_hyphen() {
    let date = TransactionDate::new("2024-01-15".to_string()).unwrap();
    assert_eq!(date.value(), "2024-01-15");
}

#[test]
fn test_transaction_date_valid_slash() {
    let date = TransactionDate::new("2024/01/15".to_string()).unwrap();
    assert_eq!(date.value(), "2024/01/15");
}

#[test]
fn test_transaction_date_valid_dot() {
    let date = TransactionDate::new("2024.01.15".to_string()).unwrap();
    assert_eq!(date.value(), "2024.01.15");
}

#[test]
fn test_transaction_date_leap_year() {
    let date = TransactionDate::new("2024-02-29".to_string()).unwrap();
    assert_eq!(date.value(), "2024-02-29");
}

#[test]
fn test_transaction_date_non_leap_year() {
    let result = TransactionDate::new("2023-02-29".to_string());
    assert!(result.is_err());
}

#[test]
fn test_transaction_date_empty() {
    let result = TransactionDate::new("".to_string());
    assert!(result.is_err());
}

#[test]
fn test_transaction_date_invalid_format() {
    let result = TransactionDate::new("20240115".to_string());
    assert!(result.is_err());
}

#[test]
fn test_transaction_date_invalid_month() {
    let result = TransactionDate::new("2024-13-01".to_string());
    assert!(result.is_err());
}

#[test]
fn test_transaction_date_invalid_day() {
    let result = TransactionDate::new("2024-01-32".to_string());
    assert!(result.is_err());
}

#[test]
fn test_transaction_date_ordering() {
    let date1 = TransactionDate::new("2024-01-15".to_string()).unwrap();
    let date2 = TransactionDate::new("2024-02-20".to_string()).unwrap();
    assert!(date1 < date2);
}

#[test]
fn error_variants_of_value_objects() {
    assert_eq!(
        Quantity::new(-1).unwrap_err(),
        DomainError::Validation(ValidationError::NegativeQuantity(-1))
    );
    assert_eq!(
        Amount::new(-2).unwrap_err(),
        DomainError::Validation(ValidationError::NegativeAmount(-2))
    );
    assert_eq!(
        YieldRate::new(1_000_001).unwrap_err(),
        DomainError::Validation(ValidationError::YieldRateOutOfRange(1_000_001))
    );
    assert_eq!(
        ConsumptionRatio::new(-3).unwrap_err(),
        DomainError::Validation(ValidationError::NegativeConsumptionRatio(-3))
    );
    assert_eq!(
        ProductCode::new(" \u{3000}\t".to_string()).unwrap_err(),
        DomainError::Validation(ValidationError::EmptyProductCode)
    );
    assert_eq!(
        PatternName::new(String::new()).unwrap_err(),
        DomainError::Validation(ValidationError::EmptyPatternName)
    );
    assert_eq!(
        TransactionDate::new("  ".to_string()).unwrap_err(),
        DomainError::Validation(ValidationError::EmptyDate)
    );
    assert_eq!(
        TransactionDate::new(" 2024-02-30 ".to_string()).unwrap_err(),
        DomainError::Validation(ValidationError::InvalidDate("2024-02-30".to_string()))
    );
    assert_eq!(
        FreightCode::new(" ".to_string()).unwrap_err(),
        DomainError::Validation(ValidationError::EmptyFreightCode)
    );
    assert_eq!(
        FreightCode::new(" -0.5 ".to_string()).unwrap_err(),
        DomainError::Validation(ValidationError::NegativeFreightPrice("-0.5".to_string()))
    );
    assert_eq!(
        FreightCode::new("T12345".to_string()).unwrap_err(),
        DomainError::Validation(ValidationError::InvalidFreightCode("T12345".to_string()))
    );
}

#[test]
fn dates_are_read_part_by_part() {
    for valid in [
        "2024-1-5",
        "+2024-01-15",
        "2024/+1/+5",
        "02024.001.0015",
        " 2024-01-15\u{3000}",
        "2000-02-29",
        "1900-01-01",
        "2100-12-31",
    ] {
        assert!(TransactionDate::new(valid.to_string()).is_ok(), "{}", valid);
        assert!(TransactionDate::is_valid_date_format(valid.trim()), "{}", valid);
    }
    for invalid in [
        "1900-02-29",
        "1899-12-31",
        "2101-01-01",
        "2024-04-31",
        "2024-00-10",
        "2024-01-00",
        "2024-01-15-",
        "2024--01-15",
        "-2024/01/15",
        "2024/01-15",
        "2024.01/15",
        "2024-01",
        "2024-01-15-16",
        "2024-0 1-15",
        "２０２４-01-15",
        "2024-01-1５",
        "99999999999999999999-01-15",
        "2024-01-99999999999999999999",
        "2024年1月15日",
    ] {
        assert!(TransactionDate::new(invalid.to_string()).is_err(), "{}", invalid);
        assert!(!TransactionDate::is_valid_date_format(invalid), "{}", invalid);
    }
    // the separator is `-` wherever a `-` occurs
    assert!(TransactionDate::new("2024/01/15".to_string()).is_ok());
    assert!(TransactionDate::new("2024/01/-15".to_string()).is_err());
}

#[test]
fn dates_are_ordered_by_the_calendar_and_then_by_the_text() {
    let date = |text: &str| TransactionDate::new(text.to_string()).unwrap();
    assert!(date("2024-9-30") < date("2024-10-01"));
    assert!(date("2023/12/31") < date("2024-01-01"));
    assert!(date("2024-01-15") < date("2024.01.15"));
    assert!(date("2024.01.15") < date("2024/01/15"));
    assert!(date("2024-01-15") == date(" 2024-01-15 "));
    assert!(date("2024-01-15") != date("2024-1-15"));
    assert!(!(date("2024-01-15") < date("2024-01-15")));
    assert!(date("2024-02-20") > date("2024-01-15"));
    assert_eq!(date("2024-01-15").order(&date("2024-02-20")), -1);
    assert_eq!(date("2024-01-15").order(&date("2024-01-15")), 0);
    assert_eq!(date("2024-02-20").order(&date("2024-01-15")), 1);
}

#[test]
fn freight_codes_are_prices_or_master_codes() {
    for (text, price) in [("150.5", 150_500_000), ("0", 0), ("+7", 7_000_000), (".5", 500_000), ("-0", 0), ("-0.0", 0), ("0.0000009", 0)]
    {
        let code = FreightCode::new(text.to_string()).unwrap();
        assert_eq!(code.as_direct_price(), Some(price), "{}", text);
        assert!(code.as_code().is_none());
    }
    for text in ["T0000", "T9999", "\tT1234\n"] {
        let code = FreightCode::new(text.to_string()).unwrap();
        assert_eq!(code.as_code(), Some(text.trim()));
        assert!(code.as_direct_price().is_none());
    }
    for text in ["t0001", "T00001", "T００01", "T 001", "TT001", "1e3", "inf", "NaN", "1,5", "--1"] {
        assert_eq!(
            FreightCode::new(text.to_string()).unwrap_err(),
            DomainError::Validation(ValidationError::InvalidFreightCode(text.to_string())),
            "{}",
            text
        );
    }
    for text in ["-10", "-0.0000001", "-.5"] {
        assert_eq!(
            FreightCode::new(text.to_string()).unwrap_err(),
            DomainError::Validation(ValidationError::NegativeFreightPrice(text.to_string())),
            "{}",
            text
        );
    }
}

#[test]
fn amounts_are_capped_and_rounded_down() {
    let most = Amount::new(i64::MAX).unwrap();
    let one = Amount::new(1).unwrap();
    assert_eq!(most.add(&one).value(), i64::MAX);
    assert_eq!(most.multiply(micros(2.0)).value(), i64::MAX);
    assert_eq!(most.multiply(micros(1.0)).value(), i64::MAX);
    assert_eq!(most.multiply(micros(0.5)).value(), i64::MAX / 2);
    assert_eq!(most.divide_by(1).value(), i64::MAX);
    assert_eq!(one.multiply(micros(0.999999)).value(), 0);
    assert_eq!(Amount::new(micros(10.0)).unwrap().divide_by(micros(3.0)).value(), 3_333_333);
    assert_eq!(Amount::new(micros(1.0)).unwrap().multiply(0).value(), 0);
    assert_eq!(Amount::zero().add(&Amount::zero()).value(), 0);
}
