use material_cost_engine::domain::entities::{
    FormulaEntry, InventoryTransaction, Production, Purchase,
};
use material_cost_engine::domain::services::{
    InventoryHistoryService, MaterialCostCalculationService, MaterialCostResult,
};
use material_cost_engine::domain::value_objects::{
    Amount, ConsumptionRatio, FreightCode, InventoryType, ProductCode, Quantity, TransactionDate,
    YieldRate,
};
use material_cost_engine::usecase::{
    InventoryHistoryRecordDto, MaterialConsumptionDto, MaterialCostResultDto,
};

/// A decimal number as a count of millionths.
fn micros(x: f64) -> i64 {
    (x * 1_000_000.0).round() as i64
}

/// A batch of 1000 that consumes 4 % of one material and 6 % of another.
fn batch() -> (Production, MaterialCostResult) {
    let production = Production::new(
        ProductCode::new("P003".to_string()).unwrap(),
        Quantity::new(micros(1000.0)).unwrap(),
        YieldRate::new(micros(0.92)).unwrap(),
        Amount::new(micros(150.0)).unwrap(),
        Amount::new(micros(75.0)).unwrap(),
    );
    let first = MaterialCostCalculationService::consume(
        &production.quantity,
        &FormulaEntry::new(
            ProductCode::new("M003".to_string()).unwrap(),
            ConsumptionRatio::new(micros(0.04)).unwrap(),
        ),
        &Purchase::new(
            "材料C".to_string(),
            Amount::new(micros(60.0)).unwrap(),
            Quantity::new(micros(150.0)).unwrap(),
            FreightCode::DirectPrice(micros(20.0)),
        ),
        micros(20.0),
    )
    .unwrap();
    let second = MaterialCostCalculationService::consume(
        &production.quantity,
        &FormulaEntry::new(
            ProductCode::new("M004".to_string()).unwrap(),
            ConsumptionRatio::new(micros(0.06)).unwrap(),
        ),
        &Purchase::new(
            "材料D".to_string(),
            Amount::new(micros(70.0)).unwrap(),
            Quantity::new(micros(180.0)).unwrap(),
            FreightCode::Code("T0002".to_string()),
        ),
        micros(25.0),
    )
    .unwrap();
    let total_freight_cost = first.freight_cost.add(&second.freight_cost);
    (
        production,
        MaterialCostResult {
            consumptions: vec![first, second],
            total_freight_cost,
        },
    )
}

#[test]
fn cost_figures_of_a_batch() {
    let (production, result) = batch();
    let figures = MaterialCostResultDto::from_result(7, &production, &result);
    assert_eq!(
        figures,
        MaterialCostResultDto {
            row_number: 7,
            // 60 * 40 + 70 * 60
            raw_material_cost: micros(6600.0),
            // 6600 / 100 kg * 1000
            unit_cost: micros(66000.0),
            // 6600 * 0.92
            yield_cost: micros(6072.0),
            coagulant_cost: micros(150.0),
            clay_treatment_cost: micros(75.0),
            // 20 * 40 + 25 * 60
            freight_cost: micros(2300.0),
            total_material_cost: micros(6072.0 + 150.0 + 75.0 + 2300.0),
        }
    );
    assert_eq!(
        MaterialCostResultDto::total_consumption_kg(&result.consumptions),
        micros(100.0)
    );
    assert_eq!(MaterialCostResultDto::total_consumption_kg(&[]), 0);
}

#[test]
fn cost_figures_of_a_batch_that_consumes_nothing() {
    let (production, _) = batch();
    let nothing = MaterialCostResult {
        consumptions: Vec::new(),
        total_freight_cost: Amount::zero(),
    };
    let figures = MaterialCostResultDto::from_result(2, &production, &nothing);
    assert_eq!(figures.raw_material_cost, 0);
    assert_eq!(figures.unit_cost, 0);
    assert_eq!(figures.yield_cost, 0);
    assert_eq!(figures.total_material_cost, micros(225.0));
}

#[test]
fn consumption_records_hold_the_same_values() {
    let (_, result) = batch();
    let records = MaterialConsumptionDto::from_consumptions(&result.consumptions);
    assert_eq!(records.len(), 2);
    assert_eq!(records[0].material_code, "M003");
    assert_eq!(records[0].material_name, "材料C");
    assert_eq!(records[0].quantity, micros(40.0));
    assert_eq!(records[0].unit_price, micros(60.0));
    assert_eq!(records[0].total_cost, micros(2400.0));
    assert_eq!(records[0].freight_cost, micros(800.0));
    assert_eq!(records[0].purchase_quantity, micros(150.0));
    assert_eq!(records[0].freight_code_str, "20.00");
    assert_eq!(records[0].freight_kg_price, micros(20.0));
    assert_eq!(records[1].material_code, "M004");
    assert_eq!(records[1].freight_code_str, "T0002");
    assert_eq!(records[1].freight_cost, micros(1500.0));
}

#[test]
fn ledger_records_hold_the_same_values() {
    let history = InventoryHistoryService::create_history(vec![
        InventoryTransaction::new(
            TransactionDate::new("2024-01-02".to_string()).unwrap(),
            InventoryType::Sales,
            ProductCode::new("K1".to_string()).unwrap(),
            "製品".to_string(),
            Quantity::new(micros(30.0)).unwrap(),
        ),
    ])
    .unwrap();
    let record: InventoryHistoryRecordDto = InventoryHistoryRecordDto::from_record(&history[0]);
    assert_eq!(record.date, "2024-01-02");
    assert_eq!(record.inventory_type, "売上");
    assert_eq!(record.product_code, "K1");
    assert_eq!(record.product_name, "製品");
    assert_eq!(record.base_quantity, 0);
    assert_eq!(record.change_quantity, micros(30.0));
    assert_eq!(record.balance, micros(-30.0) as i128);
}
