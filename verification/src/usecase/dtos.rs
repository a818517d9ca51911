use crate::domain::entities::production::ProductionView;
use crate::domain::entities::Production;
use crate::domain::services::inventory_history::InventoryHistoryRecordView;
use crate::domain::services::material_cost::{
    consumption_views, material_cost_sum, unit_cost_of, MaterialConsumptionView,
    MaterialCostResultView,
};
use crate::domain::services::{
    InventoryHistoryRecord, MaterialConsumption, MaterialCostCalculationService,
    MaterialCostResult,
};
use crate::fixed_point::{add_saturating, saturate, scaled_product};
use vstd::prelude::*;

verus! {

/// What a batch consumes of one material, for presentation. Numbers are in
/// millionths.
#[derive(Debug, Clone)]
pub struct MaterialConsumptionDto {
    pub material_code: String,
    pub material_name: String,
    pub quantity: i64,
    pub unit_price: i64,
    pub total_cost: i64,
    pub freight_cost: i64,
    pub purchase_quantity: i64,
    pub freight_code_str: String,
    pub freight_kg_price: i64,
}

impl View for MaterialConsumptionDto {
    type V = MaterialConsumptionView;

    open spec fn view(&self) -> MaterialConsumptionView {
        MaterialConsumptionView {
            material_code: self.material_code@,
            material_name: self.material_name@,
            quantity: self.quantity as int,
            unit_price: self.unit_price as int,
            total_cost: self.total_cost as int,
            freight_cost: self.freight_cost as int,
            purchase_quantity: self.purchase_quantity as int,
            freight_code_str: self.freight_code_str@,
            freight_kg_price: self.freight_kg_price as int,
        }
    }
}

impl MaterialConsumptionDto {
    /// The record of a consumption: the same values.
    pub fn from_consumption(consumption: &MaterialConsumption) -> (dto: MaterialConsumptionDto)
        ensures
            dto@ == consumption@,
    {
        MaterialConsumptionDto {
            material_code: consumption.material_code.value().to_owned(),
            material_name: consumption.material_name.clone(),
            quantity: consumption.quantity.value(),
            unit_price: consumption.unit_price.value(),
            total_cost: consumption.total_cost.value(),
            freight_cost: consumption.freight_cost.value(),
            purchase_quantity: consumption.purchase_quantity.value(),
            freight_code_str: consumption.freight_code_str.clone(),
            freight_kg_price: consumption.freight_kg_price,
        }
    }

    /// The records of the consumptions, in the same order.
    pub fn from_consumptions(consumptions: &[MaterialConsumption]) -> (dtos: Vec<
        MaterialConsumptionDto,
    >)
        ensures
            dtos@.len() == consumptions@.len(),
            forall|i: int| 0 <= i < dtos@.len() ==> (#[trigger] dtos@[i])@ == consumptions@[i]@,
    {
        let mut dtos: Vec<MaterialConsumptionDto> = Vec::new();
        let mut i: usize = 0;
        while i < consumptions.len()
            invariant
                i <= consumptions@.len(),
                dtos@.len() == i,
                forall|k: int| 0 <= k < i ==> (#[trigger] dtos@[k])@ == consumptions@[k]@,
            decreases consumptions@.len() - i,
        {
            dtos.push(Self::from_consumption(&consumptions[i]));
            i += 1;
        }
        dtos
    }
}

/// The quantities consumed, added up.
pub open spec fn quantity_sum(consumptions: Seq<MaterialConsumptionView>) -> int
    decreases consumptions.len(),
{
    if consumptions.len() == 0 {
        0
    } else {
        quantity_sum(consumptions.drop_last()) + consumptions.last().quantity
    }
}

/// The cost figures of one production batch, for presentation. Amounts are in
/// millionths.
#[derive(Debug, Clone, Copy, PartialEq, Eq, Structural)]
pub struct MaterialCostResultDto {
    /// The row of the production sheet that the batch stands in.
    pub row_number: usize,
    /// The material cost of all that was consumed, without freight.
    pub raw_material_cost: i64,
    /// The raw material cost per metric ton consumed.
    pub unit_cost: i64,
    /// The part of the raw material cost that remains at the batch's yield rate.
    pub yield_cost: i64,
    pub coagulant_cost: i64,
    pub clay_treatment_cost: i64,
    /// The freight of all that was consumed.
    pub freight_cost: i64,
    /// Yield cost, coagulant cost, clay treatment cost and freight cost together.
    pub total_material_cost: i64,
}

/// The cost figures of a batch with this consumption.
pub open spec fn cost_figures_of(
    row_number: usize,
    production: ProductionView,
    result: MaterialCostResultView,
) -> MaterialCostResultDto {
    let raw = saturate(material_cost_sum(result.consumptions));
    let consumed = saturate(quantity_sum(result.consumptions));
    let yield_cost = scaled_product(raw, production.yield_rate);
    MaterialCostResultDto {
        row_number,
        raw_material_cost: raw as i64,
        unit_cost: unit_cost_of(raw, consumed) as i64,
        yield_cost: yield_cost as i64,
        coagulant_cost: production.coagulant_cost as i64,
        clay_treatment_cost: production.clay_treatment_cost as i64,
        freight_cost: result.total_freight_cost as i64,
        total_material_cost: saturate(
            yield_cost + production.coagulant_cost + production.clay_treatment_cost
                + result.total_freight_cost,
        ) as i64,
    }
}

impl MaterialCostResultDto {
    /// The quantity that a batch consumes of all materials together, in millionths of
    /// a kilogram, capped at the largest quantity.
    pub fn total_consumption_kg(consumptions: &[MaterialConsumption]) -> (total: i64)
        ensures
            total == saturate(quantity_sum(consumption_views(consumptions@))),
            0 <= total,
    {
        let mut total: i64 = 0;
        let mut i: usize = 0;
        assert(consumption_views(consumptions@).take(0) =~= Seq::<
            MaterialConsumptionView,
        >::empty());
        while i < consumptions.len()
            invariant
                i <= consumptions@.len(),
                0 <= total,
                total == saturate(quantity_sum(consumption_views(consumptions@).take(i as int))),
                0 <= quantity_sum(consumption_views(consumptions@).take(i as int)),
            decreases consumptions@.len() - i,
        {
            proof {
                let views = consumption_views(consumptions@);
                assert(views.take(i + 1).drop_last() =~= views.take(i as int));
                assert(views.take(i + 1).last() == consumptions@[i as int]@);
            }
            total = add_saturating(total, consumptions[i].quantity.value());
            i += 1;
        }
        assert(consumption_views(consumptions@).take(i as int) =~= consumption_views(
            consumptions@,
        ));
        total
    }

    /// The cost figures of the production batch in row `row_number`, from what it
    /// consumes: raw material cost, its cost per ton consumed, what remains of it at
    /// the yield rate, and the total with coagulant, clay treatment and freight.
    pub fn from_result(
        row_number: usize,
        production: &Production,
        result: &MaterialCostResult,
    ) -> (dto: MaterialCostResultDto)
        ensures
            dto == cost_figures_of(row_number, production@, result@),
    {
        let raw_material_cost = MaterialCostCalculationService::calculate_raw_material_cost(
            result.consumptions.as_slice(),
        );
        let consumed = Self::total_consumption_kg(result.consumptions.as_slice());
        let unit_cost = MaterialCostCalculationService::calculate_unit_cost(
            &raw_material_cost,
            consumed,
        );
        let yield_cost = MaterialCostCalculationService::calculate_yield_cost(
            &raw_material_cost,
            &production.yield_rate,
        );
        let total_material_cost = MaterialCostCalculationService::calculate_total_material_cost(
            &yield_cost,
            &production.coagulant_cost,
            &production.clay_treatment_cost,
            &result.total_freight_cost,
        );
        MaterialCostResultDto {
            row_number,
            raw_material_cost: raw_material_cost.value(),
            unit_cost: unit_cost.value(),
            yield_cost: yield_cost.value(),
            coagulant_cost: production.coagulant_cost.value(),
            clay_treatment_cost: production.clay_treatment_cost.value(),
            freight_cost: result.total_freight_cost.value(),
            total_material_cost: total_material_cost.value(),
        }
    }
}

/// One line of the ledger, for presentation. Quantities are in millionths.
#[derive(Debug, Clone)]
pub struct InventoryHistoryRecordDto {
    pub date: String,
    /// The kind of event, by its label.
    pub inventory_type: String,
    pub product_code: String,
    pub product_name: String,
    pub base_quantity: i128,
    pub change_quantity: i64,
    pub balance: i128,
}

impl InventoryHistoryRecordDto {
    /// The record of a ledger line: the same values, the kind of event by its label.
    pub fn from_record(record: &InventoryHistoryRecord) -> (dto: InventoryHistoryRecordDto)
        ensures
            dto.date@ == record@.date,
            dto.inventory_type@ == record@.inventory_type.label(),
            dto.product_code@ == record@.product_code,
            dto.product_name@ == record@.product_name,
            dto.base_quantity == record@.base_quantity,
            dto.change_quantity == record@.change_quantity,
            dto.balance == record@.balance,
    {
        InventoryHistoryRecordDto {
            date: record.date.value().to_owned(),
            inventory_type: record.inventory_type.as_str().to_owned(),
            product_code: record.product_code.value().to_owned(),
            product_name: record.product_name.clone(),
            base_quantity: record.base_quantity.value(),
            change_quantity: record.change_quantity.value(),
            balance: record.balance.value(),
        }
    }
}

} // verus!
