use crate::domain::entities::formula_entry::FormulaEntryView;
use crate::domain::entities::purchase::PurchaseView;
use crate::domain::entities::{FormulaEntry, FreightMaster, Production, Purchase};
use crate::domain::repositories::{FormulaRepository, FreightMasterRepository, PurchaseRepository};
use crate::domain::value_objects::freight_code::FreightCodeView;
use crate::domain::value_objects::{Amount, FreightCode, ProductCode, Quantity, YieldRate};
use crate::error::{outcome, DomainError, DomainErrorView, ValidationErrorView};
use crate::fixed_point::{
    format_hundredths, hundredths_text, multiply_saturating, saturate, scaled_product,
    KG_PER_TON, SCALE,
};
use vstd::prelude::*;

verus! {

/// What one production batch consumes of one material, and what that costs.
#[derive(Debug, Clone)]
pub struct MaterialConsumption {
    pub material_code: ProductCode,
    pub material_name: String,
    /// The quantity consumed.
    pub quantity: Quantity,
    /// The price per unit of the material, without freight.
    pub unit_price: Amount,
    /// The price of the quantity consumed, without freight.
    pub total_cost: Amount,
    /// The freight of the quantity consumed.
    pub freight_cost: Amount,
    /// The quantity that was bought.
    pub purchase_quantity: Quantity,
    /// How the freight was priced: the code of the freight master, or the direct
    /// price written with two decimals.
    pub freight_code_str: String,
    /// The freight price per kilogram, in millionths.
    pub freight_kg_price: i64,
}

/// The consumption of one material as plain values.
pub struct MaterialConsumptionView {
    pub material_code: Seq<char>,
    pub material_name: Seq<char>,
    pub quantity: int,
    pub unit_price: int,
    pub total_cost: int,
    pub freight_cost: int,
    pub purchase_quantity: int,
    pub freight_code_str: Seq<char>,
    pub freight_kg_price: int,
}

impl View for MaterialConsumption {
    type V = MaterialConsumptionView;

    open spec fn view(&self) -> MaterialConsumptionView {
        MaterialConsumptionView {
            material_code: self.material_code@,
            material_name: self.material_name@,
            quantity: self.quantity@,
            unit_price: self.unit_price@,
            total_cost: self.total_cost@,
            freight_cost: self.freight_cost@,
            purchase_quantity: self.purchase_quantity@,
            freight_code_str: self.freight_code_str@,
            freight_kg_price: self.freight_kg_price as int,
        }
    }
}

/// What one production batch consumes, material by material, and the freight of all
/// of it.
#[derive(Debug, Clone)]
pub struct MaterialCostResult {
    pub consumptions: Vec<MaterialConsumption>,
    pub total_freight_cost: Amount,
}

/// The consumption of a batch as plain values.
pub struct MaterialCostResultView {
    pub consumptions: Seq<MaterialConsumptionView>,
    pub total_freight_cost: int,
}

impl View for MaterialCostResult {
    type V = MaterialCostResultView;

    open spec fn view(&self) -> MaterialCostResultView {
        MaterialCostResultView {
            consumptions: consumption_views(self.consumptions@),
            total_freight_cost: self.total_freight_cost@,
        }
    }
}

/// The consumptions as plain values, in the same order.
pub open spec fn consumption_views(consumptions: Seq<MaterialConsumption>) -> Seq<
    MaterialConsumptionView,
> {
    consumptions.map_values(|c: MaterialConsumption| c@)
}

/// How the freight of a purchase is written in a consumption record.
pub open spec fn freight_description(freight_code: FreightCodeView) -> Seq<char> {
    match freight_code {
        FreightCodeView::Code(code) => code,
        FreightCodeView::DirectPrice(price) => hundredths_text(price),
    }
}

/// What a batch of `production_quantity` consumes of one material, given the recipe
/// line, the latest purchase of the material and the freight price per kilogram that
/// holds for it.
///
/// The quantity consumed is the production quantity times the consumption ratio.
/// Material cost and freight cost are unit price and freight price times the quantity
/// consumed, not the quantity bought. A freight price below zero is no amount: it is
/// an error as soon as anything is consumed.
pub open spec fn consumption_of(
    production_quantity: int,
    formula: FormulaEntryView,
    purchase: PurchaseView,
    freight_kg_price: int,
) -> Result<MaterialConsumptionView, DomainErrorView> {
    let quantity = saturate(scaled_product(production_quantity, formula.consumption_ratio));
    if freight_kg_price < 0 && quantity > 0 {
        Err(
            DomainErrorView::Validation(
                ValidationErrorView::NegativeAmount(freight_kg_price as i64),
            ),
        )
    } else {
        Ok(
            MaterialConsumptionView {
                material_code: formula.material_code,
                material_name: purchase.product_name,
                quantity,
                unit_price: purchase.unit_price,
                total_cost: saturate(scaled_product(purchase.unit_price, quantity)),
                freight_cost: if freight_kg_price < 0 {
                    0
                } else {
                    saturate(scaled_product(freight_kg_price, quantity))
                },
                purchase_quantity: purchase.quantity,
                freight_code_str: freight_description(purchase.freight_code),
                freight_kg_price,
            },
        )
    }
}

/// The freight costs of the consumptions, added up.
pub open spec fn freight_sum(consumptions: Seq<MaterialConsumptionView>) -> int
    decreases consumptions.len(),
{
    if consumptions.len() == 0 {
        0
    } else {
        freight_sum(consumptions.drop_last()) + consumptions.last().freight_cost
    }
}

/// The material costs of the consumptions, added up.
pub open spec fn material_cost_sum(consumptions: Seq<MaterialConsumptionView>) -> int
    decreases consumptions.len(),
{
    if consumptions.len() == 0 {
        0
    } else {
        material_cost_sum(consumptions.drop_last()) + consumptions.last().total_cost
    }
}

/// Whether `consumption` is what a batch of `production_quantity` consumes of some
/// material.
pub open spec fn is_consumption_of(
    production_quantity: int,
    consumption: MaterialConsumptionView,
) -> bool {
    exists|formula: FormulaEntryView, purchase: PurchaseView|
        #[trigger] consumption_of(
            production_quantity,
            formula,
            purchase,
            consumption.freight_kg_price,
        ) == Ok::<MaterialConsumptionView, DomainErrorView>(consumption)
}

/// Whether `result` is a cost breakdown a batch of `production_quantity` can have:
/// every line is the consumption of some material, and the total freight is the sum
/// of the lines' freight.
pub open spec fn is_cost_result_of(
    production_quantity: int,
    result: MaterialCostResultView,
) -> bool {
    &&& forall|i: int|
        0 <= i < result.consumptions.len() ==> is_consumption_of(
            production_quantity,
            #[trigger] result.consumptions[i],
        )
    &&& result.total_freight_cost == saturate(freight_sum(result.consumptions))
}

/// Whether `price` is what asking for the freight price of `freight_code` can give: a
/// direct price itself; for a code of the freight master, the price per kilogram of an
/// entry that the repository can answer when asked for the code, or the error that it
/// can answer.
pub open spec fn is_freight_price_answer<FR: FreightMasterRepository>(
    freight_repo: &FR,
    freight_code: FreightCode,
    price: Result<i64, DomainError>,
) -> bool {
    match freight_code {
        FreightCode::DirectPrice(direct) => price == Ok::<i64, DomainError>(direct),
        FreightCode::Code(code) => exists|key: &str, found: Result<FreightMaster, DomainError>|
            key@ == code@ && #[trigger] call_ensures(
                FR::find_by_code,
                (freight_repo, key),
                found,
            ) && price == match found {
                Ok(entry) => Ok::<i64, DomainError>(entry.kg_unit_price@ as i64),
                Err(error) => Err::<i64, DomainError>(error),
            },
    }
}

/// What the repositories answered for one line of a recipe: the purchase of the
/// material, and the freight price that holds for the purchase.
pub struct LineAnswer {
    pub purchase: Result<Purchase, DomainError>,
    /// Of no account where there is no purchase.
    pub freight_price: Result<i64, DomainError>,
}

/// Whether `answer` is what the repositories can answer for the recipe line
/// `formula`: the purchase repository when asked for the line's material, and, where
/// it answers with a purchase, the freight price of that purchase.
pub open spec fn is_answer_for<P: PurchaseRepository, FR: FreightMasterRepository>(
    purchase_repo: &P,
    freight_repo: &FR,
    formula: FormulaEntry,
    answer: LineAnswer,
) -> bool {
    &&& call_ensures(P::find_latest_price, (purchase_repo, &formula.material_code), answer.purchase)
    &&& answer.purchase matches Ok(purchase) ==> is_freight_price_answer(
        freight_repo,
        purchase.freight_code,
        answer.freight_price,
    )
}

/// What a recipe line comes to with the answers of the repositories: the error of the
/// purchase repository, else the error of the freight price, else the consumption of
/// the material, which is in error for a freight price below zero.
pub open spec fn line_outcome(
    production_quantity: int,
    formula: FormulaEntryView,
    answer: LineAnswer,
) -> Result<MaterialConsumptionView, DomainErrorView> {
    match answer.purchase {
        Err(error) => Err(error@),
        Ok(purchase) => match answer.freight_price {
            Err(error) => Err(error@),
            Ok(price) => consumption_of(production_quantity, formula, purchase@, price as int),
        },
    }
}

/// What the first `n` lines of a recipe come to, taken in order: the consumptions of
/// all of them, or the error of the first line that is in error.
pub open spec fn lines_outcome(
    production_quantity: int,
    formulas: Seq<FormulaEntry>,
    answers: Seq<LineAnswer>,
    n: nat,
) -> Result<Seq<MaterialConsumptionView>, DomainErrorView>
    decreases n,
{
    if n == 0 {
        Ok(Seq::empty())
    } else {
        match lines_outcome(production_quantity, formulas, answers, (n - 1) as nat) {
            Err(error) => Err(error),
            Ok(before) => match line_outcome(
                production_quantity,
                formulas[n - 1]@,
                answers[n - 1],
            ) {
                Err(error) => Err(error),
                Ok(line) => Ok(before.push(line)),
            },
        }
    }
}

/// Whether `answers` are what the repositories can answer for the lines of a recipe,
/// asked line by line until a line is in error: one answer for each line, or fewer
/// where the last line answered is in error, and no line in error before the last.
pub open spec fn answers_fit<P: PurchaseRepository, FR: FreightMasterRepository>(
    production_quantity: int,
    purchase_repo: &P,
    freight_repo: &FR,
    formulas: Seq<FormulaEntry>,
    answers: Seq<LineAnswer>,
) -> bool {
    &&& answers.len() <= formulas.len()
    &&& forall|i: int|
        0 <= i < answers.len() ==> is_answer_for(
            purchase_repo,
            freight_repo,
            formulas[i],
            #[trigger] answers[i],
        )
    &&& forall|i: int|
        0 <= i < answers.len() - 1 ==> line_outcome(
            production_quantity,
            formulas[i]@,
            #[trigger] answers[i],
        ) is Ok
    &&& answers.len() < formulas.len() ==> answers.len() > 0 && line_outcome(
        production_quantity,
        formulas[answers.len() - 1]@,
        answers.last(),
    ) is Err
}

/// What the calculation comes to with the answers of the repositories: the error of
/// the formula repository; else the error of the first recipe line that is in error;
/// else the consumptions of all lines, in the order of the recipe, with the sum of
/// their freight.
pub open spec fn calculation_outcome(
    production_quantity: int,
    recipe_found: Result<Vec<FormulaEntry>, DomainError>,
    answers: Seq<LineAnswer>,
) -> Result<MaterialCostResultView, DomainErrorView> {
    match recipe_found {
        Err(error) => Err(error@),
        Ok(formulas) => match lines_outcome(
            production_quantity,
            formulas@,
            answers,
            answers.len(),
        ) {
            Err(error) => Err(error),
            Ok(lines) => Ok(
                MaterialCostResultView {
                    consumptions: lines,
                    total_freight_cost: saturate(freight_sum(lines)),
                },
            ),
        },
    }
}

/// Whether `outcome` is what the calculation for `production` comes to where the
/// repositories answer `recipe_found` and `answers`: the formula repository can
/// answer `recipe_found` when asked for the product of the batch, the answers fit the
/// lines of that recipe, and the outcome is what the answers make it.
pub open spec fn is_calculation_of<
    F: FormulaRepository,
    P: PurchaseRepository,
    FR: FreightMasterRepository,
>(
    production: &Production,
    formula_repo: &F,
    purchase_repo: &P,
    freight_repo: &FR,
    recipe_found: Result<Vec<FormulaEntry>, DomainError>,
    answers: Seq<LineAnswer>,
    outcome: Result<MaterialCostResultView, DomainErrorView>,
) -> bool {
    &&& call_ensures(
        F::find_by_product_code,
        (formula_repo, &production.product_code),
        recipe_found,
    )
    &&& recipe_found matches Ok(formulas) ==> answers_fit(
        production.quantity@,
        purchase_repo,
        freight_repo,
        formulas@,
        answers,
    )
    &&& outcome == calculation_outcome(production.quantity@, recipe_found, answers)
}

/// What the first lines of a recipe come to depends on the answers for those lines
/// alone.
proof fn lemma_lines_outcome_of_first(
    production_quantity: int,
    formulas: Seq<FormulaEntry>,
    answers: Seq<LineAnswer>,
    others: Seq<LineAnswer>,
    n: nat,
)
    requires
        n <= answers.len(),
        n <= others.len(),
        forall|i: int| 0 <= i < n ==> answers[i] == others[i],
    ensures
        lines_outcome(production_quantity, formulas, answers, n) == lines_outcome(
            production_quantity,
            formulas,
            others,
            n,
        ),
    decreases n,
{
    if n > 0 {
        lemma_lines_outcome_of_first(
            production_quantity,
            formulas,
            answers,
            others,
            (n - 1) as nat,
        );
    }
}

/// Where the lines before have come to their consumptions and the next line is in
/// error, the calculation comes to that error.
proof fn lemma_calculation_ends<
    F: FormulaRepository,
    P: PurchaseRepository,
    FR: FreightMasterRepository,
>(
    production: &Production,
    formula_repo: &F,
    purchase_repo: &P,
    freight_repo: &FR,
    formulas: Vec<FormulaEntry>,
    answers: Seq<LineAnswer>,
    answer: LineAnswer,
)
    requires
        call_ensures(
            F::find_by_product_code,
            (formula_repo, &production.product_code),
            Ok::<Vec<FormulaEntry>, DomainError>(formulas),
        ),
        answers.len() < formulas@.len(),
        forall|k: int|
            0 <= k < answers.len() ==> is_answer_for(
                purchase_repo,
                freight_repo,
                formulas@[k],
                #[trigger] answers[k],
            ),
        forall|k: int|
            0 <= k < answers.len() ==> line_outcome(
                production.quantity@,
                formulas@[k]@,
                #[trigger] answers[k],
            ) is Ok,
        lines_outcome(production.quantity@, formulas@, answers, answers.len()) is Ok,
        is_answer_for(purchase_repo, freight_repo, formulas@[answers.len() as int], answer),
        line_outcome(production.quantity@, formulas@[answers.len() as int]@, answer) is Err,
    ensures
        is_calculation_of(
            production,
            formula_repo,
            purchase_repo,
            freight_repo,
            Ok::<Vec<FormulaEntry>, DomainError>(formulas),
            answers.push(answer),
            Err::<MaterialCostResultView, DomainErrorView>(
                line_outcome(
                    production.quantity@,
                    formulas@[answers.len() as int]@,
                    answer,
                )->Err_0,
            ),
        ),
{
    let answered = answers.push(answer);
    lemma_lines_outcome_of_first(
        production.quantity@,
        formulas@,
        answers,
        answered,
        answers.len(),
    );
    assert forall|k: int| 0 <= k < answered.len() implies is_answer_for(
        purchase_repo,
        freight_repo,
        formulas@[k],
        #[trigger] answered[k],
    ) by {
        if k < answers.len() {
            assert(answered[k] == answers[k]);
        }
    }
    assert forall|k: int| 0 <= k < answered.len() - 1 implies line_outcome(
        production.quantity@,
        formulas@[k]@,
        #[trigger] answered[k],
    ) is Ok by {
        assert(answered[k] == answers[k]);
    }
    assert(answered.last() == answer);
}

/// Freight is apportioned by what is consumed: the freight cost of a material is its
/// freight price per kilogram times the quantity consumed, whatever quantity was
/// bought, and so is its material cost with the unit price.
pub proof fn lemma_freight_follows_consumption(
    production_quantity: int,
    formula: FormulaEntryView,
    purchase: PurchaseView,
    other_quantity: int,
    freight_kg_price: int,
)
    requires
        0 <= freight_kg_price,
    ensures
        consumption_of(production_quantity, formula, purchase, freight_kg_price) is Ok,
        ({
            let consumption = consumption_of(
                production_quantity,
                formula,
                purchase,
                freight_kg_price,
            )->Ok_0;
            let other = consumption_of(
                production_quantity,
                formula,
                PurchaseView { quantity: other_quantity, ..purchase },
                freight_kg_price,
            )->Ok_0;
            &&& consumption.quantity == saturate(
                scaled_product(production_quantity, formula.consumption_ratio),
            )
            &&& consumption.freight_cost == saturate(
                scaled_product(freight_kg_price, consumption.quantity),
            )
            &&& consumption.total_cost == saturate(
                scaled_product(purchase.unit_price, consumption.quantity),
            )
            &&& other.freight_cost == consumption.freight_cost
            &&& other.total_cost == consumption.total_cost
        }),
{
}

/// The cost per metric ton in millionths, from the cost in millionths of
/// `total_consumption_kg` millionths of a kilogram; zero where nothing was consumed.
pub open spec fn unit_cost_of(raw_material_cost: int, total_consumption_kg: int) -> int {
    if total_consumption_kg <= 0 {
        0
    } else {
        saturate((raw_material_cost * KG_PER_TON * SCALE) / total_consumption_kg)
    }
}

/// Computes what a production batch consumes and what that costs.
pub struct MaterialCostCalculationService;

impl MaterialCostCalculationService {
    /// The freight price per kilogram that holds for a purchase: the direct price
    /// where one is given, else the price that the freight master has for the code.
    ///
    /// With a direct price the repository is not asked. With a code the repository is
    /// asked for the code, and its answer decides: the price of the entry, or the error.
    pub fn resolve_freight_kg_price<FR: FreightMasterRepository>(
        freight_code: &FreightCode,
        freight_repo: &FR,
    ) -> (r: Result<i64, DomainError>)
        ensures
            is_freight_price_answer(freight_repo, *freight_code, r),
            freight_code@ matches FreightCodeView::DirectPrice(price) ==> r is Ok && r->Ok_0
                == price,
            freight_code@ is Code && r is Ok ==> r->Ok_0 >= 0,
    {
        match freight_code {
            FreightCode::DirectPrice(price) => Ok(*price),
            FreightCode::Code(code) => {
                let key = code.as_str();
                let found = freight_repo.find_by_code(key);
                let ghost answered = found;
                assert(call_ensures(FR::find_by_code, (freight_repo, key), answered));
                match found {
                    Ok(freight_master) => Ok(freight_master.kg_unit_price.value()),
                    Err(error) => Err(error),
                }
            },
        }
    }

    /// What a batch of `production_quantity` consumes of one material.
    pub fn consume(
        production_quantity: &Quantity,
        formula: &FormulaEntry,
        purchase: &Purchase,
        freight_kg_price: i64,
    ) -> (r: Result<MaterialConsumption, DomainError>)
        ensures
            outcome(r) == consumption_of(
                production_quantity@,
                formula@,
                purchase@,
                freight_kg_price as int,
            ),
    {
        let quantity_value = multiply_saturating(
            production_quantity.value(),
            formula.consumption_ratio.value(),
        );
        let quantity = Quantity::new(quantity_value)?;
        let freight_cost = if quantity_value == 0 {
            Amount::zero()
        } else {
            Amount::new(freight_kg_price)?.multiply(quantity_value)
        };
        let freight_code_str = match &purchase.freight_code {
            FreightCode::DirectPrice(price) => format_hundredths(*price),
            FreightCode::Code(code) => code.clone(),
        };
        Ok(
            MaterialConsumption {
                material_code: formula.material_code.clone(),
                material_name: purchase.product_name.clone(),
                quantity,
                unit_price: purchase.unit_price,
                total_cost: purchase.unit_price.multiply(quantity_value),
                freight_cost,
                purchase_quantity: purchase.quantity,
                freight_code_str,
                freight_kg_price,
            },
        )
    }

    /// What a production batch consumes, by its recipe, and what that costs.
    ///
    /// The formula repository is asked for the recipe of the product. For each line of
    /// the recipe, in order, the purchase repository is asked for the latest purchase
    /// of the material and, where the purchase names a freight code, the freight
    /// master repository for the entry of that code. The first lookup that fails, or
    /// the first line that is in error, ends the calculation with that error, and no
    /// further line is looked up. Else the result holds the consumption of every line
    /// and the sum of their freight.
    ///
    /// What the repositories answer decides the outcome, and it is all that does: the
    /// outcome is what `calculation_outcome` makes of their answers.
    pub fn calculate_material_consumption<F, P, FR>(
        production: &Production,
        formula_repo: &F,
        purchase_repo: &P,
        freight_repo: &FR,
    ) -> (r: Result<MaterialCostResult, DomainError>) where
        F: FormulaRepository,
        P: PurchaseRepository,
        FR: FreightMasterRepository,

        ensures
            exists|recipe_found: Result<Vec<FormulaEntry>, DomainError>, answers: Seq<LineAnswer>|
                #[trigger] is_calculation_of(
                    production,
                    formula_repo,
                    purchase_repo,
                    freight_repo,
                    recipe_found,
                    answers,
                    outcome(r),
                ),
            r matches Ok(result) ==> is_cost_result_of(production.quantity@, result@),
    {
        let recipe_found = formula_repo.find_by_product_code(&production.product_code);
        let ghost recipe_answered = recipe_found;
        let formulas = match recipe_found {
            Ok(formulas) => formulas,
            Err(error) => {
                assert(is_calculation_of(
                    production,
                    formula_repo,
                    purchase_repo,
                    freight_repo,
                    recipe_answered,
                    Seq::<LineAnswer>::empty(),
                    Err::<MaterialCostResultView, DomainErrorView>(error@),
                ));
                return Err(error);
            },
        };
        let ghost quantity = production.quantity@;
        let ghost mut answers: Seq<LineAnswer> = Seq::empty();
        let mut consumptions: Vec<MaterialConsumption> = Vec::new();
        let mut total_freight = Amount::zero();
        let mut i: usize = 0;
        assert(consumption_views(consumptions@) =~= Seq::<MaterialConsumptionView>::empty());
        while i < formulas.len()
            invariant
                i <= formulas@.len(),
                quantity == production.quantity@,
                recipe_answered == Ok::<Vec<FormulaEntry>, DomainError>(formulas),
                call_ensures(
                    F::find_by_product_code,
                    (formula_repo, &production.product_code),
                    recipe_answered,
                ),
                answers.len() == i,
                forall|k: int|
                    0 <= k < i ==> is_answer_for(
                        purchase_repo,
                        freight_repo,
                        formulas@[k],
                        #[trigger] answers[k],
                    ),
                forall|k: int|
                    0 <= k < i ==> line_outcome(
                        quantity,
                        formulas@[k]@,
                        #[trigger] answers[k],
                    ) is Ok,
                lines_outcome(quantity, formulas@, answers, i as nat) == Ok::<
                    Seq<MaterialConsumptionView>,
                    DomainErrorView,
                >(consumption_views(consumptions@)),
                total_freight.wf(),
                total_freight@ == saturate(freight_sum(consumption_views(consumptions@))),
                0 <= freight_sum(consumption_views(consumptions@)),
                forall|k: int|
                    0 <= k < consumptions@.len() ==> is_consumption_of(
                        production.quantity@,
                        #[trigger] consumption_views(consumptions@)[k],
                    ),
            decreases formulas@.len() - i,
        {
            let formula = &formulas[i];
            let purchase_found = purchase_repo.find_latest_price(&formula.material_code);
            let ghost purchase_answered = purchase_found;
            let purchase = match purchase_found {
                Ok(purchase) => purchase,
                Err(error) => {
                    proof {
                        let answer = LineAnswer {
                            purchase: purchase_answered,
                            freight_price: Ok(0),
                        };
                        lemma_calculation_ends(
                            production,
                            formula_repo,
                            purchase_repo,
                            freight_repo,
                            formulas,
                            answers,
                            answer,
                        );
                    }
                    return Err(error);
                },
            };
            let price_found = Self::resolve_freight_kg_price(&purchase.freight_code, freight_repo);
            let ghost answer = LineAnswer {
                purchase: purchase_answered,
                freight_price: price_found,
            };
            let freight_kg_price = match price_found {
                Ok(price) => price,
                Err(error) => {
                    proof {
                        lemma_calculation_ends(
                            production,
                            formula_repo,
                            purchase_repo,
                            freight_repo,
                            formulas,
                            answers,
                            answer,
                        );
                    }
                    return Err(error);
                },
            };
            let consumption = match Self::consume(
                &production.quantity,
                formula,
                &purchase,
                freight_kg_price,
            ) {
                Ok(consumption) => consumption,
                Err(error) => {
                    proof {
                        lemma_calculation_ends(
                            production,
                            formula_repo,
                            purchase_repo,
                            freight_repo,
                            formulas,
                            answers,
                            answer,
                        );
                    }
                    return Err(error);
                },
            };
            total_freight = total_freight.add(&consumption.freight_cost);
            proof {
                let before = consumption_views(consumptions@);
                let after = consumption_views(consumptions@.push(consumption));
                assert(after =~= before.push(consumption@));
                assert(after.drop_last() =~= before);
                assert(after.last() == consumption@);
                use_type_invariant(&consumption.freight_cost);
                assert(consumption_of(
                    production.quantity@,
                    formula@,
                    purchase@,
                    consumption@.freight_kg_price,
                ) == Ok::<MaterialConsumptionView, DomainErrorView>(consumption@));
                assert forall|k: int| 0 <= k < after.len() implies is_consumption_of(
                    production.quantity@,
                    #[trigger] after[k],
                ) by {
                    if k < before.len() {
                        assert(after[k] == before[k]);
                    }
                }
                let answered = answers.push(answer);
                lemma_lines_outcome_of_first(quantity, formulas@, answers, answered, i as nat);
                assert(line_outcome(quantity, formulas@[i as int]@, answer) == Ok::<
                    MaterialConsumptionView,
                    DomainErrorView,
                >(consumption@));
                assert forall|k: int| 0 <= k < i + 1 implies is_answer_for(
                    purchase_repo,
                    freight_repo,
                    formulas@[k],
                    #[trigger] answered[k],
                ) && line_outcome(quantity, formulas@[k]@, answered[k]) is Ok by {
                    if k < i {
                        assert(answered[k] == answers[k]);
                    }
                }
                answers = answered;
            }
            consumptions.push(consumption);
            i += 1;
        }
        let result = MaterialCostResult { consumptions, total_freight_cost: total_freight };
        assert(is_calculation_of(
            production,
            formula_repo,
            purchase_repo,
            freight_repo,
            recipe_answered,
            answers,
            Ok::<MaterialCostResultView, DomainErrorView>(result@),
        ));
        Ok(result)
    }

    /// The material cost of all consumptions together, freight left out; zero for no
    /// consumptions.
    pub fn calculate_raw_material_cost(consumptions: &[MaterialConsumption]) -> (r: Amount)
        ensures
            r@ == saturate(material_cost_sum(consumption_views(consumptions@))),
            r.wf(),
    {
        let mut total = Amount::zero();
        let mut i: usize = 0;
        assert(consumption_views(consumptions@).take(0) =~= Seq::<
            MaterialConsumptionView,
        >::empty());
        while i < consumptions.len()
            invariant
                i <= consumptions@.len(),
                total.wf(),
                total@ == saturate(
                    material_cost_sum(consumption_views(consumptions@).take(i as int)),
                ),
                0 <= material_cost_sum(consumption_views(consumptions@).take(i as int)),
            decreases consumptions@.len() - i,
        {
            let consumption = &consumptions[i];
            proof {
                let views = consumption_views(consumptions@);
                assert(views.take(i + 1).drop_last() =~= views.take(i as int));
                assert(views.take(i + 1).last() == consumption@);
            }
            proof {
                use_type_invariant(&consumption.total_cost);
            }
            total = total.add(&consumption.total_cost);
            i += 1;
        }
        assert(consumption_views(consumptions@).take(i as int) =~= consumption_views(
            consumptions@,
        ));
        total
    }

    /// The cost per metric ton, from the cost of `total_consumption_kg` kilograms
    /// (in millionths): cost per kilogram times 1000. Zero where nothing was consumed.
    pub fn calculate_unit_cost(raw_material_cost: &Amount, total_consumption_kg: i64) -> (r:
        Amount)
        ensures
            r@ == unit_cost_of(raw_material_cost@, total_consumption_kg as int),
            r.wf(),
    {
        if total_consumption_kg <= 0 {
            return Amount::zero();
        }
        let raw = raw_material_cost.value();
        assert(0 <= raw * KG_PER_TON * SCALE <= 0x7fff_ffff_ffff_ffff * 1_000_000_000)
            by (nonlinear_arith)
            requires
                0 <= raw <= 0x7fff_ffff_ffff_ffff,
                KG_PER_TON == 1_000,
                SCALE == 1_000_000,
        ;
        let wide: i128 = (raw as i128) * (KG_PER_TON as i128) * (SCALE as i128);
        let per_ton: i128 = wide / (total_consumption_kg as i128);
        assert(0 <= per_ton) by (nonlinear_arith)
            requires
                0 <= wide,
                0 < total_consumption_kg,
                per_ton == (wide as int) / (total_consumption_kg as int),
        ;
        let capped: i64 = if per_ton > i64::MAX as i128 {
            i64::MAX
        } else {
            per_ton as i64
        };
        match Amount::new(capped) {
            Ok(amount) => amount,
            Err(_) => Amount::zero(),
        }
    }

    /// The part of the raw material cost that remains at this yield rate.
    pub fn calculate_yield_cost(raw_material_cost: &Amount, yield_rate: &YieldRate) -> (r: Amount)
        ensures
            r@ == scaled_product(raw_material_cost@, yield_rate@),
            r@ <= raw_material_cost@,
            r.wf(),
    {
        let raw = raw_material_cost.value();
        let rate = yield_rate.value();
        assert(scaled_product(raw as int, rate as int) <= raw) by (nonlinear_arith)
            requires
                0 <= raw,
                0 <= rate <= SCALE,
                SCALE == 1_000_000,
        ;
        raw_material_cost.multiply(rate)
    }

    /// Yield cost, coagulant cost, clay treatment cost and freight cost together.
    pub fn calculate_total_material_cost(
        yield_cost: &Amount,
        coagulant_cost: &Amount,
        clay_treatment_cost: &Amount,
        freight_cost: &Amount,
    ) -> (r: Amount)
        ensures
            r@ == saturate(yield_cost@ + coagulant_cost@ + clay_treatment_cost@ + freight_cost@),
            r.wf(),
    {
        proof {
            use_type_invariant(yield_cost);
            use_type_invariant(coagulant_cost);
            use_type_invariant(clay_treatment_cost);
            use_type_invariant(freight_cost);
        }
        yield_cost.add(coagulant_cost).add(clay_treatment_cost).add(freight_cost)
    }
}

} // verus!
