use crate::domain::value_objects::{ConsumptionRatio, ProductCode};
use vstd::prelude::*;

verus! {

/// One line of a recipe: a material, and the share of the production quantity that is
/// consumed of it.
#[derive(Debug, Clone)]
pub struct FormulaEntry {
    pub material_code: ProductCode,
    pub consumption_ratio: ConsumptionRatio,
}

/// A recipe line as plain values.
pub struct FormulaEntryView {
    pub material_code: Seq<char>,
    pub consumption_ratio: int,
}

impl View for FormulaEntry {
    type V = FormulaEntryView;

    open spec fn view(&self) -> FormulaEntryView {
        FormulaEntryView {
            material_code: self.material_code@,
            consumption_ratio: self.consumption_ratio@,
        }
    }
}

impl FormulaEntry {
    /// The recipe line with these values.
    pub fn new(material_code: ProductCode, consumption_ratio: ConsumptionRatio) -> (r:
        FormulaEntry)
        ensures
            r == (FormulaEntry { material_code, consumption_ratio }),
    {
        FormulaEntry { material_code, consumption_ratio }
    }
}

} // verus!
