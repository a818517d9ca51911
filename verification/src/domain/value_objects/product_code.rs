use crate::error::{outcome, DomainError, DomainErrorView, ValidationError, ValidationErrorView};
use crate::text::{is_trimmed, trim, trimmed};
use vstd::prelude::*;

verus! {

/// The code of a product or of a material: a text that is not empty and has no
/// whitespace at either end.
#[derive(Debug, PartialEq, Eq, Hash)]
pub struct ProductCode(String);

impl View for ProductCode {
    type V = Seq<char>;

    closed spec fn view(&self) -> Seq<char> {
        self.0@
    }
}

/// The product code that `text` writes: `text` without whitespace at its ends, unless
/// nothing is left of it.
pub open spec fn product_code_of(text: Seq<char>) -> Result<Seq<char>, DomainErrorView> {
    if trimmed(text).len() > 0 {
        Ok(trimmed(text))
    } else {
        Err(DomainErrorView::Validation(ValidationErrorView::EmptyProductCode))
    }
}

impl Clone for ProductCode {
    fn clone(&self) -> (r: Self)
        ensures
            r@ == self@,
    {
        proof {
            use_type_invariant(self);
        }
        ProductCode(self.0.clone())
    }
}

impl ProductCode {
    /// What holds of every product code.
    #[verifier::type_invariant]
    pub open spec fn wf(self) -> bool {
        self@.len() > 0 && is_trimmed(self@)
    }

    /// The product code that `code` writes, whitespace at its ends left out; refused
    /// when nothing else is left.
    pub fn new(code: String) -> (r: Result<ProductCode, DomainError>)
        ensures
            outcome(r) == product_code_of(code@),
            r is Ok ==> r->Ok_0.wf(),
    {
        let kept = trim(code.as_str());
        if kept.as_str().unicode_len() == 0 {
            return Err(DomainError::Validation(ValidationError::EmptyProductCode));
        }
        Ok(ProductCode(kept))
    }

    /// Whether this code and `other` are the same text.
    pub fn same_as(&self, other: &ProductCode) -> (r: bool)
        ensures
            r == (self@ == other@),
    {
        self.0 == other.0
    }

    /// The code as text.
    pub fn value(&self) -> (s: &str)
        ensures
            s@ == self@,
            s@.len() > 0,
    {
        proof {
            use_type_invariant(self);
        }
        self.0.as_str()
    }
}

} // verus!
