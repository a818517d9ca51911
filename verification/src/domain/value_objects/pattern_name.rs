use crate::error::{outcome, DomainError, DomainErrorView, ValidationError, ValidationErrorView};
use crate::text::{is_trimmed, trim, trimmed};
use vstd::prelude::*;

verus! {

/// The name of a freight pattern: a text that is not empty and has no whitespace at
/// either end.
#[derive(Debug, PartialEq, Eq, Hash)]
pub struct PatternName(String);

impl View for PatternName {
    type V = Seq<char>;

    closed spec fn view(&self) -> Seq<char> {
        self.0@
    }
}

/// The pattern name that `text` writes: `text` without whitespace at its ends, unless
/// nothing is left of it.
pub open spec fn pattern_name_of(text: Seq<char>) -> Result<Seq<char>, DomainErrorView> {
    if trimmed(text).len() > 0 {
        Ok(trimmed(text))
    } else {
        Err(DomainErrorView::Validation(ValidationErrorView::EmptyPatternName))
    }
}

impl Clone for PatternName {
    fn clone(&self) -> (r: Self)
        ensures
            r@ == self@,
    {
        proof {
            use_type_invariant(self);
        }
        PatternName(self.0.clone())
    }
}

impl PatternName {
    /// What holds of every pattern name.
    #[verifier::type_invariant]
    pub open spec fn wf(self) -> bool {
        self@.len() > 0 && is_trimmed(self@)
    }

    /// The pattern name that `name` writes, whitespace at its ends left out; refused
    /// when nothing else is left.
    pub fn new(name: String) -> (r: Result<PatternName, DomainError>)
        ensures
            outcome(r) == pattern_name_of(name@),
            r is Ok ==> r->Ok_0.wf(),
    {
        let kept = trim(name.as_str());
        if kept.as_str().unicode_len() == 0 {
            return Err(DomainError::Validation(ValidationError::EmptyPatternName));
        }
        Ok(PatternName(kept))
    }

    /// The name as text.
    pub fn value(&self) -> (s: &str)
        ensures
            s@ == self@,
            s@.len() > 0,
    {
        proof {
            use_type_invariant(self);
        }
        self.0.as_str()
    }
}

} // verus!
