//! The result of evaluating an expression at one point, which may be a single
//! value or several candidates, and the choice among the candidates.

use vstd::prelude::*;

verus! {

/// What an expression evaluates to at one point. `T` is the type of a value.
#[derive(Debug)]
pub enum Evaluation<T> {
    /// One value.
    Single(T),
    /// Several candidates, in the evaluator's order: the values of a
    /// multi-valued operation such as a root.
    Multiple(Vec<T>),
}

impl<T> Evaluation<T> {
    /// The value that stands for the result: the single value, or the first
    /// of the candidates. A list without candidates has none.
    pub open spec fn spec_selected(self) -> Option<T> {
        match self {
            Evaluation::Single(value) => Some(value),
            Evaluation::Multiple(candidates) => if candidates@.len() > 0 {
                Some(candidates@[0])
            } else {
                None
            },
        }
    }

    /// The value that stands for the result: the single value, or the first
    /// of the candidates.
    pub fn select(self) -> (selected: Option<T>)
        ensures
            selected == self.spec_selected(),
    {
        match self {
            Evaluation::Single(value) => Some(value),
            Evaluation::Multiple(candidates) => {
                let mut candidates = candidates;
                if candidates.len() > 0 {
                    Some(candidates.swap_remove(0))
                } else {
                    None
                }
            },
        }
    }
}

} // verus!
