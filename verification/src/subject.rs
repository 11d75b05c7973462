//! The generic wrapper around a value under test. A subject binds the value,
//! an optional textual description, an opaque chaining context, and — at the
//! type level — the return strategy every assertion on it concludes through.

use core::marker::PhantomData;
use vstd::prelude::*;

use crate::base::AssertionResult;
use crate::base::AssertionResultView;
use crate::base::CheckThatResult;

verus! {

/// A value under test together with its assertion context. `S` is the value's
/// type, `C` an opaque chaining context for assertions that carry extra
/// state, and `R` the result type every assertion method on this subject
/// returns; `R` is fixed at the entry point and inherited by every derived
/// subject.
pub struct Subject<S, C, R> {
    pub actual: S,
    pub description: Option<String>,
    pub context: C,
    pub strategy: PhantomData<R>,
}

impl<S, C, R> Subject<S, C, R> {
    /// The resolved description: the supplied label, or a generic placeholder
    /// when none was given.
    pub open spec fn spec_description(&self) -> Seq<char> {
        match self.description {
            Some(d) => d@,
            None => "value of"@,
        }
    }

    /// Wraps a value with its description and context.
    pub fn new(actual: S, description: Option<String>, context: C) -> (s: Subject<S, C, R>)
        ensures
            s.actual == actual,
            s.description == description,
            s.context == context,
    {
        Subject { actual, description, context, strategy: PhantomData }
    }

    /// Read-only access to the wrapped value.
    pub fn actual(&self) -> (r: &S)
        ensures
            *r == self.actual,
    {
        &self.actual
    }

    /// The human-readable label used in generated messages.
    pub fn description_or_expr(&self) -> (r: String)
        ensures
            r@ == self.spec_description(),
    {
        match &self.description {
            Some(d) => d.clone(),
            None => "value of".to_owned(),
        }
    }

    /// Begins a fresh outcome tied to this subject's description.
    pub fn new_result(&self) -> (r: AssertionResult)
        ensures
            r@ == (AssertionResultView {
                description: self.spec_description(),
                facts: Seq::empty(),
            }),
    {
        AssertionResult::new(self.description_or_expr())
    }

    /// Derives a subject over a projected value, keeping the return strategy
    /// so that chained assertions compose without re-selecting a mode.
    pub fn new_owned_subject<S2, C2>(&self, actual: S2, description: Option<String>, context: C2)
        -> (s: Subject<S2, C2, R>)
        ensures
            s.actual == actual,
            s.description == description,
            s.context == context,
    {
        Subject::new(actual, description, context)
    }
}

/// Wraps a value for assertions whose failure halts the running test; `expr`
/// is the source text or label naming the value in messages.
pub fn assert_that<T>(actual: T, expr: &str) -> (s: Subject<T, (), ()>)
    ensures
        s.actual == actual,
        s.spec_description() == expr@,
{
    Subject::new(actual, Some(expr.to_owned()), ())
}

/// Wraps a value for assertions whose outcome is handed back as a value, so
/// that a failure can itself be inspected by further assertions.
pub fn check_that<T>(actual: T, expr: &str) -> (s: Subject<T, (), CheckThatResult>)
    ensures
        s.actual == actual,
        s.spec_description() == expr@,
{
    Subject::new(actual, Some(expr.to_owned()), ())
}

} // verus!
