//! A minimal concrete assertion over the core: exact text equality. It shows
//! the two-strategy contract at work and carries the tests' comparisons.

use vstd::prelude::*;

use crate::base::AssertionResult;
use crate::base::AssertionResultView;
use crate::base::ReturnStrategy;
use crate::fact::FactView;
use crate::render::str_eq;
use crate::subject::Subject;

verus! {

/// The facts a failed text comparison explains itself with.
pub open spec fn spec_not_same_facts() -> Seq<FactView> {
    seq![FactView::Value { value: "not same"@ }]
}

impl<'a, C, R> Subject<&'a str, C, R> where AssertionResult: ReturnStrategy<R> {
    /// Passes iff the wrapped text equals `expected` exactly. Under the
    /// halting strategy the equality must be established by the caller, so a
    /// verified caller can never be halted by this assertion.
    pub fn is_same_to(&self, expected: &str) -> (r: R)
        requires
            <AssertionResult as ReturnStrategy<R>>::fail_allowed() || self.actual@ == expected@,
        ensures
            self.actual@ == expected@ ==> <AssertionResult as ReturnStrategy<R>>::is_ok_value(r),
            self.actual@ != expected@ ==> <AssertionResult as ReturnStrategy<R>>::is_fail_value(
                AssertionResultView {
                    description: self.spec_description(),
                    facts: spec_not_same_facts(),
                },
                r,
            ),
    {
        if str_eq(self.actual, expected) {
            self.new_result().add_simple_fact("same").do_ok()
        } else {
            let outcome = self.new_result().add_simple_fact("not same");
            proof {
                assert(outcome@.facts =~= spec_not_same_facts());
            }
            outcome.do_fail()
        }
    }
}

} // verus!
