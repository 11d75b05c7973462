//! A fluent assertion core: values under test are wrapped in a [`Subject`],
//! failures are explained as an ordered sequence of [`Fact`]s inside an
//! [`AssertionResult`], and the [`ReturnStrategy`] bound on the subject decides
//! whether a verdict halts the running test or is handed back as a value.

pub mod base;
pub mod equality;
pub mod fact;
pub mod iterator;
pub mod render;
pub mod sequence;
pub mod subject;
pub mod testing;

pub use base::AssertionResult;
pub use base::AssertionResultView;
pub use base::CheckThatResult;
pub use base::ReturnStrategy;
pub use fact::Fact;
pub use fact::FactView;
pub use subject::Subject;
pub use subject::assert_that;
pub use subject::check_that;
pub use testing::AssertionResultAssertion;
pub use testing::get_assertion_result;
