//! The outcome of one assertion evaluation and the two ways a verdict can
//! reach the caller: halting the running test, or being handed back as a
//! `Result`-like value for further inspection.

use vstd::prelude::*;

use crate::fact::Fact;
use crate::fact::FactView;
use crate::fact::duplicate_facts;
use crate::fact::render_fact_line;
use crate::fact::spec_fact_line;

verus! {

/// The mathematical shape of an [`AssertionResult`]: the resolved description
/// of the subject under test, and the ordered facts explaining the failure.
pub ghost struct AssertionResultView {
    pub description: Seq<char>,
    pub facts: Seq<FactView>,
}

/// The outcome of one assertion evaluation: a description of the subject
/// under test and, for a failure, the ordered facts that explain it. It is
/// built once per assertion and consumed by the bound [`ReturnStrategy`].
pub struct AssertionResult {
    pub description: String,
    pub facts: Vec<Fact>,
}

impl View for AssertionResult {
    type V = AssertionResultView;

    open spec fn view(&self) -> AssertionResultView {
        AssertionResultView { description: self.description@, facts: self.facts.deep_view() }
    }
}

/// The message lines contributed by the facts, each on a line of its own.
pub open spec fn spec_fact_lines(fs: Seq<FactView>) -> Seq<char>
    decreases fs.len(),
{
    if fs.len() == 0 {
        Seq::empty()
    } else {
        "\n"@ + spec_fact_line(fs[0]) + spec_fact_lines(fs.skip(1))
    }
}

/// A full failure message: the description line, then each fact line in
/// insertion order.
pub open spec fn spec_message(ar: AssertionResultView) -> Seq<char> {
    ar.description + spec_fact_lines(ar.facts)
}

proof fn lemma_fact_lines_push(fs: Seq<FactView>, x: FactView)
    ensures
        spec_fact_lines(fs.push(x)) == spec_fact_lines(fs) + "\n"@ + spec_fact_line(x),
    decreases fs.len(),
{
    if fs.len() == 0 {
        assert(fs.push(x).skip(1) =~= Seq::<FactView>::empty());
        assert(fs.push(x)[0] == x);
        assert(spec_fact_lines(Seq::<FactView>::empty()) == Seq::<char>::empty());
        assert(spec_fact_lines(fs) == Seq::<char>::empty());
        assert(spec_fact_lines(fs.push(x)) == "\n"@ + spec_fact_line(x) + Seq::<char>::empty());
        assert(spec_fact_lines(fs.push(x)) =~= spec_fact_lines(fs) + "\n"@ + spec_fact_line(x));
    } else {
        assert(fs.push(x).skip(1) =~= fs.skip(1).push(x));
        assert(fs.push(x)[0] == fs[0]);
        lemma_fact_lines_push(fs.skip(1), x);
        assert(spec_fact_lines(fs.push(x)) =~= spec_fact_lines(fs) + "\n"@ + spec_fact_line(x));
    }
}

impl AssertionResult {
    /// A fresh outcome for the subject with the given resolved description;
    /// it carries no facts yet.
    pub fn new(description: String) -> (r: AssertionResult)
        ensures
            r@ == (AssertionResultView { description: description@, facts: Seq::empty() }),
    {
        let r = AssertionResult { description, facts: Vec::new() };
        proof {
            assert(r@.facts =~= Seq::<FactView>::empty());
        }
        r
    }

    /// Appends a labeled fact.
    pub fn add_fact(self, key: &str, value: &str) -> (r: AssertionResult)
        ensures
            r@.description == self@.description,
            r@.facts == self@.facts.push(FactView::KeyValue { key: key@, value: value@ }),
    {
        let mut s = self;
        let ghost prev = s.facts.deep_view();
        s.facts.push(Fact::new(key, value));
        proof {
            assert(s.facts.deep_view() =~= prev.push(
                FactView::KeyValue { key: key@, value: value@ },
            ));
        }
        s
    }

    /// Appends a free-form fact.
    pub fn add_simple_fact(self, value: &str) -> (r: AssertionResult)
        ensures
            r@.description == self@.description,
            r@.facts == self@.facts.push(FactView::Value { value: value@ }),
    {
        let mut s = self;
        let ghost prev = s.facts.deep_view();
        s.facts.push(Fact::new_simple_fact(value));
        proof {
            assert(s.facts.deep_view() =~= prev.push(FactView::Value { value: value@ }));
        }
        s
    }

    /// Appends the separator fact.
    pub fn add_splitter(self) -> (r: AssertionResult)
        ensures
            r@.description == self@.description,
            r@.facts == self@.facts.push(FactView::Splitter),
    {
        let mut s = self;
        let ghost prev = s.facts.deep_view();
        s.facts.push(Fact::new_splitter());
        proof {
            assert(s.facts.deep_view() =~= prev.push(FactView::Splitter));
        }
        s
    }

    /// The facts recorded so far, in insertion order.
    pub fn facts(&self) -> (r: &Vec<Fact>)
        ensures
            *r == self.facts,
    {
        &self.facts
    }

    /// Renders the failure message. Rendering is a pure function of the
    /// outcome: it is pinned to [`spec_message`], so rendering the same
    /// outcome again yields the same text.
    pub fn generate_message(&self) -> (r: String)
        ensures
            r@ == spec_message(self@),
    {
        let mut out = self.description.clone();
        proof {
            assert(spec_fact_lines(self@.facts.take(0)) =~= Seq::<char>::empty());
            assert(out@ =~= self@.description + spec_fact_lines(self@.facts.take(0)));
        }
        let n = self.facts.len();
        let mut i: usize = 0;
        while i < n
            invariant
                i <= n,
                n == self.facts@.len(),
                out@ == self@.description + spec_fact_lines(self@.facts.take(i as int)),
            decreases n - i,
        {
            out.append("\n");
            let line = render_fact_line(&self.facts[i]);
            out.append(line.as_str());
            proof {
                let fs = self@.facts;
                assert(fs.take(i + 1 as int) =~= fs.take(i as int).push(fs[i as int]));
                lemma_fact_lines_push(fs.take(i as int), fs[i as int]);
                assert(out@ =~= self@.description + spec_fact_lines(fs.take(i + 1 as int)));
            }
            i = i + 1;
        }
        proof {
            assert(self@.facts.take(n as int) =~= self@.facts);
        }
        out
    }

    /// A fresh outcome with the same description and the same facts.
    pub fn duplicate(&self) -> (r: AssertionResult)
        ensures
            r@ == self@,
    {
        AssertionResult {
            description: self.description.clone(),
            facts: duplicate_facts(&self.facts),
        }
    }
}

/// Rendering is pure: any two renderings of the same outcome are the same
/// text, with no hidden counters or timestamps.
pub proof fn lemma_rendering_deterministic(result: AssertionResult, first: String, second: String)
    requires
        call_ensures(AssertionResult::generate_message, (&result,), first),
        call_ensures(AssertionResult::generate_message, (&result,), second),
    ensures
        first@ == second@,
{
}

/// A rendered failure message always carries the subject's description: it is
/// the message's leading text.
pub proof fn lemma_message_starts_with_description(ar: AssertionResultView)
    ensures
        spec_message(ar).take(ar.description.len() as int) == ar.description,
{
    assert(spec_message(ar).take(ar.description.len() as int) =~= ar.description);
}

/// The value-returning strategy hands outcomes back as this `Result`: `Ok`
/// for a passing assertion, `Err` carrying the full structured outcome for a
/// failing one.
pub type CheckThatResult = Result<(), AssertionResult>;

/// Relies on `Option::expect`, which the standard library documents to panic
/// with the given message when called on `None`; the call never returns. In
/// this library every call site of this function sits in a branch that the
/// caller's `requires` rules out, so no verified execution reaches it; it
/// preserves the descriptive halt for unverified callers that break a
/// precondition.
#[verifier::external_body]
pub(crate) fn fail_with(message: &str) {
    let halt: Option<()> = None;
    halt.expect(message);
}

/// How a fully-formed outcome turns into the caller-visible result type `R`.
/// The strategy is fixed when a subject is created and propagates unchanged
/// through every derived subject, so the same assertion logic serves both the
/// halting and the value-returning mode.
pub trait ReturnStrategy<R>: View<V = AssertionResultView> + Sized {
    /// Whether this strategy can conclude a failure at all. The halting
    /// strategy cannot: a verified caller must rule the failing branch out,
    /// which is what makes a proven assertion unable to halt a test.
    spec fn fail_allowed() -> bool;

    /// Recognises the value this strategy produces for a passing assertion.
    spec fn is_ok_value(r: R) -> bool;

    /// Recognises the value this strategy produces for a failure with the
    /// given outcome.
    spec fn is_fail_value(ar: AssertionResultView, r: R) -> bool;

    /// Concludes a passing assertion.
    fn do_ok(&self) -> (r: R)
        ensures
            Self::is_ok_value(r),
    ;

    /// Concludes a failing assertion.
    fn do_fail(&self) -> (r: R)
        requires
            Self::fail_allowed(),
        ensures
            Self::is_fail_value(self@, r),
    ;
}

/// The halting strategy: a passing assertion produces `()`; concluding a
/// failure is forbidden to verified callers, and halts the running test with
/// the rendered message when an unverified caller reaches it anyway.
impl ReturnStrategy<()> for AssertionResult {
    open spec fn fail_allowed() -> bool {
        false
    }

    open spec fn is_ok_value(r: ()) -> bool {
        true
    }

    open spec fn is_fail_value(ar: AssertionResultView, r: ()) -> bool {
        true
    }

    fn do_ok(&self) -> (r: ()) {
    }

    fn do_fail(&self) -> (r: ()) {
        let message = self.generate_message();
        fail_with(message.as_str());
    }
}

/// Under the halting strategy no verified caller can conclude a failure, so a
/// proven assertion can never halt a test; under the value-returning strategy
/// failures are always concluded, as ordinary values.
pub proof fn lemma_only_the_value_strategy_fails()
    ensures
        !<AssertionResult as ReturnStrategy<()>>::fail_allowed(),
        <AssertionResult as ReturnStrategy<CheckThatResult>>::fail_allowed(),
{
}

/// The value-returning strategy: the outcome is handed back to the caller,
/// carrying its full fact sequence on failure.
impl ReturnStrategy<CheckThatResult> for AssertionResult {
    open spec fn fail_allowed() -> bool {
        true
    }

    open spec fn is_ok_value(r: CheckThatResult) -> bool {
        r == Ok::<(), AssertionResult>(())
    }

    open spec fn is_fail_value(ar: AssertionResultView, r: CheckThatResult) -> bool {
        r matches Err(res) && res@ == ar
    }

    fn do_ok(&self) -> (r: CheckThatResult) {
        Ok(())
    }

    fn do_fail(&self) -> (r: CheckThatResult) {
        Err(self.duplicate())
    }
}

} // verus!
