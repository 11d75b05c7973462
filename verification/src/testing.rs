//! Assertions about a previous assertion's outcome: a failed evaluation is
//! itself an assertable value, and its fact sequence, single fact values and
//! fact keys can be inspected with the same engine.

use vstd::pervasive::unreached;
use vstd::prelude::*;

use crate::base::AssertionResult;
use crate::base::CheckThatResult;
use crate::base::ReturnStrategy;
use crate::base::fail_with;
use crate::fact::Fact;
use crate::fact::FactView;
use crate::fact::duplicate_facts;
use crate::iterator::spec_at_least_failure;
use crate::iterator::spec_exactly_failure;
use crate::render::str_eq;
use crate::sequence::spec_is_subsequence;
use crate::subject::Subject;

verus! {

/// The facts of a failed outcome; the empty sequence for a passing one.
pub open spec fn spec_failure_facts(outcome: CheckThatResult) -> Seq<FactView> {
    match outcome {
        Err(ar) => ar@.facts,
        Ok(_) => Seq::empty(),
    }
}

/// The value of the first labeled fact carrying the given key, scanning the
/// facts in order; `None` when no labeled fact carries it.
pub open spec fn spec_first_value_for_key(fs: Seq<FactView>, key: Seq<char>) -> Option<Seq<char>>
    decreases fs.len(),
{
    if fs.len() == 0 {
        None
    } else {
        match fs[0] {
            FactView::KeyValue { key: k, value: v } => if k == key {
                Some(v)
            } else {
                spec_first_value_for_key(fs.skip(1), key)
            },
            _ => spec_first_value_for_key(fs.skip(1), key),
        }
    }
}

/// The found value of [`spec_first_value_for_key`]; the empty text when none
/// was found.
pub open spec fn spec_found_value(found: Option<Seq<char>>) -> Seq<char> {
    match found {
        Some(v) => v,
        None => Seq::empty(),
    }
}

/// Whether some labeled fact carries the given key; free-form facts and
/// separators never do.
pub open spec fn spec_key_occurs(fs: Seq<FactView>, key: Seq<char>) -> bool {
    exists|i: int|
        {
            &&& 0 <= i < fs.len()
            &&& (#[trigger] fs[i]) matches FactView::KeyValue { key: k, value: v }
            &&& k == key
        }
}

/// A key occurs among the labeled facts exactly when scanning for its first
/// value finds one; how often it repeats makes no difference.
pub proof fn lemma_key_occurs_iff_found(fs: Seq<FactView>, key: Seq<char>)
    ensures
        spec_key_occurs(fs, key) <==> spec_first_value_for_key(fs, key) is Some,
    decreases fs.len(),
{
    if fs.len() == 0 {
        assert(!spec_key_occurs(fs, key));
    } else {
        lemma_key_occurs_iff_found(fs.skip(1), key);
        if spec_key_occurs(fs, key) {
            let i = choose|i: int|
                {
                    &&& 0 <= i < fs.len()
                    &&& (#[trigger] fs[i]) matches FactView::KeyValue { key: k, value: v }
                    &&& k == key
                };
            if i > 0 {
                assert(fs.skip(1)[i - 1] == fs[i]);
                assert(spec_key_occurs(fs.skip(1), key));
            }
        }
        if spec_first_value_for_key(fs, key) is Some {
            match fs[0] {
                FactView::KeyValue { key: k, value: v } => {
                    if k == key {
                        assert(spec_key_occurs(fs, key));
                    } else {
                        let j = choose|j: int|
                            {
                                &&& 0 <= j < fs.skip(1).len()
                                &&& (#[trigger] fs.skip(1)[j]) matches FactView::KeyValue {
                                    key: k2,
                                    value: v2,
                                }
                                &&& k2 == key
                            };
                        assert(fs[j + 1] == fs.skip(1)[j]);
                        assert(spec_key_occurs(fs, key));
                    }
                },
                _ => {
                    let j = choose|j: int|
                        {
                            &&& 0 <= j < fs.skip(1).len()
                            &&& (#[trigger] fs.skip(1)[j]) matches FactView::KeyValue {
                                key: k2,
                                value: v2,
                            }
                            &&& k2 == key
                        };
                    assert(fs[j + 1] == fs.skip(1)[j]);
                    assert(spec_key_occurs(fs, key));
                },
            }
        }
    }
}

/// The failed outcome a subject wraps. Inspecting a passing outcome is a
/// usage error, so the precondition rules it out; an unverified caller that
/// breaks it halts with a descriptive message.
pub fn get_assertion_result<'o, R>(subject: &'o Subject<CheckThatResult, (), R>) -> (r:
    &'o AssertionResult)
    requires
        subject.actual is Err,
    ensures
        subject.actual matches Err(ar) && *r == ar,
{
    match &subject.actual {
        Err(ar) => ar,
        Ok(_) => {
            proof {
                assert(false);
            }
            fail_with("Because this is assertion for error message.");
            unreached()
        },
    }
}

fn contains_string(keys: &Vec<String>, key: &str) -> (r: bool)
    ensures
        r == keys.deep_view().contains(key@),
{
    let n = keys.len();
    let mut i: usize = 0;
    while i < n
        invariant
            i <= n,
            n == keys@.len(),
            forall|j: int| 0 <= j < i ==> keys.deep_view()[j] != key@,
        decreases n - i,
    {
        if str_eq(keys[i].as_str(), key) {
            proof {
                assert(keys.deep_view()[i as int] == key@);
            }
            return true;
        }
        i = i + 1;
    }
    proof {
        if keys.deep_view().contains(key@) {
            let j = choose|j: int|
                0 <= j < keys.deep_view().len() && keys.deep_view()[j] == key@;
            assert(false);
        }
    }
    false
}

proof fn lemma_key_occurs_take_step(fs: Seq<FactView>, i: int, key: Seq<char>)
    requires
        0 <= i < fs.len(),
    ensures
        spec_key_occurs(fs.take(i + 1), key) <==> (spec_key_occurs(fs.take(i), key) || (fs[i]
            matches FactView::KeyValue { key: k, value: v } && k == key)),
{
    let t1 = fs.take(i + 1);
    let t0 = fs.take(i);
    if spec_key_occurs(t1, key) {
        let j = choose|j: int|
            {
                &&& 0 <= j < t1.len()
                &&& (#[trigger] t1[j]) matches FactView::KeyValue { key: k, value: v }
                &&& k == key
            };
        if j < i {
            assert(t0[j] == t1[j]);
            assert(spec_key_occurs(t0, key));
        } else {
            assert(t1[j] == fs[i]);
        }
    }
    if spec_key_occurs(t0, key) {
        let j = choose|j: int|
            {
                &&& 0 <= j < t0.len()
                &&& (#[trigger] t0[j]) matches FactView::KeyValue { key: k, value: v }
                &&& k == key
            };
        assert(t1[j] == t0[j]);
        assert(spec_key_occurs(t1, key));
    }
    if fs[i] matches FactView::KeyValue { key: k, value: v } && k == key {
        assert(t1[i] == fs[i]);
        assert(spec_key_occurs(t1, key));
    }
}

/// Assertions available on a subject wrapping an evaluation outcome. The
/// wrapped outcome must be a failure: asserting about the message of a
/// passing assertion is a usage error, not an assertion failure.
pub trait AssertionResultAssertion<R>: Sized where AssertionResult: ReturnStrategy<R> {
    /// The wrapped evaluation outcome under inspection.
    spec fn outcome(&self) -> CheckThatResult;

    /// The resolved label of the subject under inspection.
    spec fn label(&self) -> Seq<char>;

    /// Passes iff the failure's facts equal `facts`, element for element and
    /// in order.
    fn facts_are(&self, facts: &Vec<Fact>) -> (r: R)
        requires
            self.outcome() is Err,
            <AssertionResult as ReturnStrategy<R>>::fail_allowed() || facts.deep_view()
                == spec_failure_facts(self.outcome()),
        ensures
            facts.deep_view() == spec_failure_facts(self.outcome())
                ==> <AssertionResult as ReturnStrategy<R>>::is_ok_value(r),
            facts.deep_view() != spec_failure_facts(self.outcome())
                ==> <AssertionResult as ReturnStrategy<R>>::is_fail_value(
                spec_exactly_failure(
                    self.label() + ".facts()"@,
                    facts.deep_view(),
                    spec_failure_facts(self.outcome()),
                ),
                r,
            ),
    ;

    /// Passes iff `facts` is an in-order subsequence of the failure's facts;
    /// extra unmatched facts are allowed.
    fn facts_are_at_least(&self, facts: &Vec<Fact>) -> (r: R)
        requires
            self.outcome() is Err,
            <AssertionResult as ReturnStrategy<R>>::fail_allowed() || spec_is_subsequence(
                facts.deep_view(),
                spec_failure_facts(self.outcome()),
            ),
        ensures
            spec_is_subsequence(facts.deep_view(), spec_failure_facts(self.outcome()))
                ==> <AssertionResult as ReturnStrategy<R>>::is_ok_value(r),
            !spec_is_subsequence(facts.deep_view(), spec_failure_facts(self.outcome()))
                ==> <AssertionResult as ReturnStrategy<R>>::is_fail_value(
                spec_at_least_failure(
                    self.label() + ".facts()"@,
                    facts.deep_view(),
                    spec_failure_facts(self.outcome()),
                ),
                r,
            ),
    ;

    /// Derives a subject over the value of the first labeled fact carrying
    /// `key`; when several facts share the key, the first occurrence wins.
    /// Asking for an absent key is a usage error ruled out by the
    /// precondition.
    fn fact_value_for_key(&self, key: &str) -> (s: Subject<String, (), R>)
        requires
            self.outcome() is Err,
            spec_first_value_for_key(spec_failure_facts(self.outcome()), key@) is Some,
        ensures
            s.actual@ == spec_found_value(
                spec_first_value_for_key(spec_failure_facts(self.outcome()), key@),
            ),
            s.spec_description() == self.label() + ".[key="@ + key@ + "]"@,
            s.context == (),
    ;

    /// Derives a subject over the distinct keys of the failure's labeled
    /// facts, each key once, ignoring free-form facts and separators.
    fn fact_keys(&self) -> (s: Subject<Vec<String>, (), R>)
        requires
            self.outcome() is Err,
        ensures
            forall|k: Seq<char>|
                s.actual.deep_view().contains(k) <==> spec_key_occurs(
                    spec_failure_facts(self.outcome()),
                    k,
                ),
            s.actual.deep_view().no_duplicates(),
            s.spec_description() == self.label() + ".keys()"@,
            s.context == (),
    ;
}

impl<R> AssertionResultAssertion<R> for Subject<CheckThatResult, (), R> where
    AssertionResult: ReturnStrategy<R>,
 {
    open spec fn outcome(&self) -> CheckThatResult {
        self.actual
    }

    open spec fn label(&self) -> Seq<char> {
        self.spec_description()
    }

    fn facts_are(&self, facts: &Vec<Fact>) -> (r: R) {
        let ar = get_assertion_result(self);
        let derived_facts = duplicate_facts(ar.facts());
        let description = self.description_or_expr().concat(".facts()");
        let derived = self.new_owned_subject(derived_facts, Some(description), ());
        derived.contains_exactly_in_order(facts)
    }

    fn facts_are_at_least(&self, facts: &Vec<Fact>) -> (r: R) {
        let ar = get_assertion_result(self);
        let derived_facts = duplicate_facts(ar.facts());
        let description = self.description_or_expr().concat(".facts()");
        let derived = self.new_owned_subject(derived_facts, Some(description), ());
        derived.contains_at_least_in_order(facts)
    }

    fn fact_value_for_key(&self, key: &str) -> (s: Subject<String, (), R>) {
        let ar = get_assertion_result(self);
        let facts = ar.facts();
        let ghost fs = facts.deep_view();
        let n = facts.len();
        let mut i: usize = 0;
        proof {
            assert(fs.skip(0) =~= fs);
        }
        while i < n
            invariant
                i <= n,
                n == facts@.len(),
                fs == facts.deep_view(),
                fs == spec_failure_facts(self.outcome()),
                spec_first_value_for_key(fs, key@) == spec_first_value_for_key(
                    fs.skip(i as int),
                    key@,
                ),
            decreases n - i,
        {
            proof {
                assert(fs.skip(i as int)[0] == fs[i as int]);
                assert(fs.skip(i as int).skip(1) =~= fs.skip(i + 1 as int));
            }
            match &facts[i] {
                Fact::KeyValue { key: k, value } => {
                    if str_eq(k.as_str(), key) {
                        proof {
                            assert(fs[i as int] == (FactView::KeyValue {
                                key: k@,
                                value: value@,
                            }));
                            assert(spec_first_value_for_key(fs.skip(i as int), key@) == Some(
                                value@,
                            ));
                            assert(spec_first_value_for_key(fs, key@) == Some(value@));
                        }
                        let description = self.description_or_expr().concat(".[key=").concat(
                            key,
                        ).concat("]");
                        return self.new_owned_subject(value.clone(), Some(description), ());
                    }
                },
                _ => {},
            }
            i = i + 1;
        }
        proof {
            assert(fs.skip(n as int) =~= Seq::<FactView>::empty());
            assert(false);
        }
        let message = "key `".to_owned().concat(key).concat(
            "` not found in assertion result.\n",
        ).concat(ar.generate_message().as_str());
        fail_with(message.as_str());
        unreached()
    }

    fn fact_keys(&self) -> (s: Subject<Vec<String>, (), R>) {
        let ar = get_assertion_result(self);
        let facts = ar.facts();
        let ghost fs = facts.deep_view();
        let n = facts.len();
        let mut keys: Vec<String> = Vec::new();
        let mut i: usize = 0;
        proof {
            assert(keys.deep_view() =~= Seq::<Seq<char>>::empty());
        }
        while i < n
            invariant
                i <= n,
                n == facts@.len(),
                fs == facts.deep_view(),
                keys.deep_view().no_duplicates(),
                forall|k: Seq<char>|
                    keys.deep_view().contains(k) <==> spec_key_occurs(fs.take(i as int), k),
            decreases n - i,
        {
            proof {
                assert(fs[i as int] == facts[i as int]@);
            }
            match &facts[i] {
                Fact::KeyValue { key, value: _ } => {
                    let present = contains_string(&keys, key.as_str());
                    if !present {
                        let ghost prev = keys.deep_view();
                        keys.push(key.clone());
                        proof {
                            let cur = keys.deep_view();
                            assert(cur =~= prev.push(key@));
                            assert forall|k2: Seq<char>|
                                cur.contains(k2) <==> (prev.contains(k2) || k2 == key@) by {
                                if cur.contains(k2) {
                                    let j = choose|j: int|
                                        0 <= j < cur.len() && cur[j] == k2;
                                    if j < prev.len() {
                                        assert(prev[j] == cur[j]);
                                        assert(prev.contains(k2));
                                    }
                                }
                                if prev.contains(k2) {
                                    let j = choose|j: int|
                                        0 <= j < prev.len() && prev[j] == k2;
                                    assert(cur[j] == prev[j]);
                                    assert(cur.contains(k2));
                                }
                                if k2 == key@ {
                                    assert(cur[prev.len() as int] == key@);
                                    assert(cur.contains(k2));
                                }
                            }
                            assert(cur.no_duplicates()) by {
                                assert forall|p: int, q: int|
                                    0 <= p < cur.len() && 0 <= q < cur.len() && p != q
                                        implies cur[p] != cur[q] by {
                                    if p < prev.len() && q < prev.len() {
                                        assert(cur[p] == prev[p]);
                                        assert(cur[q] == prev[q]);
                                    } else if q == prev.len() {
                                        assert(cur[q] == key@);
                                        assert(cur[p] == prev[p]);
                                        if cur[p] == key@ {
                                            assert(prev.contains(key@));
                                        }
                                    } else {
                                        assert(cur[p] == key@);
                                        assert(cur[q] == prev[q]);
                                        if cur[q] == key@ {
                                            assert(prev.contains(key@));
                                        }
                                    }
                                }
                            }
                        }
                    }
                },
                _ => {},
            }
            proof {
                assert forall|k2: Seq<char>|
                    keys.deep_view().contains(k2) <==> spec_key_occurs(
                        fs.take(i + 1 as int),
                        k2,
                    ) by {
                    lemma_key_occurs_take_step(fs, i as int, k2);
                }
            }
            i = i + 1;
        }
        proof {
            assert(fs.take(n as int) =~= fs);
        }
        let description = self.description_or_expr().concat(".keys()");
        self.new_owned_subject(keys, Some(description), ())
    }
}

} // verus!
