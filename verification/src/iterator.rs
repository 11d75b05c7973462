//! Order-sensitive assertions over a subject wrapping a fact vector: exact
//! in-order equality and in-order containment. Their failures report the
//! greedy matching's leftovers and the canonical expected/actual dump.

use vstd::prelude::*;

use crate::base::AssertionResult;
use crate::base::AssertionResultView;
use crate::base::ReturnStrategy;
use crate::fact::Fact;
use crate::fact::FactView;
use crate::render::dec_string;
use crate::render::render_fact_list;
use crate::render::spec_dec;
use crate::render::spec_fact_list;
use crate::sequence::lemma_no_missing_iff_subsequence;
use crate::sequence::lemma_unmatched_empty_iff_equal;
use crate::sequence::spec_is_subsequence;
use crate::sequence::spec_unmatched;
use crate::subject::Subject;

verus! {

/// The closing facts every comparison failure ends with: the separator, then
/// the canonical dump of both sequences.
pub open spec fn spec_comparison_trailer(e: Seq<FactView>, a: Seq<FactView>) -> Seq<FactView> {
    seq![
        FactView::Splitter,
        FactView::KeyValue { key: "expected"@, value: spec_fact_list(e) },
        FactView::KeyValue { key: "actual"@, value: spec_fact_list(a) },
    ]
}

/// The outcome an exact in-order comparison fails with: the subject's
/// description, the missing and unexpected leftovers of the greedy matching
/// (each omitted when empty), and the canonical dump.
pub open spec fn spec_exactly_failure(desc: Seq<char>, e: Seq<FactView>, a: Seq<FactView>)
    -> AssertionResultView {
    let m = spec_unmatched(e, a).0;
    let u = spec_unmatched(e, a).1;
    AssertionResultView {
        description: desc,
        facts: seq![FactView::KeyValue { key: "value of"@, value: desc }] + (if m.len() == 0 {
            Seq::<FactView>::empty()
        } else {
            seq![
                FactView::KeyValue {
                    key: "missing ("@ + spec_dec(m.len()) + ")"@,
                    value: spec_fact_list(m),
                },
            ]
        }) + (if u.len() == 0 {
            Seq::<FactView>::empty()
        } else {
            seq![
                FactView::KeyValue {
                    key: "unexpected ("@ + spec_dec(u.len()) + ")"@,
                    value: spec_fact_list(u),
                },
            ]
        }) + spec_comparison_trailer(e, a),
    }
}

/// The outcome an in-order containment check fails with: the subject's
/// description, the expected elements the greedy matching could not place,
/// and the canonical dump.
pub open spec fn spec_at_least_failure(desc: Seq<char>, e: Seq<FactView>, a: Seq<FactView>)
    -> AssertionResultView {
    let m = spec_unmatched(e, a).0;
    AssertionResultView {
        description: desc,
        facts: seq![FactView::KeyValue { key: "value of"@, value: desc }] + seq![
            FactView::KeyValue {
                key: "missing ("@ + spec_dec(m.len()) + ")"@,
                value: spec_fact_list(m),
            },
        ] + spec_comparison_trailer(e, a),
    }
}

/// Runs the greedy in-order matching, returning the missing and unexpected
/// leftovers as fresh vectors.
fn greedy_diff(expected: &Vec<Fact>, actual: &Vec<Fact>) -> (r: (Vec<Fact>, Vec<Fact>))
    ensures
        r.0.deep_view() == spec_unmatched(expected.deep_view(), actual.deep_view()).0,
        r.1.deep_view() == spec_unmatched(expected.deep_view(), actual.deep_view()).1,
{
    let ghost e = expected.deep_view();
    let ghost a = actual.deep_view();
    let elen = expected.len();
    let alen = actual.len();
    let mut unexpected: Vec<Fact> = Vec::new();
    let mut i: usize = 0;
    let mut j: usize = 0;
    proof {
        assert(e.skip(0) =~= e);
        assert(a.skip(0) =~= a);
        assert(unexpected.deep_view() =~= Seq::<FactView>::empty());
        assert(unexpected.deep_view() + spec_unmatched(e, a).1 =~= spec_unmatched(e, a).1);
    }
    while j < alen
        invariant
            i <= elen,
            j <= alen,
            elen == e.len(),
            alen == a.len(),
            e == expected.deep_view(),
            a == actual.deep_view(),
            spec_unmatched(e, a).0 == spec_unmatched(e.skip(i as int), a.skip(j as int)).0,
            spec_unmatched(e, a).1 == unexpected.deep_view() + spec_unmatched(
                e.skip(i as int),
                a.skip(j as int),
            ).1,
        decreases alen - j,
    {
        proof {
            assert(a.skip(j as int).len() > 0);
            assert(a.skip(j as int)[0] == a[j as int]);
            if i < elen {
                assert(e.skip(i as int).len() > 0);
                assert(e.skip(i as int)[0] == e[i as int]);
            } else {
                assert(e.skip(i as int).len() == 0);
            }
        }
        let matched = if i < elen {
            expected[i].equals(&actual[j])
        } else {
            false
        };
        if matched {
            proof {
                assert(e.skip(i as int).skip(1) =~= e.skip(i + 1 as int));
                assert(a.skip(j as int).skip(1) =~= a.skip(j + 1 as int));
            }
            i = i + 1;
        } else {
            let ghost prev = unexpected.deep_view();
            unexpected.push(actual[j].duplicate());
            proof {
                assert(unexpected.deep_view() =~= prev.push(a[j as int]));
                assert(a.skip(j as int).skip(1) =~= a.skip(j + 1 as int));
                assert(prev + (seq![a[j as int]] + spec_unmatched(
                    e.skip(i as int),
                    a.skip(j + 1 as int),
                ).1) =~= unexpected.deep_view() + spec_unmatched(
                    e.skip(i as int),
                    a.skip(j + 1 as int),
                ).1);
            }
        }
        j = j + 1;
    }
    proof {
        assert(a.skip(alen as int) =~= Seq::<FactView>::empty());
    }
    let mut missing: Vec<Fact> = Vec::new();
    let mut k: usize = i;
    proof {
        assert(missing.deep_view() =~= e.subrange(i as int, i as int));
    }
    while k < elen
        invariant
            i <= k <= elen,
            elen == e.len(),
            e == expected.deep_view(),
            missing.deep_view() == e.subrange(i as int, k as int),
        decreases elen - k,
    {
        let ghost prev = missing.deep_view();
        missing.push(expected[k].duplicate());
        proof {
            assert(missing.deep_view() =~= prev.push(e[k as int]));
            assert(e.subrange(i as int, k + 1 as int) =~= e.subrange(i as int, k as int).push(
                e[k as int],
            ));
        }
        k = k + 1;
    }
    proof {
        assert(e.subrange(i as int, elen as int) =~= e.skip(i as int));
        assert(unexpected.deep_view() + Seq::<FactView>::empty() =~= unexpected.deep_view());
    }
    (missing, unexpected)
}

impl<R> Subject<Vec<Fact>, (), R> where AssertionResult: ReturnStrategy<R> {
    /// Passes iff the wrapped facts equal `expected`, element for element and
    /// in order.
    pub fn contains_exactly_in_order(&self, expected: &Vec<Fact>) -> (r: R)
        requires
            <AssertionResult as ReturnStrategy<R>>::fail_allowed() || expected.deep_view()
                == self.actual.deep_view(),
        ensures
            expected.deep_view() == self.actual.deep_view()
                ==> <AssertionResult as ReturnStrategy<R>>::is_ok_value(r),
            expected.deep_view() != self.actual.deep_view()
                ==> <AssertionResult as ReturnStrategy<R>>::is_fail_value(
                spec_exactly_failure(
                    self.spec_description(),
                    expected.deep_view(),
                    self.actual.deep_view(),
                ),
                r,
            ),
    {
        let diff = greedy_diff(expected, &self.actual);
        let missing = diff.0;
        let unexpected = diff.1;
        proof {
            lemma_unmatched_empty_iff_equal(expected.deep_view(), self.actual.deep_view());
        }
        if missing.len() == 0 && unexpected.len() == 0 {
            self.new_result().do_ok()
        } else {
            let description = self.description_or_expr();
            let mut outcome = self.new_result().add_fact("value of", description.as_str());
            if missing.len() > 0 {
                let count = dec_string(missing.len());
                let key = "missing (".to_owned().concat(count.as_str()).concat(")");
                let listing = render_fact_list(&missing);
                outcome = outcome.add_fact(key.as_str(), listing.as_str());
            }
            if unexpected.len() > 0 {
                let count = dec_string(unexpected.len());
                let key = "unexpected (".to_owned().concat(count.as_str()).concat(")");
                let listing = render_fact_list(&unexpected);
                outcome = outcome.add_fact(key.as_str(), listing.as_str());
            }
            let listing_expected = render_fact_list(expected);
            let listing_actual = render_fact_list(&self.actual);
            let outcome = outcome.add_splitter().add_fact(
                "expected",
                listing_expected.as_str(),
            ).add_fact("actual", listing_actual.as_str());
            proof {
                assert(outcome@.facts =~= spec_exactly_failure(
                    self.spec_description(),
                    expected.deep_view(),
                    self.actual.deep_view(),
                ).facts);
            }
            outcome.do_fail()
        }
    }

    /// Passes iff `expected` is an in-order subsequence of the wrapped facts;
    /// extra unmatched facts are allowed.
    pub fn contains_at_least_in_order(&self, expected: &Vec<Fact>) -> (r: R)
        requires
            <AssertionResult as ReturnStrategy<R>>::fail_allowed() || spec_is_subsequence(
                expected.deep_view(),
                self.actual.deep_view(),
            ),
        ensures
            spec_is_subsequence(expected.deep_view(), self.actual.deep_view())
                ==> <AssertionResult as ReturnStrategy<R>>::is_ok_value(r),
            !spec_is_subsequence(expected.deep_view(), self.actual.deep_view())
                ==> <AssertionResult as ReturnStrategy<R>>::is_fail_value(
                spec_at_least_failure(
                    self.spec_description(),
                    expected.deep_view(),
                    self.actual.deep_view(),
                ),
                r,
            ),
    {
        let diff = greedy_diff(expected, &self.actual);
        let missing = diff.0;
        proof {
            lemma_no_missing_iff_subsequence(expected.deep_view(), self.actual.deep_view());
        }
        if missing.len() == 0 {
            self.new_result().do_ok()
        } else {
            let description = self.description_or_expr();
            let count = dec_string(missing.len());
            let key = "missing (".to_owned().concat(count.as_str()).concat(")");
            let listing = render_fact_list(&missing);
            let listing_expected = render_fact_list(expected);
            let listing_actual = render_fact_list(&self.actual);
            let outcome = self.new_result().add_fact("value of", description.as_str()).add_fact(
                key.as_str(),
                listing.as_str(),
            ).add_splitter().add_fact("expected", listing_expected.as_str()).add_fact(
                "actual",
                listing_actual.as_str(),
            );
            proof {
                assert(outcome@.facts =~= spec_at_least_failure(
                    self.spec_description(),
                    expected.deep_view(),
                    self.actual.deep_view(),
                ).facts);
            }
            outcome.do_fail()
        }
    }
}

} // verus!
