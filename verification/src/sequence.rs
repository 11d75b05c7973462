//! Order-sensitive comparison of fact sequences: exact equality is decided by
//! a greedy in-order matching whose leftovers ("missing" and "unexpected")
//! are also what a failure reports; containment is in-order subsequence.

use vstd::prelude::*;

use crate::fact::FactView;

verus! {

/// In-order containment: every element of `s` occurs in `t`, in the same
/// order, with arbitrary elements in between.
pub open spec fn spec_is_subsequence(s: Seq<FactView>, t: Seq<FactView>) -> bool
    decreases t.len(),
{
    if s.len() == 0 {
        true
    } else if t.len() == 0 {
        false
    } else if s[0] == t[0] {
        spec_is_subsequence(s.skip(1), t.skip(1))
    } else {
        spec_is_subsequence(s, t.skip(1))
    }
}

/// Greedy in-order matching of `e` (the expected elements) against `a` (the
/// actual elements). The first component is the expected elements left
/// unmatched ("missing"), the second the actual elements left unmatched
/// ("unexpected"), both in order.
pub open spec fn spec_unmatched(e: Seq<FactView>, a: Seq<FactView>) -> (Seq<FactView>, Seq<
    FactView,
>)
    decreases a.len(),
{
    if a.len() == 0 {
        (e, Seq::empty())
    } else if e.len() > 0 && e[0] == a[0] {
        spec_unmatched(e.skip(1), a.skip(1))
    } else {
        let r = spec_unmatched(e, a.skip(1));
        (r.0, seq![a[0]] + r.1)
    }
}

/// The greedy matching leaves nothing over exactly when the two sequences are
/// equal.
pub proof fn lemma_unmatched_empty_iff_equal(e: Seq<FactView>, a: Seq<FactView>)
    ensures
        (spec_unmatched(e, a).0.len() == 0 && spec_unmatched(e, a).1.len() == 0) <==> e == a,
    decreases a.len(),
{
    if a.len() == 0 {
        if e.len() == 0 {
            assert(e =~= a);
        }
        if e == a {
            assert(e.len() == 0);
        }
    } else if e.len() > 0 && e[0] == a[0] {
        lemma_unmatched_empty_iff_equal(e.skip(1), a.skip(1));
        if spec_unmatched(e, a).0.len() == 0 && spec_unmatched(e, a).1.len() == 0 {
            assert(e.skip(1) == a.skip(1));
            assert(e.skip(1).len() == a.skip(1).len());
            assert forall|k: int| 0 <= k < e.len() implies e[k] == a[k] by {
                if k > 0 {
                    assert(e.skip(1)[k - 1] == e[k]);
                    assert(a.skip(1)[k - 1] == a[k]);
                }
            }
            assert(e =~= a);
        }
        if e == a {
            assert(e.skip(1) =~= a.skip(1));
        }
    } else {
        assert(spec_unmatched(e, a).1.len() >= 1);
        if e == a {
            assert(e.len() == a.len());
            assert(e[0] == a[0]);
            assert(false);
        }
    }
}

/// An embedding of `s` into `t`: strictly increasing positions of `t` at
/// which the elements of `s` occur, in order.
pub open spec fn spec_embeds(s: Seq<FactView>, t: Seq<FactView>, w: Seq<int>) -> bool {
    &&& w.len() == s.len()
    &&& forall|i: int| 0 <= i < w.len() ==> 0 <= #[trigger] w[i] < t.len()
    &&& forall|i: int| 0 <= i < w.len() ==> s[i] == t[#[trigger] w[i]]
    &&& forall|i: int, j: int| 0 <= i < j < w.len() ==> #[trigger] w[i] < #[trigger] w[j]
}

/// Containment is kept when the contained sequence drops its head.
pub proof fn lemma_subsequence_drop_head(s: Seq<FactView>, t: Seq<FactView>)
    requires
        spec_is_subsequence(s, t),
        s.len() > 0,
    ensures
        spec_is_subsequence(s.skip(1), t),
    decreases t.len(), s.len(),
{
    if t.len() == 0 {
    } else if s[0] == t[0] {
        lemma_subsequence_widen_target(s.skip(1), t);
    } else {
        lemma_subsequence_drop_head(s, t.skip(1));
        lemma_subsequence_widen_target(s.skip(1), t);
    }
}

/// Containment in a sequence's tail is containment in the whole sequence.
pub proof fn lemma_subsequence_widen_target(s: Seq<FactView>, t: Seq<FactView>)
    requires
        t.len() > 0,
        spec_is_subsequence(s, t.skip(1)),
    ensures
        spec_is_subsequence(s, t),
    decreases t.len(), s.len(),
{
    if s.len() == 0 {
    } else if s[0] == t[0] {
        lemma_subsequence_drop_head(s, t.skip(1));
    }
}

/// Whenever `s` occurs in `t` at increasing positions, the greedy containment
/// check accepts it.
pub proof fn lemma_embedding_implies_subsequence(s: Seq<FactView>, t: Seq<FactView>, w: Seq<int>)
    requires
        spec_embeds(s, t, w),
    ensures
        spec_is_subsequence(s, t),
    decreases t.len(),
{
    if s.len() == 0 {
    } else {
        assert(0 <= w[0] < t.len());
        if w[0] == 0 {
            assert(s[0] == t[0]);
            let w2 = w.skip(1).map_values(|x: int| x - 1);
            assert(spec_embeds(s.skip(1), t.skip(1), w2)) by {
                assert forall|i: int| 0 <= i < w2.len() implies 0 <= #[trigger] w2[i] < t.skip(
                    1,
                ).len() && s.skip(1)[i] == t.skip(1)[w2[i]] by {
                    assert(w2[i] == w[i + 1] - 1);
                    assert(w[0] < w[i + 1]);
                    assert(s.skip(1)[i] == s[i + 1]);
                    assert(t.skip(1)[w[i + 1] - 1] == t[w[i + 1]]);
                }
                assert forall|i: int, j: int| 0 <= i < j < w2.len() implies #[trigger] w2[i]
                    < #[trigger] w2[j] by {
                    assert(w[i + 1] < w[j + 1]);
                }
            }
            lemma_embedding_implies_subsequence(s.skip(1), t.skip(1), w2);
        } else {
            let w1 = w.map_values(|x: int| x - 1);
            assert(spec_embeds(s, t.skip(1), w1)) by {
                assert forall|i: int| 0 <= i < w1.len() implies 0 <= #[trigger] w1[i] < t.skip(
                    1,
                ).len() && s[i] == t.skip(1)[w1[i]] by {
                    if i > 0 {
                        assert(w[0] < w[i]);
                    }
                    assert(w[i] >= 1);
                    assert(t.skip(1)[w[i] - 1] == t[w[i]]);
                }
                assert forall|i: int, j: int| 0 <= i < j < w1.len() implies #[trigger] w1[i]
                    < #[trigger] w1[j] by {
                    assert(w[i] < w[j]);
                }
            }
            lemma_embedding_implies_subsequence(s, t.skip(1), w1);
            if s[0] == t[0] {
                lemma_subsequence_drop_head(s, t.skip(1));
            }
        }
    }
}

/// Whenever the greedy containment check accepts `s` in `t`, the elements of
/// `s` occur in `t` at increasing positions.
pub proof fn lemma_subsequence_has_embedding(s: Seq<FactView>, t: Seq<FactView>)
    requires
        spec_is_subsequence(s, t),
    ensures
        exists|w: Seq<int>| spec_embeds(s, t, w),
    decreases t.len(),
{
    if s.len() == 0 {
        let w = Seq::<int>::empty();
        assert(spec_embeds(s, t, w));
    } else if s[0] == t[0] {
        lemma_subsequence_has_embedding(s.skip(1), t.skip(1));
        let w2 = choose|w2: Seq<int>| spec_embeds(s.skip(1), t.skip(1), w2);
        let w = seq![0int] + w2.map_values(|x: int| x + 1);
        assert(spec_embeds(s, t, w)) by {
            assert(w[0] == 0);
            assert forall|i: int| 0 <= i < w.len() implies 0 <= #[trigger] w[i] < t.len() && s[i]
                == t[w[i]] by {
                if i > 0 {
                    assert(w[i] == w2[i - 1] + 1);
                    assert(s.skip(1)[i - 1] == s[i]);
                    assert(t.skip(1)[w2[i - 1]] == t[w2[i - 1] + 1]);
                }
            }
            assert forall|i: int, j: int| 0 <= i < j < w.len() implies #[trigger] w[i]
                < #[trigger] w[j] by {
                if i > 0 {
                    assert(w2[i - 1] < w2[j - 1]);
                } else {
                    assert(w[j] == w2[j - 1] + 1);
                    assert(0 <= w2[j - 1]);
                }
            }
        }
    } else {
        lemma_subsequence_has_embedding(s, t.skip(1));
        let w1 = choose|w1: Seq<int>| spec_embeds(s, t.skip(1), w1);
        let w = w1.map_values(|x: int| x + 1);
        assert(spec_embeds(s, t, w)) by {
            assert forall|i: int| 0 <= i < w.len() implies 0 <= #[trigger] w[i] < t.len() && s[i]
                == t[w[i]] by {
                assert(w[i] == w1[i] + 1);
                assert(t.skip(1)[w1[i]] == t[w1[i] + 1]);
            }
            assert forall|i: int, j: int| 0 <= i < j < w.len() implies #[trigger] w[i]
                < #[trigger] w[j] by {
                assert(w1[i] < w1[j]);
            }
        }
    }
}

/// Every sequence is an in-order subsequence of itself.
pub proof fn lemma_subsequence_reflexive(s: Seq<FactView>)
    ensures
        spec_is_subsequence(s, s),
    decreases s.len(),
{
    if s.len() > 0 {
        lemma_subsequence_reflexive(s.skip(1));
    }
}

/// Every prefix of a sequence is an in-order subsequence of it.
pub proof fn lemma_prefix_is_subsequence(s: Seq<FactView>, k: int)
    requires
        0 <= k <= s.len(),
    ensures
        spec_is_subsequence(s.take(k), s),
{
    let w = Seq::new(k as nat, |i: int| i);
    assert(spec_embeds(s.take(k), s, w)) by {
        assert forall|i: int| 0 <= i < w.len() implies 0 <= #[trigger] w[i] < s.len() && s.take(
            k,
        )[i] == s[w[i]] by {
            assert(w[i] == i);
        }
    }
    lemma_embedding_implies_subsequence(s.take(k), s, w);
}

/// The greedy matching misses nothing expected exactly when the expected
/// sequence is an in-order subsequence of the actual one.
pub proof fn lemma_no_missing_iff_subsequence(e: Seq<FactView>, a: Seq<FactView>)
    ensures
        spec_unmatched(e, a).0.len() == 0 <==> spec_is_subsequence(e, a),
    decreases a.len(),
{
    if a.len() == 0 {
    } else if e.len() > 0 && e[0] == a[0] {
        lemma_no_missing_iff_subsequence(e.skip(1), a.skip(1));
    } else {
        lemma_no_missing_iff_subsequence(e, a.skip(1));
    }
}

} // verus!
