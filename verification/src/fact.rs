//! The vocabulary for describing why an assertion failed: a failure owns a
//! finite ordered sequence of facts, each a free-form statement, a labeled
//! statement, or a visual separator.

use vstd::prelude::*;

verus! {

/// The mathematical shape of a [`Fact`]: the same three variants over
/// character sequences instead of heap strings.
pub ghost enum FactView {
    Value { value: Seq<char> },
    KeyValue { key: Seq<char>, value: Seq<char> },
    Splitter,
}

/// One statement of a failure explanation. Facts are immutable once
/// constructed and are compared by variant and exact text.
pub enum Fact {
    /// A single free-form statement, e.g. "not same".
    Value { value: String },
    /// A labeled statement, e.g. key "expected", value "[]".
    KeyValue { key: String, value: String },
    /// A visual separator between the unexpected part and the canonical
    /// expected/actual dump; it carries no payload.
    Splitter,
}

impl View for Fact {
    type V = FactView;

    open spec fn view(&self) -> FactView {
        match self {
            Fact::Value { value } => FactView::Value { value: value@ },
            Fact::KeyValue { key, value } => FactView::KeyValue { key: key@, value: value@ },
            Fact::Splitter => FactView::Splitter,
        }
    }
}

impl DeepView for Fact {
    type V = FactView;

    open spec fn deep_view(&self) -> FactView {
        self.view()
    }
}

impl Fact {
    /// Builds a labeled statement.
    pub fn new(key: &str, value: &str) -> (r: Fact)
        ensures
            r@ == (FactView::KeyValue { key: key@, value: value@ }),
    {
        Fact::KeyValue { key: key.to_owned(), value: value.to_owned() }
    }

    /// Builds a free-form statement.
    pub fn new_simple_fact(value: &str) -> (r: Fact)
        ensures
            r@ == (FactView::Value { value: value@ }),
    {
        Fact::Value { value: value.to_owned() }
    }

    /// Builds the separator fact.
    pub fn new_splitter() -> (r: Fact)
        ensures
            r@ == FactView::Splitter,
    {
        Fact::Splitter
    }

    /// A fresh fact with the same variant and text.
    pub fn duplicate(&self) -> (r: Fact)
        ensures
            r@ == self@,
    {
        match self {
            Fact::Value { value } => Fact::Value { value: value.clone() },
            Fact::KeyValue { key, value } => Fact::KeyValue {
                key: key.clone(),
                value: value.clone(),
            },
            Fact::Splitter => Fact::Splitter,
        }
    }

    /// Facts are equal iff they have the same variant and the same field
    /// texts.
    pub fn equals(&self, other: &Fact) -> (r: bool)
        ensures
            r == (self@ == other@),
    {
        match (self, other) {
            (Fact::Value { value: a }, Fact::Value { value: b }) => a.eq(b),
            (
                Fact::KeyValue { key: ka, value: va },
                Fact::KeyValue { key: kb, value: vb },
            ) => ka.eq(kb) && va.eq(vb),
            (Fact::Splitter, Fact::Splitter) => true,
            _ => false,
        }
    }
}

/// How one fact renders as a line of a failure message: a labeled fact as
/// "key: value", a free-form fact as its text, the separator as a fixed
/// delimiter line.
pub open spec fn spec_fact_line(f: FactView) -> Seq<char> {
    match f {
        FactView::Value { value } => value,
        FactView::KeyValue { key, value } => key + ": "@ + value,
        FactView::Splitter => "---"@,
    }
}

/// Renders one fact as its message line.
pub fn render_fact_line(f: &Fact) -> (r: String)
    ensures
        r@ == spec_fact_line(f@),
{
    match f {
        Fact::Value { value } => value.clone(),
        Fact::KeyValue { key, value } => key.clone().concat(": ").concat(value.as_str()),
        Fact::Splitter => "---".to_owned(),
    }
}

/// Copies a sequence of facts into a fresh vector.
pub fn duplicate_facts(facts: &Vec<Fact>) -> (r: Vec<Fact>)
    ensures
        r.deep_view() == facts.deep_view(),
{
    let mut out: Vec<Fact> = Vec::new();
    let n = facts.len();
    let mut i: usize = 0;
    while i < n
        invariant
            i <= n,
            n == facts@.len(),
            out.deep_view() == facts.deep_view().take(i as int),
        decreases n - i,
    {
        let f = facts[i].duplicate();
        let ghost prev = out.deep_view();
        out.push(f);
        proof {
            assert(out.deep_view() =~= prev.push(f@));
            assert(out.deep_view() =~= facts.deep_view().take(i + 1 as int));
        }
        i = i + 1;
    }
    proof {
        assert(facts.deep_view().take(n as int) =~= facts.deep_view());
    }
    out
}

} // verus!
