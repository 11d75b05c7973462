//! Deterministic text rendering used by failure explanations: decimal
//! numbers, and the bracketed listing of fact sequences that comparison
//! failures embed in their facts.

use vstd::prelude::*;

use crate::fact::Fact;
use crate::fact::FactView;

verus! {

/// Exact text equality of two string slices.
pub fn str_eq(a: &str, b: &str) -> (r: bool)
    ensures
        r == (a@ == b@),
{
    let sa = a.to_owned();
    let sb = b.to_owned();
    sa.eq(&sb)
}

/// The character for one decimal digit.
pub open spec fn spec_dec_digit(d: nat) -> char {
    if d == 0 {
        '0'
    } else if d == 1 {
        '1'
    } else if d == 2 {
        '2'
    } else if d == 3 {
        '3'
    } else if d == 4 {
        '4'
    } else if d == 5 {
        '5'
    } else if d == 6 {
        '6'
    } else if d == 7 {
        '7'
    } else if d == 8 {
        '8'
    } else {
        '9'
    }
}

/// The decimal rendering of a number, most significant digit first.
pub open spec fn spec_dec(n: nat) -> Seq<char>
    decreases n,
{
    if n < 10 {
        seq![spec_dec_digit(n)]
    } else {
        spec_dec(n / 10).push(spec_dec_digit(n % 10))
    }
}

fn dec_digit_str(d: usize) -> (r: &'static str)
    requires
        d < 10,
    ensures
        r@ == seq![spec_dec_digit(d as nat)],
{
    if d == 0 {
        proof {
            reveal_strlit("0");
            assert("0"@ =~= seq![spec_dec_digit(0)]);
        }
        "0"
    } else if d == 1 {
        proof {
            reveal_strlit("1");
            assert("1"@ =~= seq![spec_dec_digit(1)]);
        }
        "1"
    } else if d == 2 {
        proof {
            reveal_strlit("2");
            assert("2"@ =~= seq![spec_dec_digit(2)]);
        }
        "2"
    } else if d == 3 {
        proof {
            reveal_strlit("3");
            assert("3"@ =~= seq![spec_dec_digit(3)]);
        }
        "3"
    } else if d == 4 {
        proof {
            reveal_strlit("4");
            assert("4"@ =~= seq![spec_dec_digit(4)]);
        }
        "4"
    } else if d == 5 {
        proof {
            reveal_strlit("5");
            assert("5"@ =~= seq![spec_dec_digit(5)]);
        }
        "5"
    } else if d == 6 {
        proof {
            reveal_strlit("6");
            assert("6"@ =~= seq![spec_dec_digit(6)]);
        }
        "6"
    } else if d == 7 {
        proof {
            reveal_strlit("7");
            assert("7"@ =~= seq![spec_dec_digit(7)]);
        }
        "7"
    } else if d == 8 {
        proof {
            reveal_strlit("8");
            assert("8"@ =~= seq![spec_dec_digit(8)]);
        }
        "8"
    } else {
        proof {
            reveal_strlit("9");
            assert("9"@ =~= seq![spec_dec_digit(9)]);
        }
        "9"
    }
}

/// Renders a number in decimal.
pub fn dec_string(n: usize) -> (r: String)
    ensures
        r@ == spec_dec(n as nat),
    decreases n,
{
    if n < 10 {
        dec_digit_str(n).to_owned()
    } else {
        assert(n / 10 < n);
        let mut s = dec_string(n / 10);
        s.append(dec_digit_str(n % 10));
        proof {
            assert(s@ =~= spec_dec((n / 10) as nat).push(spec_dec_digit((n % 10) as nat)));
        }
        s
    }
}

/// How one fact renders inside a bracketed fact listing.
pub open spec fn spec_fact_debug(f: FactView) -> Seq<char> {
    match f {
        FactView::Value { value } => "Value { value: \""@ + value + "\" }"@,
        FactView::KeyValue { key, value } => "KeyValue { key: \""@ + key + "\", value: \""@
            + value + "\" }"@,
        FactView::Splitter => "Splitter"@,
    }
}

/// The items of a bracketed fact listing, separated by ", ".
pub open spec fn spec_fact_list_items(fs: Seq<FactView>) -> Seq<char>
    decreases fs.len(),
{
    if fs.len() == 0 {
        Seq::empty()
    } else if fs.len() == 1 {
        spec_fact_debug(fs[0])
    } else {
        spec_fact_debug(fs[0]) + ", "@ + spec_fact_list_items(fs.skip(1))
    }
}

/// A fact sequence renders as its items between square brackets.
pub open spec fn spec_fact_list(fs: Seq<FactView>) -> Seq<char> {
    "["@ + spec_fact_list_items(fs) + "]"@
}

proof fn lemma_fact_list_items_push(fs: Seq<FactView>, x: FactView)
    ensures
        spec_fact_list_items(fs.push(x)) == if fs.len() == 0 {
            spec_fact_debug(x)
        } else {
            spec_fact_list_items(fs) + ", "@ + spec_fact_debug(x)
        },
    decreases fs.len(),
{
    if fs.len() == 0 {
        assert(fs.push(x).len() == 1);
        assert(fs.push(x)[0] == x);
    } else if fs.len() == 1 {
        assert(fs.push(x).skip(1) =~= seq![x]);
        assert(fs.push(x)[0] == fs[0]);
        assert(spec_fact_list_items(seq![x]) == spec_fact_debug(x));
    } else {
        assert(fs.push(x).skip(1) =~= fs.skip(1).push(x));
        assert(fs.push(x)[0] == fs[0]);
        lemma_fact_list_items_push(fs.skip(1), x);
        assert(spec_fact_list_items(fs.push(x)) =~= spec_fact_list_items(fs) + ", "@
            + spec_fact_debug(x));
    }
}

fn render_fact_debug(f: &Fact) -> (r: String)
    ensures
        r@ == spec_fact_debug(f@),
{
    match f {
        Fact::Value { value } => "Value { value: \"".to_owned().concat(value.as_str()).concat(
            "\" }",
        ),
        Fact::KeyValue { key, value } => "KeyValue { key: \"".to_owned().concat(
            key.as_str(),
        ).concat("\", value: \"").concat(value.as_str()).concat("\" }"),
        Fact::Splitter => "Splitter".to_owned(),
    }
}

/// Renders a fact vector as its bracketed listing.
pub fn render_fact_list(facts: &Vec<Fact>) -> (r: String)
    ensures
        r@ == spec_fact_list(facts.deep_view()),
{
    let mut out = "[".to_owned();
    proof {
        assert(out@ =~= "["@ + spec_fact_list_items(facts.deep_view().take(0)));
    }
    let n = facts.len();
    let mut i: usize = 0;
    while i < n
        invariant
            i <= n,
            n == facts@.len(),
            out@ == "["@ + spec_fact_list_items(facts.deep_view().take(i as int)),
        decreases n - i,
    {
        if i > 0 {
            out.append(", ");
        }
        let d = render_fact_debug(&facts[i]);
        out.append(d.as_str());
        proof {
            let dv = facts.deep_view();
            assert(dv.take(i + 1 as int) =~= dv.take(i as int).push(dv[i as int]));
            lemma_fact_list_items_push(dv.take(i as int), dv[i as int]);
            assert(out@ =~= "["@ + spec_fact_list_items(dv.take(i + 1 as int)));
        }
        i = i + 1;
    }
    out.append("]");
    proof {
        assert(facts.deep_view().take(n as int) =~= facts.deep_view());
    }
    out
}

} // verus!
