//! Canonical formula rendering.
//!
//! An agent prints as its active terms joined by ` + `, each term in the form
//! `scale/65536*basis(x + shift/65536)`: coefficients are shown as exact
//! fixed-point rationals over [`FP_SCALE`](crate::fixed::FP_SCALE), the basis
//! is `sin` for the sine wave and `frac` for the sawtooth.

use vstd::prelude::*;
use vstd::string::StringExecFns;
use vstd::string::StrSliceExecFns;
use crate::agent::{term_wf, Agent, FunctionCoefficients, WaveFunction};
use crate::sort::views;
use crate::engine::Trainer;

verus! {

/// The decimal digit character of `d` in `[0, 10)`.
pub open spec fn digit_char(d: int) -> char {
    if d == 0 {
        '0'
    } else if d == 1 {
        '1'
    } else if d == 2 {
        '2'
    } else if d == 3 {
        '3'
    } else if d == 4 {
        '4'
    } else if d == 5 {
        '5'
    } else if d == 6 {
        '6'
    } else if d == 7 {
        '7'
    } else if d == 8 {
        '8'
    } else {
        '9'
    }
}

/// The decimal digits of a non-negative number, most significant first.
pub open spec fn dec_digits(n: int) -> Seq<char>
    decreases n,
{
    if n < 10 {
        seq![digit_char(n)]
    } else {
        dec_digits(n / 10).push(digit_char(n % 10))
    }
}

/// The decimal rendering of a signed number.
pub open spec fn int_str(v: int) -> Seq<char> {
    if v < 0 {
        seq!['-'] + dec_digits(-v)
    } else {
        dec_digits(v)
    }
}

/// The printed name of a basis.
pub open spec fn basis_name_spec(k: WaveFunction) -> Seq<char> {
    match k {
        WaveFunction::Sine => "sin"@,
        WaveFunction::SawTooth => "frac"@,
    }
}

/// One term's canonical form: `scale/65536*basis(x + shift/65536)`.
pub open spec fn term_str_spec(t: FunctionCoefficients) -> Seq<char> {
    int_str(t.scale as int) + "/65536*"@ + basis_name_spec(t.function_type) + "(x + "@ + int_str(
        t.x_translation as int,
    ) + "/65536)"@
}

/// The whole formula: active terms joined by ` + `, empty for no terms.
pub open spec fn formula_str_spec(terms: Seq<FunctionCoefficients>) -> Seq<char>
    decreases terms.len(),
{
    if terms.len() == 0 {
        Seq::empty()
    } else if terms.len() == 1 {
        term_str_spec(terms[0])
    } else {
        formula_str_spec(terms.drop_last()) + " + "@ + term_str_spec(terms.last())
    }
}

/// The character of one digit.
fn digit_str(d: u64) -> (r: &'static str)
    requires
        d < 10,
    ensures
        r@ =~= seq![digit_char(d as int)],
{
    proof {
        reveal_strlit("0");
        reveal_strlit("1");
        reveal_strlit("2");
        reveal_strlit("3");
        reveal_strlit("4");
        reveal_strlit("5");
        reveal_strlit("6");
        reveal_strlit("7");
        reveal_strlit("8");
        reveal_strlit("9");
    }
    if d == 0 {
        "0"
    } else if d == 1 {
        "1"
    } else if d == 2 {
        "2"
    } else if d == 3 {
        "3"
    } else if d == 4 {
        "4"
    } else if d == 5 {
        "5"
    } else if d == 6 {
        "6"
    } else if d == 7 {
        "7"
    } else if d == 8 {
        "8"
    } else {
        "9"
    }
}

/// Append the decimal digits of `n` to a string.
fn push_dec(s: &mut String, n: u64)
    ensures
        final(s)@ == old(s)@ + dec_digits(n as int),
    decreases n,
{
    if n < 10 {
        s.append(digit_str(n));
        assert(final(s)@ =~= old(s)@ + dec_digits(n as int));
    } else {
        push_dec(s, n / 10);
        s.append(digit_str(n % 10));
        assert(final(s)@ =~= old(s)@ + dec_digits(n as int));
    }
}

/// Append the decimal rendering of a signed value to a string.
fn push_int(s: &mut String, v: i64)
    requires
        v > i64::MIN,
    ensures
        final(s)@ == old(s)@ + int_str(v as int),
{
    if v < 0 {
        proof {
            reveal_strlit("-");
        }
        s.append("-");
        push_dec(s, (-v) as u64);
        assert(final(s)@ =~= old(s)@ + int_str(v as int));
    } else {
        push_dec(s, v as u64);
    }
}

/// Append one term's canonical form to a string.
fn push_term(s: &mut String, t: &FunctionCoefficients)
    requires
        term_wf(*t),
    ensures
        final(s)@ == old(s)@ + term_str_spec(*t),
{
    push_int(s, t.scale);
    s.append("/65536*");
    match t.function_type {
        WaveFunction::Sine => s.append("sin"),
        WaveFunction::SawTooth => s.append("frac"),
    }
    s.append("(x + ");
    push_int(s, t.x_translation);
    s.append("/65536)");
    assert(final(s)@ =~= old(s)@ + term_str_spec(*t));
}

impl Agent {
    /// The human-readable expression of this agent: each active term's
    /// canonical form, joined by ` + `.
    pub fn render_formula(&self) -> (r: String)
        requires
            forall|i: int| 0 <= i < self@.terms.len() ==> term_wf(#[trigger] self@.terms[i]),
        ensures
            r@ == formula_str_spec(self@.terms),
    {
        let mut s = "".to_owned();
        proof {
            reveal_strlit("");
            assert(s@ =~= formula_str_spec(self@.terms.subrange(0, 0)));
        }
        let mut i: usize = 0;
        let n = self.functions.len();
        while i < n
            invariant
                i <= n,
                n == self.functions@.len(),
                forall|k: int| 0 <= k < self@.terms.len() ==> term_wf(#[trigger] self@.terms[k]),
                s@ == formula_str_spec(self@.terms.subrange(0, i as int)),
            decreases n - i,
        {
            if i > 0 {
                s.append(" + ");
            }
            push_term(&mut s, &self.functions[i]);
            proof {
                let pre = self@.terms.subrange(0, i as int);
                let now = self@.terms.subrange(0, i + 1);
                assert(now.drop_last() =~= pre);
                assert(now.last() == self@.terms[i as int]);
                if i == 0 {
                    assert(s@ =~= formula_str_spec(now));
                } else {
                    assert(s@ =~= formula_str_spec(now));
                }
            }
            i = i + 1;
        }
        proof {
            assert(self@.terms.subrange(0, n as int) =~= self@.terms);
        }
        s
    }
}

impl Trainer {
    /// The canonical formula of the current best agent.
    pub fn best_formula(&mut self) -> (r: String)
        requires
            old(self).wf(),
            old(self).initialized,
        ensures
            final(self).wf(),
            final(self).agents@ == old(self).agents@,
            final(self).initialized,
            r@ == formula_str_spec(views(old(self).agents@)[0].terms),
    {
        let a = self.best();
        proof {
            assert(a@.terms == views(old(self).agents@)[0].terms);
        }
        a.render_formula()
    }
}

} // verus!
