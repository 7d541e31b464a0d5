//! One-line text for functions and closures.
use vstd::prelude::*;
use vstd::string::StringExecFns;

use crate::function::Function;
use crate::value::{Partial, Value};

verus! {

/// The character of the decimal digit `d`.
pub open spec fn digit_char(d: nat) -> char {
    seq!['0', '1', '2', '3', '4', '5', '6', '7', '8', '9'][d as int]
}

/// The decimal digits of `n`, most significant first, without leading zeros.
pub open spec fn decimal(n: nat) -> Seq<char>
    decreases n,
{
    if n < 10 {
        seq![digit_char(n)]
    } else {
        decimal(n / 10) + seq![digit_char(n % 10)]
    }
}

/// The text of a function: `nil` for the absent function, else
/// `fn(start params)`.
pub open spec fn function_text(f: Function) -> Seq<char> {
    if f.start == 0 {
        seq!['n', 'i', 'l']
    } else {
        seq!['f', 'n', '('] + decimal(f.start as nat) + seq![' '] + decimal(f.params as nat) + seq![')']
    }
}

/// The text of a closure: `fn(start bound/params)`.
pub open spec fn partial_text(p: Partial) -> Seq<char> {
    seq!['f', 'n', '('] + decimal(p.function.start as nat) + seq![' '] + decimal(p.args@.len())
        + seq!['/'] + decimal(p.function.params as nat) + seq![')']
}

fn digit_str(d: u64) -> (r: &'static str)
    requires
        d < 10,
    ensures
        r@ == seq![digit_char(d as nat)],
{
    proof {
        reveal_strlit("0");
        reveal_strlit("1");
        reveal_strlit("2");
        reveal_strlit("3");
        reveal_strlit("4");
        reveal_strlit("5");
        reveal_strlit("6");
        reveal_strlit("7");
        reveal_strlit("8");
        reveal_strlit("9");
    }
    let r = if d == 0 {
        "0"
    } else if d == 1 {
        "1"
    } else if d == 2 {
        "2"
    } else if d == 3 {
        "3"
    } else if d == 4 {
        "4"
    } else if d == 5 {
        "5"
    } else if d == 6 {
        "6"
    } else if d == 7 {
        "7"
    } else if d == 8 {
        "8"
    } else {
        "9"
    };
    assert(r@ =~= seq![digit_char(d as nat)]);
    r
}

/// Appends the decimal digits of `n` to `s`.
pub fn append_decimal(s: &mut String, n: u64)
    ensures
        final(s)@ == old(s)@ + decimal(n as nat),
    decreases n,
{
    let ghost start = s@;
    if n >= 10 {
        append_decimal(s, n / 10);
    }
    s.append(digit_str(n % 10));
    assert(s@ =~= start + decimal(n as nat));
}

impl Function {
    /// `nil` for the absent function, else `fn(start params)`.
    pub fn render(&self) -> (r: String)
        ensures
            r@ == function_text(*self),
    {
        proof {
            reveal_strlit("nil");
            reveal_strlit("fn(");
            reveal_strlit(" ");
            reveal_strlit(")");
        }
        if self.start == 0 {
            let r = String::from_str("nil");
            assert(r@ =~= function_text(*self));
            r
        } else {
            let mut r = String::new();
            r.append("fn(");
            append_decimal(&mut r, self.start as u64);
            r.append(" ");
            append_decimal(&mut r, self.params as u64);
            r.append(")");
            assert(r@ =~= function_text(*self));
            r
        }
    }
}

impl Partial {
    /// `fn(start bound/params)`, where `bound` counts the bound arguments.
    pub fn render(&self) -> (r: String)
        ensures
            r@ == partial_text(*self),
    {
        proof {
            reveal_strlit("fn(");
            reveal_strlit(" ");
            reveal_strlit("/");
            reveal_strlit(")");
        }
        let args: &Vec<Value> = &self.args;
        let mut r = String::new();
        r.append("fn(");
        append_decimal(&mut r, self.function.start as u64);
        r.append(" ");
        append_decimal(&mut r, args.len() as u64);
        r.append("/");
        append_decimal(&mut r, self.function.params as u64);
        r.append(")");
        assert(r@ =~= partial_text(*self));
        r
    }
}

} // verus!
