//! Laws of the order of values.
use vstd::prelude::*;

use crate::value::{function_order, kind_index, seq_order, value_order, RawType, Value};

verus! {

/// Every value is level with itself.
pub proof fn lemma_order_reflexive(a: Value)
    ensures
        value_order(a, a) == 0,
    decreases a, 0int,
{
    a.lemma_contents_decrease();
    if a.kind() == RawType::Partial && a.args_of().len() > 0 {
        lemma_seq_reflexive(a.args_of(), 0);
    }
    if a.kind() == RawType::Array && a.items_of().len() > 0 {
        lemma_seq_reflexive(a.items_of(), 0);
    }
}

/// Every sequence of values is level with itself.
pub proof fn lemma_seq_reflexive(s: Seq<Value>, i: int)
    requires
        0 <= i <= s.len(),
    ensures
        seq_order(s, s, i) == 0,
    decreases s, s.len() - i,
{
    if i < s.len() {
        lemma_order_reflexive(s[i]);
        lemma_seq_reflexive(s, i + 1);
    }
}

/// Sequences of equal length whose elements are pairwise level are level.
pub proof fn lemma_seq_pointwise(s: Seq<Value>, t: Seq<Value>, i: int)
    requires
        s.len() == t.len(),
        0 <= i <= s.len(),
        forall|j: int| i <= j < s.len() ==> value_order(#[trigger] s[j], t[j]) == 0,
    ensures
        seq_order(s, t, i) == 0,
    decreases s.len() - i,
{
    if i < s.len() {
        lemma_seq_pointwise(s, t, i + 1);
    }
}

/// Swapping the two values negates their order, which is -1, 0 or 1.
pub proof fn lemma_order_antisymmetric(a: Value, b: Value)
    ensures
        value_order(b, a) == -value_order(a, b),
        -1 <= value_order(a, b) <= 1,
    decreases a, 0int,
{
    a.lemma_contents_decrease();
    if a.kind() == b.kind() {
        if a.kind() == RawType::Partial && a.args_of().len() > 0 && b.args_of().len() > 0 {
            lemma_seq_antisymmetric(a.args_of(), b.args_of(), 0);
        }
        if a.kind() == RawType::Array && a.items_of().len() > 0 && b.items_of().len() > 0 {
            lemma_seq_antisymmetric(a.items_of(), b.items_of(), 0);
        }
    }
}

/// Swapping two sequences negates their order, which is -1, 0 or 1.
pub proof fn lemma_seq_antisymmetric(s: Seq<Value>, t: Seq<Value>, i: int)
    requires
        0 <= i,
    ensures
        seq_order(t, s, i) == -seq_order(s, t, i),
        -1 <= seq_order(s, t, i) <= 1,
    decreases s, s.len() - i,
{
    if i < s.len() && i < t.len() {
        lemma_order_antisymmetric(s[i], t[i]);
        lemma_seq_antisymmetric(s, t, i + 1);
    }
}

/// If `a` is at or below `b` and `b` at or below `c`, then `a` is at or below
/// `c`, and level with it only where all three are level.
pub proof fn lemma_order_transitive(a: Value, b: Value, c: Value)
    requires
        value_order(a, b) <= 0,
        value_order(b, c) <= 0,
    ensures
        value_order(a, c) <= 0,
        value_order(a, c) == 0 ==> value_order(a, b) == 0 && value_order(b, c) == 0,
    decreases a, 0int,
{
    a.lemma_contents_decrease();
    if a.kind() == b.kind() && b.kind() == c.kind() {
        if a.kind() == RawType::Partial && function_order(
            a.partial_of().function,
            b.partial_of().function,
        ) == 0 && function_order(b.partial_of().function, c.partial_of().function) == 0
            && a.args_of().len() > 0 && b.args_of().len() > 0 && c.args_of().len() > 0 {
            lemma_seq_transitive(a.args_of(), b.args_of(), c.args_of(), 0);
        }
        if a.kind() == RawType::Array && a.items_of().len() > 0 && b.items_of().len() > 0
            && c.items_of().len() > 0 {
            lemma_seq_transitive(a.items_of(), b.items_of(), c.items_of(), 0);
        }
    }
}

/// The lexicographic order of sequences is transitive in the same way.
pub proof fn lemma_seq_transitive(s: Seq<Value>, t: Seq<Value>, u: Seq<Value>, i: int)
    requires
        0 <= i,
        seq_order(s, t, i) <= 0,
        seq_order(t, u, i) <= 0,
    ensures
        seq_order(s, u, i) <= 0,
        seq_order(s, u, i) == 0 ==> seq_order(s, t, i) == 0 && seq_order(t, u, i) == 0,
    decreases s, s.len() - i,
{
    if i < s.len() && i < t.len() && i < u.len() {
        lemma_order_antisymmetric(s[i], t[i]);
        lemma_order_antisymmetric(t[i], u[i]);
        lemma_order_transitive(s[i], t[i], u[i]);
        if value_order(s[i], t[i]) == 0 && value_order(t[i], u[i]) == 0 {
            lemma_seq_transitive(s, t, u, i + 1);
        }
    }
}

/// Values of different kinds are never equal, and order as their kinds do.
pub proof fn lemma_kinds_order(a: Value, b: Value)
    requires
        a.kind() != b.kind(),
    ensures
        value_order(a, b) != 0,
        value_order(a, b) < 0 <==> kind_index(a.kind()) < kind_index(b.kind()),
{
}

/// Every value has exactly one of the five kinds.
pub proof fn lemma_kind_partition(v: Value)
    ensures
        (v.kind() == RawType::Number) as int + (v.kind() == RawType::Char) as int + (v.kind()
            == RawType::Function) as int + (v.kind() == RawType::Partial) as int + (v.kind()
            == RawType::Array) as int == 1,
{
}

/// The order is a strict weak order: `<` is transitive, and values that are
/// equal are not below one another.
pub proof fn lemma_strict_weak_order(a: Value, b: Value, c: Value)
    ensures
        value_order(a, b) < 0 && value_order(b, c) < 0 ==> value_order(a, c) < 0,
        value_order(a, b) == 0 ==> !(value_order(a, b) < 0) && !(value_order(b, a) < 0),
        value_order(a, b) == 0 && value_order(b, c) == 0 ==> value_order(a, c) == 0,
{
    lemma_order_antisymmetric(a, b);
    lemma_order_antisymmetric(b, c);
    lemma_order_antisymmetric(a, c);
    if value_order(a, b) <= 0 && value_order(b, c) <= 0 {
        lemma_order_transitive(a, b, c);
    }
    if value_order(a, b) == 0 && value_order(b, c) == 0 {
        lemma_order_transitive(c, b, a);
    }
}

} // verus!
