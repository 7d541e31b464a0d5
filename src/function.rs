//! Function descriptors: a code offset and an arity, packed inline.
use vstd::prelude::*;

verus! {

/// A function: the offset of its code and the number of its parameters.
/// The offset 0 marks the absent function.
#[derive(Clone, Copy, Debug, PartialEq, Eq, Structural, PartialOrd, Ord, Hash)]
pub struct Function {
    pub start: u32,
    pub params: u16,
}

/// The 48 payload bits of a function: the four little-endian bytes of
/// `start`, then the two of `params`.
pub open spec fn function_payload(f: Function) -> u64 {
    (f.start as u64 + (f.params as u64) * 0x1_0000_0000) as u64
}

/// The function that 48 payload bits hold.
pub open spec fn payload_function(p: u64) -> Function {
    Function { start: (p % 0x1_0000_0000) as u32, params: ((p / 0x1_0000_0000) % 0x1_0000) as u16 }
}

/// Packing a function and reading it back gives the function.
pub proof fn lemma_function_round_trip(f: Function)
    ensures
        function_payload(f) <= 0x0000_FFFF_FFFF_FFFF,
        payload_function(function_payload(f)) == f,
{
    let p = f.start as int + (f.params as int) * 0x1_0000_0000;
    assert(p <= 0x0000_FFFF_FFFF_FFFF && p % 0x1_0000_0000 == f.start as int && p / 0x1_0000_0000
        == f.params as int) by (nonlinear_arith)
        requires
            p == f.start as int + (f.params as int) * 0x1_0000_0000,
            f.start < 0x1_0000_0000,
            f.params < 0x1_0000,
    ;
}

impl Function {
    /// A function at `start` taking `params` parameters.
    pub fn new(start: u32, params: u16) -> (r: Function)
        ensures
            r.start == start,
            r.params == params,
    {
        Function { start, params }
    }

    /// The absent function.
    pub fn nil() -> (r: Function)
        ensures
            r.start == 0,
            r.params == 1,
    {
        Function { start: 0, params: 1 }
    }

    /// Whether this is the absent function.
    pub fn is_nil(&self) -> (r: bool)
        ensures
            r == (self.start == 0),
    {
        self.start == 0
    }

    /// The 48 payload bits of this function.
    pub fn to_payload(&self) -> (r: u64)
        ensures
            r == function_payload(*self),
            r <= 0x0000_FFFF_FFFF_FFFF,
    {
        proof {
            lemma_function_round_trip(*self);
        }
        self.start as u64 + (self.params as u64) * 0x1_0000_0000
    }

    /// The function that the payload bits `p` hold.
    pub fn from_payload(p: u64) -> (r: Function)
        ensures
            r == payload_function(p),
    {
        Function { start: (p % 0x1_0000_0000) as u32, params: ((p / 0x1_0000_0000) % 0x1_0000) as u16 }
    }
}

impl Default for Function {
    fn default() -> (r: Function)
        ensures
            r.start == 0,
            r.params == 1,
    {
        Function::nil()
    }
}

} // verus!
