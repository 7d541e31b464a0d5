//! The value type: one NaN-boxed word, and for closures and arrays the heap
//! object that the value owns.
use std::sync::Arc;
use vstd::prelude::*;

use crate::codec::{
    box_payload, box_word, lemma_box_round_trip, number_key, number_order,
    number_word, payload_of, sign_of, store_number, tag_of, word_payload, word_tag,
};
use crate::function::{function_payload, lemma_function_round_trip, payload_function, Function};
use crate::laws::{lemma_order_reflexive, lemma_seq_pointwise, lemma_seq_reflexive};

verus! {

broadcast use vstd::std_specs::vec::group_vec_axioms, vstd::seq::group_seq_axioms;

pub const NUMBER_TAG: u64 = 0;

pub const CHAR_TAG: u64 = 1;

pub const FUNCTION_TAG: u64 = 2;

pub const PARTIAL_TAG: u64 = 3;

pub const ARRAY_TAG: u64 = 4;

/// The five kinds of value, in the order in which values of different kinds
/// compare.
#[derive(Clone, Copy, Debug, PartialEq, Eq, Structural, PartialOrd, Ord, Hash)]
pub enum RawType {
    Number,
    Char,
    Function,
    Partial,
    Array,
}

/// The kind that a tag stands for.
pub open spec fn raw_type_of(tag: u64) -> RawType {
    if tag == NUMBER_TAG {
        RawType::Number
    } else if tag == CHAR_TAG {
        RawType::Char
    } else if tag == FUNCTION_TAG {
        RawType::Function
    } else if tag == PARTIAL_TAG {
        RawType::Partial
    } else {
        RawType::Array
    }
}

/// The place of a kind in the order of kinds.
pub open spec fn kind_index(t: RawType) -> int {
    match t {
        RawType::Number => 0,
        RawType::Char => 1,
        RawType::Function => 2,
        RawType::Partial => 3,
        RawType::Array => 4,
    }
}

/// A function with some of its arguments already bound. The argument list
/// is shared between the copies of a closure and never changed.
pub struct Partial {
    pub function: Function,
    pub args: Arc<Vec<Value>>,
}

/// An owned sequence of values.
pub struct Array {
    pub items: Vec<Value>,
}

enum Heap {
    Inline,
    Partial(Box<Partial>),
    Array(Box<Array>),
}

/// A runtime value: a number, a character, a function, a closure or an
/// array. The word holds the tag and the inline payload; a closure or an
/// array is owned through the heap slot, exactly one per such value.
pub struct Value {
    word: u64,
    heap: Heap,
}

/// The code point of a character.
pub open spec fn code_of(c: char) -> u32 {
    c as u32
}

/// Some character has the code point `v`.
pub open spec fn is_code_point(v: u64) -> bool {
    exists|c: char| #[trigger] code_of(c) as u64 == v
}

/// The character whose code point is the payload of `w`.
pub open spec fn word_char(w: u64) -> char {
    (payload_of(w) as u32) as char
}

/// Relies on `char::from_u32`: the character with code point `v`, if `v` is
/// one.
#[verifier::external_body]
fn char_from_code(v: u32) -> (r: Option<char>)
    ensures
        r matches Some(c) ==> code_of(c) == v,
        is_code_point(v as u64) ==> r is Some,
{
    char::from_u32(v)
}

/// Relies on `Arc::clone`: a second handle to the same list.
#[verifier::external_body]
fn share_args(a: &Arc<Vec<Value>>) -> (r: Arc<Vec<Value>>)
    ensures
        r@ == a@,
{
    Arc::clone(a)
}

impl Value {
    #[verifier::type_invariant]
    spec fn inv(self) -> bool {
        let t = tag_of(self.word);
        &&& t <= ARRAY_TAG
        &&& match self.heap {
            Heap::Inline => t <= FUNCTION_TAG,
            Heap::Partial(_) => t == PARTIAL_TAG,
            Heap::Array(_) => t == ARRAY_TAG,
        }
        &&& t >= PARTIAL_TAG ==> payload_of(self.word) == 0
        &&& t == CHAR_TAG ==> is_code_point(payload_of(self.word))
    }

    /// The word of this value.
    pub closed spec fn word_of(self) -> u64 {
        self.word
    }

    /// The kind of this value, read from its word.
    pub open spec fn kind(self) -> RawType {
        raw_type_of(tag_of(self.word_of()))
    }

    /// The bit pattern of the double that a number holds.
    pub open spec fn number_of(self) -> u64 {
        self.word_of()
    }

    /// The character that a character value holds.
    pub open spec fn char_of(self) -> char {
        word_char(self.word_of())
    }

    /// The function that a function value holds.
    pub open spec fn function_of(self) -> Function {
        payload_function(payload_of(self.word_of()))
    }

    /// The closure that a closure value owns.
    pub closed spec fn partial_of(self) -> Partial {
        match self.heap {
            Heap::Partial(p) => *p,
            _ => arbitrary(),
        }
    }

    /// The array that an array value owns.
    pub closed spec fn array_of(self) -> Array {
        match self.heap {
            Heap::Array(a) => *a,
            _ => arbitrary(),
        }
    }

    /// The bound arguments of a closure value.
    pub closed spec fn args_of(self) -> Seq<Value> {
        match self.heap {
            Heap::Partial(p) => p.args@,
            _ => Seq::empty(),
        }
    }

    /// A value is larger than the arguments and the elements that it owns.
    pub proof fn lemma_contents_decrease(self)
        ensures
            self.args_of().len() > 0 ==> decreases_to!(self => self.args_of()),
            self.items_of().len() > 0 ==> decreases_to!(self => self.items_of()),
    {
        match self.heap {
            Heap::Partial(p) => {
                assert(decreases_to!(self => self.heap));
                assert(decreases_to!(self.heap => p));
                assert(decreases_to!(*p => p.args));
                let v: Vec<Value> = *p.args;
                assert(decreases_to!(v => v@));
                assert(decreases_to!(self => self.args_of()));
            },
            Heap::Array(a) => {
                assert(decreases_to!(self => self.heap));
                assert(decreases_to!(self.heap => a));
                assert(decreases_to!(*a => a.items));
                assert(decreases_to!(a.items => a.items@));
            },
            Heap::Inline => {},
        }
    }

    /// The elements of an array value.
    pub closed spec fn items_of(self) -> Seq<Value> {
        match self.heap {
            Heap::Array(a) => a.items@,
            _ => Seq::empty(),
        }
    }
}

/// Compares two functions by start, then by arity: -1, 0 or 1.
pub open spec fn function_order(f: Function, g: Function) -> int {
    if f.start != g.start {
        sign_of(f.start as int - g.start as int)
    } else {
        sign_of(f.params as int - g.params as int)
    }
}

/// The order of values: -1, 0 or 1 as `a` is below, equal to or above `b`.
/// Kinds order as `RawType` lists them; numbers by `number_key`; characters by
/// code point; functions by `function_order`; closures by function, then by
/// their arguments; arrays by their elements. Sequences of values compare
/// lexicographically, a proper prefix first.
pub open spec fn value_order(a: Value, b: Value) -> int
    decreases a, 0int
    via value_order_decreases
{
    if a.kind() != b.kind() {
        sign_of(kind_index(a.kind()) - kind_index(b.kind()))
    } else {
        match a.kind() {
            RawType::Number => sign_of(number_key(a.number_of()) - number_key(b.number_of())),
            RawType::Char => sign_of(code_of(a.char_of()) as int - code_of(b.char_of()) as int),
            RawType::Function => function_order(a.function_of(), b.function_of()),
            RawType::Partial => {
                let c = function_order(a.partial_of().function, b.partial_of().function);
                if c != 0 {
                    c
                } else if a.args_of().len() == 0 {
                    if b.args_of().len() == 0 {
                        0
                    } else {
                        -1
                    }
                } else {
                    seq_order(a.args_of(), b.args_of(), 0)
                }
            },
            RawType::Array => {
                if a.items_of().len() == 0 {
                    if b.items_of().len() == 0 {
                        0
                    } else {
                        -1
                    }
                } else {
                    seq_order(a.items_of(), b.items_of(), 0)
                }
            },
        }
    }
}

#[via_fn]
proof fn value_order_decreases(a: Value, b: Value) {
    a.lemma_contents_decrease();
}

/// The lexicographic order of `s` and `t` from position `i` on.
pub open spec fn seq_order(s: Seq<Value>, t: Seq<Value>, i: int) -> int
    decreases s, s.len() - i,
{
    if i < 0 || i >= s.len() {
        if i < 0 || i >= t.len() {
            0
        } else {
            -1
        }
    } else if i >= t.len() {
        1
    } else {
        let c = value_order(s[i], t[i]);
        if c != 0 {
            c
        } else {
            seq_order(s, t, i + 1)
        }
    }
}

impl Partial {
    /// A closure of `function` with the arguments `args` bound.
    pub fn new(function: Function, args: Vec<Value>) -> (r: Partial)
        ensures
            r.function == function,
            r.args@ == args@,
    {
        Partial { function, args: Arc::new(args) }
    }
}

impl Array {
    /// An array of the given elements.
    pub fn new(items: Vec<Value>) -> (r: Array)
        ensures
            r.items@ == items@,
    {
        Array { items }
    }

    /// The number of elements.
    pub fn len(&self) -> (r: usize)
        ensures
            r == self.items@.len(),
    {
        self.items.len()
    }

    /// The element at `i`.
    pub fn get(&self, i: usize) -> (r: &Value)
        requires
            i < self.items@.len(),
        ensures
            *r == self.items@[i as int],
    {
        &self.items[i]
    }

    /// Appends `v`.
    pub fn push(&mut self, v: Value)
        ensures
            final(self).items@ == old(self).items@.push(v),
    {
        self.items.push(v);
    }

    /// Puts `v` at `i` in place of the element there.
    pub fn set(&mut self, i: usize, v: Value)
        requires
            i < old(self).items@.len(),
        ensures
            final(self).items@ == old(self).items@.update(i as int, v),
    {
        self.items.set(i, v);
    }
}

impl Value {
    /// The number whose IEEE-754 bit pattern is `bits`. A NaN whose pattern
    /// would read as a boxed value is stored as the canonical NaN.
    pub fn from_number_bits(bits: u64) -> (r: Value)
        ensures
            r.kind() == RawType::Number,
            r.word_of() == number_word(bits),
            r.number_of() == number_word(bits),
    {
        Value { word: store_number(bits), heap: Heap::Inline }
    }

    /// The character `c`.
    pub fn from_char(c: char) -> (r: Value)
        ensures
            r.kind() == RawType::Char,
            r.word_of() == box_word(CHAR_TAG, code_of(c) as u64),
            r.char_of() == c,
    {
        let code = c as u32 as u64;
        assert(code_of(c) as u64 == code);
        proof {
            lemma_box_round_trip(CHAR_TAG, code);
            lemma_char_round_trip(c);
        }
        Value { word: box_payload(CHAR_TAG, code), heap: Heap::Inline }
    }

    /// The function `f`.
    pub fn from_function(f: Function) -> (r: Value)
        ensures
            r.kind() == RawType::Function,
            r.word_of() == box_word(FUNCTION_TAG, function_payload(f)),
            r.function_of() == f,
    {
        let p = f.to_payload();
        proof {
            lemma_function_round_trip(f);
        }
        Value { word: box_payload(FUNCTION_TAG, p), heap: Heap::Inline }
    }

    /// The closure `p`, moved into a heap object that the value owns.
    pub fn from_partial(p: Partial) -> (r: Value)
        ensures
            r.kind() == RawType::Partial,
            r.word_of() == box_word(PARTIAL_TAG, 0),
            r.partial_of() == p,
            r.args_of() == p.args@,
    {
        proof {
            lemma_box_round_trip(PARTIAL_TAG, 0);
        }
        Value { word: box_payload(PARTIAL_TAG, 0), heap: Heap::Partial(Box::new(p)) }
    }

    /// The array `a`, moved into a heap object that the value owns.
    pub fn from_array(a: Array) -> (r: Value)
        ensures
            r.kind() == RawType::Array,
            r.word_of() == box_word(ARRAY_TAG, 0),
            r.array_of() == a,
            r.items_of() == a.items@,
    {
        proof {
            lemma_box_round_trip(ARRAY_TAG, 0);
        }
        Value { word: box_payload(ARRAY_TAG, 0), heap: Heap::Array(Box::new(a)) }
    }

    /// The word of this value.
    pub fn word(&self) -> (r: u64)
        ensures
            r == self.word_of(),
    {
        self.word
    }

    /// The kind of this value.
    pub fn raw_ty(&self) -> (r: RawType)
        ensures
            r == self.kind(),
    {
        let t = word_tag(self.word);
        if t == NUMBER_TAG {
            RawType::Number
        } else if t == CHAR_TAG {
            RawType::Char
        } else if t == FUNCTION_TAG {
            RawType::Function
        } else if t == PARTIAL_TAG {
            RawType::Partial
        } else {
            RawType::Array
        }
    }

    pub fn is_num(&self) -> (r: bool)
        ensures
            r == (self.kind() == RawType::Number),
    {
        word_tag(self.word) == NUMBER_TAG
    }

    pub fn is_char(&self) -> (r: bool)
        ensures
            r == (self.kind() == RawType::Char),
    {
        word_tag(self.word) == CHAR_TAG
    }

    pub fn is_function(&self) -> (r: bool)
        ensures
            r == (self.kind() == RawType::Function),
    {
        word_tag(self.word) == FUNCTION_TAG
    }

    pub fn is_partial(&self) -> (r: bool)
        ensures
            r == (self.kind() == RawType::Partial),
    {
        word_tag(self.word) == PARTIAL_TAG
    }

    pub fn is_array(&self) -> (r: bool)
        ensures
            r == (self.kind() == RawType::Array),
    {
        proof {
            use_type_invariant(self);
        }
        word_tag(self.word) == ARRAY_TAG
    }

    /// The bit pattern of the number that this value holds.
    pub fn number_bits(&self) -> (r: u64)
        requires
            self.kind() == RawType::Number,
        ensures
            r == self.number_of(),
    {
        self.word
    }

    /// The character that this value holds.
    pub fn char(&self) -> (r: char)
        requires
            self.kind() == RawType::Char,
        ensures
            r == self.char_of(),
    {
        proof {
            use_type_invariant(self);
        }
        let p = word_payload(self.word);
        proof {
            lemma_code_point_char(p);
        }
        match char_from_code(p as u32) {
            Some(c) => {
                proof {
                    lemma_char_round_trip(c);
                }
                c
            },
            None => {
                proof {
                    assert(false);
                }
                ' '
            },
        }
    }

    /// The function that this value holds.
    pub fn function(&self) -> (r: Function)
        requires
            self.kind() == RawType::Function,
        ensures
            r == self.function_of(),
    {
        Function::from_payload(word_payload(self.word))
    }

    /// Compares this value with `other` in the order of values: -1, 0 or 1.
    fn order_with(&self, other: &Value) -> (r: i8)
        ensures
            r as int == value_order(*self, *other),
        decreases *self, 0int,
    {
        proof {
            use_type_invariant(self);
            use_type_invariant(other);
            self.lemma_contents_decrease();
        }
        let ta = word_tag(self.word);
        let tb = word_tag(other.word);
        if ta != tb {
            if ta < tb {
                -1
            } else {
                1
            }
        } else if ta == NUMBER_TAG {
            number_order(self.word, other.word)
        } else if ta == CHAR_TAG {
            let pa = word_payload(self.word);
            let pb = word_payload(other.word);
            proof {
                lemma_code_point_char(pa);
                lemma_code_point_char(pb);
            }
            if pa < pb {
                -1
            } else if pa > pb {
                1
            } else {
                0
            }
        } else if ta == FUNCTION_TAG {
            function_cmp(
                Function::from_payload(word_payload(self.word)),
                Function::from_payload(word_payload(other.word)),
            )
        } else {
            match (&self.heap, &other.heap) {
                (Heap::Partial(p), Heap::Partial(q)) => {
                    let c = function_cmp(p.function, q.function);
                    let pa: &Vec<Value> = &p.args;
                    let qa: &Vec<Value> = &q.args;
                    if c != 0 {
                        c
                    } else if pa.len() == 0 {
                        if qa.len() == 0 {
                            0
                        } else {
                            -1
                        }
                    } else {
                        seq_cmp(pa, qa, 0)
                    }
                },
                (Heap::Array(a), Heap::Array(b)) => {
                    if a.items.len() == 0 {
                        if b.items.len() == 0 {
                            0
                        } else {
                            -1
                        }
                    } else {
                        seq_cmp(&a.items, &b.items, 0)
                    }
                },
                _ => vstd::pervasive::unreached(),
            }
        }
    }

    /// A copy of this value. A closure's copy is a new heap object that
    /// shares the argument list; an array's copy is a new heap object that
    /// holds a copy of each element.
    pub fn duplicate(&self) -> (r: Value)
        ensures
            value_order(r, *self) == 0,
            r.word_of() == self.word_of(),
            r.kind() == self.kind(),
            self.kind() != RawType::Partial && self.kind() != RawType::Array ==> r == *self,
            self.kind() == RawType::Partial ==> r.partial_of().function == self.partial_of().function
                && r.partial_of().args@ == self.partial_of().args@ && r.args_of() == self.args_of(),
            self.kind() == RawType::Array ==> r.items_of().len() == self.items_of().len() && (
            forall|j: int|
                0 <= j < self.items_of().len() ==> value_order(
                    #[trigger] r.items_of()[j],
                    self.items_of()[j],
                ) == 0),
        decreases *self, 2int,
    {
        proof {
            use_type_invariant(self);
            self.lemma_contents_decrease();
        }
        match &self.heap {
            Heap::Inline => {
                let r = Value { word: self.word, heap: Heap::Inline };
                proof {
                    lemma_order_reflexive(r);
                }
                r
            },
            Heap::Partial(p) => {
                let q = Partial { function: p.function, args: share_args(&p.args) };
                let r = Value { word: self.word, heap: Heap::Partial(Box::new(q)) };
                proof {
                    if r.args_of().len() > 0 {
                        lemma_seq_reflexive(r.args_of(), 0);
                    }
                }
                r
            },
            Heap::Array(a) => {
                let items = duplicate_all(&a.items);
                let r = Value { word: self.word, heap: Heap::Array(Box::new(Array { items })) };
                proof {
                    if r.items_of().len() > 0 {
                        lemma_seq_pointwise(r.items_of(), self.items_of(), 0);
                    }
                }
                r
            },
        }
    }

    /// The closure that this value owns.
    pub fn partial(&self) -> (r: &Partial)
        requires
            self.kind() == RawType::Partial,
        ensures
            *r == self.partial_of(),
            r.args@ == self.args_of(),
    {
        proof {
            use_type_invariant(self);
        }
        match &self.heap {
            Heap::Partial(p) => p,
            _ => vstd::pervasive::unreached(),
        }
    }
}

/// Compares two functions by start, then by arity.
fn function_cmp(f: Function, g: Function) -> (r: i8)
    ensures
        r as int == function_order(f, g),
{
    if f.start < g.start {
        -1
    } else if f.start > g.start {
        1
    } else if f.params < g.params {
        -1
    } else if f.params > g.params {
        1
    } else {
        0
    }
}

/// Compares `s` and `t` lexicographically from position `i` on.
fn seq_cmp(s: &Vec<Value>, t: &Vec<Value>, i: usize) -> (r: i8)
    requires
        i <= s.len(),
    ensures
        r as int == seq_order(s@, t@, i as int),
    decreases s@, s@.len() - i,
{
    if i >= s.len() {
        if i >= t.len() {
            0
        } else {
            -1
        }
    } else if i >= t.len() {
        1
    } else {
        let c = s[i].order_with(&t[i]);
        if c != 0 {
            c
        } else {
            seq_cmp(s, t, i + 1)
        }
    }
}

/// Copies each element of `s`.
fn duplicate_all(s: &Vec<Value>) -> (r: Vec<Value>)
    ensures
        r@.len() == s@.len(),
        forall|j: int| 0 <= j < s@.len() ==> value_order(#[trigger] r@[j], s@[j]) == 0,
    decreases s@, 1int,
{
    let mut r: Vec<Value> = Vec::new();
    let mut i: usize = 0;
    while i < s.len()
        invariant
            i <= s@.len(),
            r@.len() == i,
            forall|j: int| 0 <= j < i ==> value_order(#[trigger] r@[j], s@[j]) == 0,
        decreases s@.len() - i,
    {
        assert(decreases_to!(s@ => s@[i as int]));
        let v = s[i].duplicate();
        r.push(v);
        i += 1;
    }
    r
}

/// A character boxed under the character tag reads back as the same
/// character, and no other character has its code point.
pub proof fn lemma_char_round_trip(c: char)
    ensures
        tag_of(box_word(CHAR_TAG, code_of(c) as u64)) == CHAR_TAG,
        word_char(box_word(CHAR_TAG, code_of(c) as u64)) == c,
        forall|d: char| code_of(d) == code_of(c) ==> d == c,
{
    lemma_box_round_trip(CHAR_TAG, code_of(c) as u64);
    assert(is_code_point(code_of(c) as u64));
    vstd::utf8::char_u32_cast(c, code_of(c));
    assert forall|x: char| #[trigger] code_of(x) == code_of(c) implies x == c by {
        vstd::utf8::char_u32_cast(x, code_of(x));
    }
}

/// A function boxed under the function tag reads back as the same function.
pub proof fn lemma_function_value_round_trip(f: Function)
    ensures
        tag_of(box_word(FUNCTION_TAG, function_payload(f))) == FUNCTION_TAG,
        payload_function(payload_of(box_word(FUNCTION_TAG, function_payload(f)))) == f,
{
    lemma_function_round_trip(f);
    lemma_box_round_trip(FUNCTION_TAG, function_payload(f));
}

/// A code point fits in 32 bits and is the code of the character it reads as.
proof fn lemma_code_point_char(p: u64)
    requires
        is_code_point(p),
    ensures
        p < 0x1_0000_0000,
        is_code_point((p as u32) as u64),
        code_of(((p as u32) as char)) as u64 == p,
{
    let c = choose|c: char| #[trigger] code_of(c) as u64 == p;
    vstd::utf8::char_u32_cast(c, code_of(c));
}

impl Value {
    /// The array that this value owns.
    pub fn array(&self) -> (r: &Array)
        requires
            self.kind() == RawType::Array,
        ensures
            *r == self.array_of(),
            r.items@ == self.items_of(),
    {
        proof {
            use_type_invariant(self);
        }
        match &self.heap {
            Heap::Array(a) => a,
            _ => vstd::pervasive::unreached(),
        }
    }

    /// Appends `v` to the array that this value owns.
    pub fn array_push(&mut self, v: Value)
        requires
            old(self).kind() == RawType::Array,
        ensures
            final(self).kind() == RawType::Array,
            final(self).word_of() == old(self).word_of(),
            final(self).items_of() == old(self).items_of().push(v),
    {
        proof {
            use_type_invariant(&*self);
        }
        let mut taken = Value::from_number_bits(0);
        std::mem::swap(self, &mut taken);
        proof {
            use_type_invariant(&taken);
        }
        let Value { word, heap } = taken;
        match heap {
            Heap::Array(mut a) => {
                a.items.push(v);
                *self = Value { word, heap: Heap::Array(a) };
            },
            _ => vstd::pervasive::unreached(),
        }
    }

    /// Replaces the function of the closure that this value owns; the bound
    /// arguments stay.
    pub fn set_partial_function(&mut self, f: Function)
        requires
            old(self).kind() == RawType::Partial,
        ensures
            final(self).kind() == RawType::Partial,
            final(self).word_of() == old(self).word_of(),
            final(self).partial_of().function == f,
            final(self).partial_of().args@ == old(self).partial_of().args@,
            final(self).args_of() == old(self).args_of(),
    {
        proof {
            use_type_invariant(&*self);
        }
        let mut taken = Value::from_number_bits(0);
        std::mem::swap(self, &mut taken);
        proof {
            use_type_invariant(&taken);
        }
        let Value { word, heap } = taken;
        match heap {
            Heap::Partial(mut p) => {
                p.function = f;
                *self = Value { word, heap: Heap::Partial(p) };
            },
            _ => vstd::pervasive::unreached(),
        }
    }

    /// Puts `v` at `i` of the array that this value owns.
    pub fn array_set(&mut self, i: usize, v: Value)
        requires
            old(self).kind() == RawType::Array,
            i < old(self).items_of().len(),
        ensures
            final(self).kind() == RawType::Array,
            final(self).word_of() == old(self).word_of(),
            final(self).items_of() == old(self).items_of().update(i as int, v),
    {
        proof {
            use_type_invariant(&*self);
        }
        let mut taken = Value::from_number_bits(0);
        std::mem::swap(self, &mut taken);
        proof {
            use_type_invariant(&taken);
        }
        let Value { word, heap } = taken;
        match heap {
            Heap::Array(mut a) => {
                a.items.set(i, v);
                *self = Value { word, heap: Heap::Array(a) };
            },
            _ => vstd::pervasive::unreached(),
        }
    }

    /// Compares this value with `other` in the order of values.
    pub fn cmp(&self, other: &Value) -> (r: std::cmp::Ordering)
        ensures
            r == ordering_of(value_order(*self, *other)),
    {
        ordering_from(self.order_with(other))
    }
}

/// The `Ordering` that -1, 0 or 1 stands for.
pub open spec fn ordering_of(c: int) -> std::cmp::Ordering {
    if c < 0 {
        std::cmp::Ordering::Less
    } else if c == 0 {
        std::cmp::Ordering::Equal
    } else {
        std::cmp::Ordering::Greater
    }
}

fn ordering_from(c: i8) -> (r: std::cmp::Ordering)
    ensures
        r == ordering_of(c as int),
{
    if c < 0 {
        std::cmp::Ordering::Less
    } else if c == 0 {
        std::cmp::Ordering::Equal
    } else {
        std::cmp::Ordering::Greater
    }
}

impl From<char> for Value {
    fn from(c: char) -> (r: Value)
        ensures
            r.kind() == RawType::Char,
            r.word_of() == box_word(CHAR_TAG, code_of(c) as u64),
            r.char_of() == c,
    {
        let code = c as u32 as u64;
        assert(code_of(c) as u64 == code);
        proof {
            lemma_char_round_trip(c);
        }
        Value { word: box_payload(CHAR_TAG, code), heap: Heap::Inline }
    }
}

impl vstd::std_specs::convert::FromSpecImpl<char> for Value {
    open spec fn obeys_from_spec() -> bool {
        true
    }

    closed spec fn from_spec(c: char) -> Value {
        Value { word: box_word(CHAR_TAG, code_of(c) as u64), heap: Heap::Inline }
    }
}

impl From<Function> for Value {
    fn from(f: Function) -> (r: Value)
        ensures
            r.kind() == RawType::Function,
            r.word_of() == box_word(FUNCTION_TAG, function_payload(f)),
            r.function_of() == f,
    {
        proof {
            lemma_function_round_trip(f);
        }
        Value { word: box_payload(FUNCTION_TAG, f.to_payload()), heap: Heap::Inline }
    }
}

impl From<Partial> for Value {
    fn from(p: Partial) -> (r: Value)
        ensures
            r.kind() == RawType::Partial,
            r.word_of() == box_word(PARTIAL_TAG, 0),
            r.partial_of() == p,
            r.args_of() == p.args@,
    {
        proof {
            lemma_box_round_trip(PARTIAL_TAG, 0);
        }
        Value { word: box_payload(PARTIAL_TAG, 0), heap: Heap::Partial(Box::new(p)) }
    }
}

impl vstd::std_specs::convert::FromSpecImpl<Partial> for Value {
    open spec fn obeys_from_spec() -> bool {
        true
    }

    closed spec fn from_spec(p: Partial) -> Value {
        Value { word: box_word(PARTIAL_TAG, 0), heap: Heap::Partial(Box::new(p)) }
    }
}

impl From<Array> for Value {
    fn from(a: Array) -> (r: Value)
        ensures
            r.kind() == RawType::Array,
            r.word_of() == box_word(ARRAY_TAG, 0),
            r.array_of() == a,
            r.items_of() == a.items@,
    {
        proof {
            lemma_box_round_trip(ARRAY_TAG, 0);
        }
        Value { word: box_payload(ARRAY_TAG, 0), heap: Heap::Array(Box::new(a)) }
    }
}

impl vstd::std_specs::convert::FromSpecImpl<Array> for Value {
    open spec fn obeys_from_spec() -> bool {
        true
    }

    closed spec fn from_spec(a: Array) -> Value {
        Value { word: box_word(ARRAY_TAG, 0), heap: Heap::Array(Box::new(a)) }
    }
}

impl vstd::std_specs::convert::FromSpecImpl<Function> for Value {
    open spec fn obeys_from_spec() -> bool {
        true
    }

    closed spec fn from_spec(f: Function) -> Value {
        Value { word: box_word(FUNCTION_TAG, function_payload(f)), heap: Heap::Inline }
    }
}

impl Clone for Value {
    fn clone(&self) -> (r: Value)
        ensures
            value_order(r, *self) == 0,
            r.word_of() == self.word_of(),
            r.kind() == self.kind(),
            self.kind() != RawType::Partial && self.kind() != RawType::Array ==> r == *self,
            self.kind() == RawType::Partial ==> r.partial_of().function == self.partial_of().function
                && r.partial_of().args@ == self.partial_of().args@ && r.args_of() == self.args_of(),
            self.kind() == RawType::Array ==> r.items_of().len() == self.items_of().len() && (
            forall|j: int|
                0 <= j < self.items_of().len() ==> value_order(
                    #[trigger] r.items_of()[j],
                    self.items_of()[j],
                ) == 0),
    {
        self.duplicate()
    }
}

impl PartialEq for Value {
    fn eq(&self, other: &Value) -> (r: bool) {
        self.order_with(other) == 0
    }
}

impl vstd::std_specs::cmp::PartialEqSpecImpl for Value {
    open spec fn obeys_eq_spec() -> bool {
        true
    }

    open spec fn eq_spec(&self, other: &Value) -> bool {
        value_order(*self, *other) == 0
    }
}

impl Eq for Value {

}

impl PartialOrd for Value {
    fn partial_cmp(&self, other: &Value) -> (r: Option<std::cmp::Ordering>) {
        Some(self.cmp(other))
    }
}

impl vstd::std_specs::cmp::PartialOrdSpecImpl for Value {
    open spec fn obeys_partial_cmp_spec() -> bool {
        true
    }

    open spec fn partial_cmp_spec(&self, other: &Value) -> Option<std::cmp::Ordering> {
        Some(ordering_of(value_order(*self, *other)))
    }
}

} // verus!
