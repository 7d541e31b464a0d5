use nanvalue::codec::{
    box_payload, nan_bits, number_order, store_number, word_payload, word_tag, CANONICAL_NAN,
    NUMBER_MAX,
};
use nanvalue::function::Function;
use nanvalue::value::{Array, Partial, RawType, Value};
use std::cmp::Ordering;

fn num(x: f64) -> Value {
    Value::from_number_bits(x.to_bits())
}

fn kinds_true(v: &Value) -> usize {
    [v.is_num(), v.is_char(), v.is_function(), v.is_partial(), v.is_array()]
        .iter()
        .filter(|b| **b)
        .count()
}

fn sample_values() -> Vec<Value> {
    vec![
        num(-1.5),
        num(0.0),
        num(f64::NAN),
        Value::from_char('a'),
        Value::from_char('z'),
        Value::from_function(Function::new(10, 2)),
        Value::from_function(Function::new(20, 0)),
        Value::from_partial(Partial::new(Function::new(5, 3), vec![num(1.0)])),
        Value::from_partial(Partial::new(Function::new(5, 3), vec![num(1.0), Value::from_char('x')])),
        Value::from_array(Array::new(vec![])),
        Value::from_array(Array::new(vec![num(2.0)])),
    ]
}

#[test]
fn numbers_equal_and_nans_equal() {
    assert!(num(1.0) == num(1.0));
    assert!(num(f64::NAN) == num(f64::NAN));
    assert!(num(f64::NAN) == Value::from_number_bits(0x7FF0_0000_0000_0001));
    assert!(num(1.0) != num(2.0));
}

#[test]
fn zeros_are_equal_but_keep_their_bits() {
    assert!(num(0.0) == num(-0.0));
    assert_eq!(num(-0.0).number_bits(), (-0.0f64).to_bits());
    assert_eq!(num(0.0).number_bits(), 0);
}

#[test]
fn functions_order_by_start_first() {
    let a = Value::from_function(Function::new(10, 2));
    let b = Value::from_function(Function::new(20, 0));
    assert!(a < b);
    assert_eq!(a.cmp(&b), Ordering::Less);
    let c = Value::from_function(Function::new(10, 3));
    assert!(a < c);
}

#[test]
fn partial_clone_outlives_original() {
    let p = Partial::new(Function::new(5, 3), vec![num(1.0), Value::from_char('x')]);
    let original = Value::from_partial(p);
    let copy = original.clone();
    drop(original);
    assert!(copy.is_partial());
    let q = copy.partial();
    assert_eq!(q.function, Function::new(5, 3));
    assert_eq!(q.args.len(), 2);
    assert!(q.args[0] == num(1.0));
    assert!(q.args[1] == Value::from_char('x'));
}

#[test]
fn partial_clones_share_arguments() {
    let original = Value::from_partial(Partial::new(Function::new(7, 2), vec![num(3.0)]));
    let first = original.clone();
    let second = original.clone();
    assert!(std::sync::Arc::ptr_eq(&first.partial().args, &original.partial().args));
    drop(first);
    assert!(second == original);
    assert!(second.partial().args[0] == num(3.0));
    assert!(original.partial().args[0] == num(3.0));
}

#[test]
fn number_round_trip() {
    for x in [0.0, -0.0, 1.0, -2.5, f64::INFINITY, f64::NEG_INFINITY, f64::MIN_POSITIVE / 4.0, f64::MAX] {
        let v = num(x);
        assert!(v.is_num());
        assert_eq!(f64::from_bits(v.number_bits()).to_bits(), x.to_bits());
    }
    let v = num(f64::NAN);
    assert!(f64::from_bits(v.number_bits()).is_nan());
}

#[test]
fn boxed_looking_nan_is_canonicalised() {
    let bits: u64 = 0xFFFB_0000_0000_0001;
    assert!(f64::from_bits(bits).is_nan());
    let v = Value::from_number_bits(bits);
    assert!(v.is_num());
    assert_eq!(v.number_bits(), CANONICAL_NAN);
    assert!(v == num(f64::NAN));
}

#[test]
fn char_round_trip() {
    for c in ['a', 'x', '\0', '\u{20AC}', '\u{10FFFF}', '\u{D7FF}', '\u{E000}'] {
        let v = Value::from_char(c);
        assert!(v.is_char());
        assert_eq!(v.char(), c);
        assert_eq!(word_payload(v.word()), c as u64);
    }
}

#[test]
fn function_round_trip() {
    for (s, p) in [(0u32, 0u16), (1, 1), (10, 2), (u32::MAX, u16::MAX), (0x1234_5678, 0x9ABC)] {
        let f = Function::new(s, p);
        let v = Value::from_function(f);
        assert!(v.is_function());
        assert_eq!(v.function(), f);
    }
    let f = Function::new(0x0403_0201, 0x0605);
    assert_eq!(f.to_payload(), 0x0605_0403_0201);
    assert_eq!(Function::from_payload(0x0605_0403_0201), f);
}

#[test]
fn nil_function() {
    assert!(Function::nil().is_nil());
    assert!(Function::default().is_nil());
    assert!(!Function::new(1, 0).is_nil());
    assert!(!Function::new(10, 2).is_nil());
}

#[test]
fn exactly_one_kind() {
    for v in sample_values() {
        assert_eq!(kinds_true(&v), 1);
    }
    assert_eq!(num(1.0).raw_ty(), RawType::Number);
    assert_eq!(Value::from_char('c').raw_ty(), RawType::Char);
    assert_eq!(Value::from_function(Function::nil()).raw_ty(), RawType::Function);
    assert_eq!(Value::from_partial(Partial::new(Function::nil(), vec![])).raw_ty(), RawType::Partial);
    assert_eq!(Value::from_array(Array::new(vec![])).raw_ty(), RawType::Array);
}

#[test]
fn kinds_order_before_contents() {
    let vals = sample_values();
    for a in &vals {
        for b in &vals {
            if a.raw_ty() != b.raw_ty() {
                assert!(a != b);
                assert_eq!(a < b, a.raw_ty() < b.raw_ty());
            }
        }
    }
    assert!(num(f64::INFINITY) < Value::from_char('\0'));
    assert!(Value::from_char('\u{10FFFF}') < Value::from_function(Function::new(0, 0)));
}

#[test]
fn order_is_strict_weak() {
    let vals = sample_values();
    for a in &vals {
        assert!(a == a);
        for b in &vals {
            if a == b {
                assert!(!(a < b) && !(b < a));
            }
            for c in &vals {
                if a < b && b < c {
                    assert!(a < c);
                }
            }
        }
    }
}

#[test]
fn nan_above_every_number() {
    assert!(num(f64::INFINITY) < num(f64::NAN));
    assert!(num(-1.0) < num(1.0));
    assert!(num(-2.0) < num(-1.0));
    assert_eq!(num(f64::NAN).cmp(&num(f64::NAN)), Ordering::Equal);
}

#[test]
fn array_clone_is_independent() {
    let original = Value::from_array(Array::new(vec![num(1.0), Value::from_char('q')]));
    let mut copy = original.clone();
    assert!(copy == original);
    copy.array_push(num(2.0));
    copy.array_set(0, Value::from_char('r'));
    assert_eq!(original.array().len(), 2);
    assert!(*original.array().get(0) == num(1.0));
    assert_eq!(copy.array().len(), 3);
    assert!(*copy.array().get(0) == Value::from_char('r'));
    assert!(copy != original);
    assert!(original < copy || copy < original);
}

#[test]
fn partial_function_can_be_replaced() {
    let mut v = Value::from_partial(Partial::new(Function::new(5, 3), vec![num(1.0)]));
    let w = v.clone();
    v.set_partial_function(Function::new(6, 3));
    assert_eq!(v.partial().function, Function::new(6, 3));
    assert_eq!(w.partial().function, Function::new(5, 3));
    assert!(w < v);
}

#[test]
fn partial_order_by_arguments() {
    let f = Function::new(5, 3);
    let shorter = Value::from_partial(Partial::new(f, vec![num(1.0)]));
    let longer = Value::from_partial(Partial::new(f, vec![num(1.0), Value::from_char('x')]));
    let empty = Value::from_partial(Partial::new(f, vec![]));
    assert!(empty < shorter);
    assert!(shorter < longer);
    assert!(Value::from_partial(Partial::new(f, vec![num(2.0)])) > longer);
}

#[test]
fn tag_ranges_do_not_overlap() {
    for tag in 1u64..8 {
        for payload in [0u64, 1, 0x7FFF_FFFF, 0xFFFF_FFFF, 0x0000_FFFF_FFFF_FFFF] {
            let w = box_payload(tag, payload);
            assert!(w > NUMBER_MAX);
            assert_eq!(word_tag(w), tag);
            assert_eq!(word_payload(w), payload);
        }
    }
    for x in [f64::NAN, -f64::NAN, 0.0f64 / 0.0, f64::INFINITY - f64::INFINITY] {
        assert_eq!(word_tag(store_number(x.to_bits())), 0);
    }
    assert_eq!(word_tag(0xFFF8_0000_FFFF_FFFF), 0);
    assert_eq!(word_tag(0xFFF9_0000_0000_0000), 1);
}

#[test]
fn number_order_values() {
    assert_eq!(number_order(1.0f64.to_bits(), 2.0f64.to_bits()), -1);
    assert_eq!(number_order((-0.0f64).to_bits(), 0.0f64.to_bits()), 0);
    assert_eq!(number_order(f64::NAN.to_bits(), f64::INFINITY.to_bits()), 1);
    assert!(nan_bits(f64::NAN.to_bits()));
    assert!(!nan_bits(f64::INFINITY.to_bits()));
}

#[test]
fn render_functions_and_closures() {
    assert_eq!(Function::nil().render(), "nil");
    assert_eq!(Function::new(10, 2).render(), "fn(10 2)");
    assert_eq!(Function::new(4294967295, 65535).render(), "fn(4294967295 65535)");
    assert_eq!(Function::new(7, 0).render(), "fn(7 0)");
    let p = Partial::new(Function::new(5, 3), vec![num(1.0), Value::from('x')]);
    assert_eq!(p.render(), "fn(5 2/3)");
    assert_eq!(Partial::new(Function::new(120, 10), vec![]).render(), "fn(120 0/10)");
}

#[test]
fn from_conversions_give_their_kind() {
    let c = Value::from('x');
    assert_eq!(c.raw_ty(), RawType::Char);
    assert_eq!(c.char(), 'x');
    let f = Value::from(Function::nil());
    assert_eq!(f.raw_ty(), RawType::Function);
    assert_eq!(f.function(), Function::nil());
    let p = Value::from(Partial::new(Function::new(5, 3), vec![num(1.0)]));
    assert!(p.is_partial());
    assert_eq!(p.partial().args.len(), 1);
    let a = Value::from(Array::new(vec![num(1.0)]));
    assert!(a.is_array());
    assert_eq!(a.array().len(), 1);
    for v in [c, f, p, a] {
        assert_eq!(kinds_true(&v), 1);
    }
}

#[test]
fn clone_of_inline_is_a_bit_copy() {
    let nan = Value::from_number_bits(0x7FF0_0000_0000_0001);
    let copy = nan.clone();
    assert_eq!(copy.word(), nan.word());
    assert_eq!(copy.number_bits(), 0x7FF0_0000_0000_0001);
    let f = Value::from_function(Function::new(3, 4));
    assert_eq!(f.clone().word(), f.word());
    let c = Value::from_char('k');
    assert_eq!(c.clone().word(), c.word());
}
