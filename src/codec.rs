//! The word layout. A word at or below `NUMBER_MAX` is an IEEE-754 double
//! stored unmodified. Any other word is a boxed value: its top sixteen bits
//! are `0xFFF8 | tag` with a tag from 1 to 7, and its low 48 bits hold the
//! payload. Every boxed word carries the quiet-NaN bit (bit 51) and a
//! nonzero tag in bits 48 to 50, so the negative quiet NaN
//! `0xFFF8_0000_0000_0000` that arithmetic produces, whose tag bits are zero,
//! stays a number.
use vstd::prelude::*;

verus! {

/// Bit position of the tag field.
pub const TAG_SHIFT: u64 = 48;

/// The bits above the tag field that every boxed word carries.
pub const BOX_BASE: u64 = 0xFFF8_0000_0000_0000;

/// The largest word read as a number.
pub const NUMBER_MAX: u64 = 0xFFF8_0000_FFFF_FFFF;

/// The mask of the payload bits of a boxed word.
pub const PAYLOAD_MASK: u64 = 0x0000_FFFF_FFFF_FFFF;

/// The NaN that takes the place of NaNs outside the number range.
pub const CANONICAL_NAN: u64 = 0x7FF8_0000_0000_0000;

pub const EXPONENT_MASK: u64 = 0x7FF0_0000_0000_0000;

pub const FRACTION_MASK: u64 = 0x000F_FFFF_FFFF_FFFF;

pub const SIGN_MASK: u64 = 0x8000_0000_0000_0000;

pub const MAGNITUDE_MASK: u64 = 0x7FFF_FFFF_FFFF_FFFF;

/// The tag that a word carries: 0 for every number.
pub open spec fn tag_of(w: u64) -> u64 {
    if w <= NUMBER_MAX {
        0
    } else {
        (w >> TAG_SHIFT) & 7
    }
}

/// The low 48 bits of a word.
pub open spec fn payload_of(w: u64) -> u64 {
    w & PAYLOAD_MASK
}

/// The word that boxes `payload` under `tag`.
pub open spec fn box_word(tag: u64, payload: u64) -> u64 {
    BOX_BASE | (tag << TAG_SHIFT) | payload
}

/// The bit pattern is an IEEE-754 NaN.
pub open spec fn is_nan_bits(b: u64) -> bool {
    (b & EXPONENT_MASK) == EXPONENT_MASK && (b & FRACTION_MASK) != 0
}

/// The word that stores the double with bit pattern `b`: the pattern itself,
/// unless it is a NaN that would read as a boxed value.
pub open spec fn number_word(b: u64) -> u64 {
    if b <= NUMBER_MAX {
        b
    } else {
        CANONICAL_NAN
    }
}

/// The position of a double in the order of values: IEEE order on non-NaN
/// doubles (the two zeros at one place), every NaN above every other double.
pub open spec fn number_key(b: u64) -> int {
    if is_nan_bits(b) {
        SIGN_MASK as int
    } else if b & SIGN_MASK != 0 {
        -((b & MAGNITUDE_MASK) as int)
    } else {
        (b & MAGNITUDE_MASK) as int
    }
}

/// A boxed word reads back its tag and payload, and never as a number.
pub proof fn lemma_box_round_trip(tag: u64, payload: u64)
    requires
        1 <= tag < 8,
        payload <= PAYLOAD_MASK,
    ensures
        box_word(tag, payload) > NUMBER_MAX,
        tag_of(box_word(tag, payload)) == tag,
        payload_of(box_word(tag, payload)) == payload,
{
    assert(box_word(tag, payload) > 0xFFF8_0000_FFFF_FFFFu64) by (bit_vector)
        requires
            1 <= tag < 8,
            payload <= 0x0000_FFFF_FFFF_FFFFu64,
    ;
    assert((box_word(tag, payload) >> 48u64) & 7 == tag) by (bit_vector)
        requires
            1 <= tag < 8,
            payload <= 0x0000_FFFF_FFFF_FFFFu64,
    ;
    assert(box_word(tag, payload) & 0x0000_FFFF_FFFF_FFFFu64 == payload) by (bit_vector)
        requires
            1 <= tag < 8,
            payload <= 0x0000_FFFF_FFFF_FFFFu64,
    ;
}

/// Boxes with different tags or payloads are different words.
pub proof fn lemma_box_injective(t1: u64, p1: u64, t2: u64, p2: u64)
    requires
        1 <= t1 < 8,
        1 <= t2 < 8,
        p1 <= PAYLOAD_MASK,
        p2 <= PAYLOAD_MASK,
        box_word(t1, p1) == box_word(t2, p2),
    ensures
        t1 == t2,
        p1 == p2,
{
    lemma_box_round_trip(t1, p1);
    lemma_box_round_trip(t2, p2);
}

/// A word above the number range is boxed, with its own tag and payload.
pub proof fn lemma_word_is_box(w: u64)
    requires
        w > NUMBER_MAX,
        tag_of(w) != 0,
    ensures
        w == box_word(tag_of(w), payload_of(w)),
{
    assert(w == (0xFFF8_0000_0000_0000u64 | (((w >> 48u64) & 7) << 48u64) | (w
        & 0x0000_FFFF_FFFF_FFFFu64))) by (bit_vector)
        requires
            w > 0xFFF8_0000_FFFF_FFFFu64,
    ;
}

/// Storing a double keeps every non-NaN pattern bit for bit, keeps a NaN a
/// NaN, and always yields a word of the number range.
pub proof fn lemma_number_round_trip(b: u64)
    ensures
        number_word(b) <= NUMBER_MAX,
        tag_of(number_word(b)) == 0,
        !is_nan_bits(b) ==> number_word(b) == b,
        is_nan_bits(b) ==> is_nan_bits(number_word(b)),
        number_key(number_word(b)) == number_key(b),
{
    assert(b > 0xFFF8_0000_FFFF_FFFFu64 ==> (b & 0x7FF0_0000_0000_0000u64)
        == 0x7FF0_0000_0000_0000u64 && (b & 0x000F_FFFF_FFFF_FFFFu64) != 0) by (bit_vector);
    assert((0x7FF8_0000_0000_0000u64 & 0x7FF0_0000_0000_0000u64) == 0x7FF0_0000_0000_0000u64
        && (0x7FF8_0000_0000_0000u64 & 0x000F_FFFF_FFFF_FFFFu64) != 0) by (bit_vector);
}

/// Ordinary NaNs, quiet or signalling, of either sign and with a payload in
/// the low 32 bits, read as numbers.
pub proof fn lemma_plain_nans_are_numbers(b: u64)
    requires
        is_nan_bits(b),
        b & 0x0007_FFFF_0000_0000 == 0,
    ensures
        tag_of(b) == 0,
{
    assert((b & 0x0007_FFFF_0000_0000u64) == 0 ==> b <= 0xFFF8_0000_FFFF_FFFFu64) by (bit_vector);
}

/// The tag of a word.
pub fn word_tag(w: u64) -> (r: u64)
    ensures
        r == tag_of(w),
        r < 8,
{
    assert(((w >> 48u64) & 7) < 8) by (bit_vector);
    if w <= NUMBER_MAX {
        0
    } else {
        (w >> TAG_SHIFT) & 7
    }
}

/// The payload of a boxed word.
pub fn word_payload(w: u64) -> (r: u64)
    ensures
        r == payload_of(w),
        r <= PAYLOAD_MASK,
{
    assert(w & 0x0000_FFFF_FFFF_FFFFu64 <= 0x0000_FFFF_FFFF_FFFFu64) by (bit_vector);
    w & PAYLOAD_MASK
}

/// Boxes `payload` under `tag`.
pub fn box_payload(tag: u64, payload: u64) -> (r: u64)
    requires
        1 <= tag < 8,
        payload <= PAYLOAD_MASK,
    ensures
        r == box_word(tag, payload),
        r > NUMBER_MAX,
        tag_of(r) == tag,
        payload_of(r) == payload,
{
    proof {
        lemma_box_round_trip(tag, payload);
    }
    BOX_BASE | (tag << TAG_SHIFT) | payload
}

/// The word that stores the double with bit pattern `b`.
pub fn store_number(b: u64) -> (r: u64)
    ensures
        r == number_word(b),
        tag_of(r) == 0,
{
    proof {
        lemma_number_round_trip(b);
    }
    if b <= NUMBER_MAX {
        b
    } else {
        CANONICAL_NAN
    }
}

/// Whether the bit pattern is a NaN.
pub fn nan_bits(b: u64) -> (r: bool)
    ensures
        r == is_nan_bits(b),
{
    (b & EXPONENT_MASK) == EXPONENT_MASK && (b & FRACTION_MASK) != 0
}

/// Compares two doubles by bit pattern in the order of values: -1, 0 or 1 as
/// `a` is below, level with or above `b`.
pub fn number_order(a: u64, b: u64) -> (r: i8)
    ensures
        r == sign_of(number_key(a) - number_key(b)),
{
    assert(a & 0x7FFF_FFFF_FFFF_FFFFu64 <= 0x7FFF_FFFF_FFFF_FFFFu64) by (bit_vector);
    assert(b & 0x7FFF_FFFF_FFFF_FFFFu64 <= 0x7FFF_FFFF_FFFF_FFFFu64) by (bit_vector);
    let an = nan_bits(a);
    let bn = nan_bits(b);
    if an || bn {
        if an && bn {
            0
        } else if an {
            1
        } else {
            -1
        }
    } else {
        let am = a & MAGNITUDE_MASK;
        let bm = b & MAGNITUDE_MASK;
        let a_neg = a & SIGN_MASK != 0;
        let b_neg = b & SIGN_MASK != 0;
        if a_neg && b_neg {
            if am > bm { -1 } else if am < bm { 1 } else { 0 }
        } else if a_neg {
            if am == 0 && bm == 0 { 0 } else { -1 }
        } else if b_neg {
            if am == 0 && bm == 0 { 0 } else { 1 }
        } else {
            if am < bm { -1 } else if am > bm { 1 } else { 0 }
        }
    }
}

/// -1, 0 or 1 by the sign of `x`.
pub open spec fn sign_of(x: int) -> int {
    if x < 0 {
        -1
    } else if x > 0 {
        1
    } else {
        0
    }
}

} // verus!
