use vstd::prelude::*;

verus! {

/// What a JSON number holds: a whole number, or the 64 bits of a finite
/// double.
pub enum NumberView {
    Integer(int),
    Float(u64),
}

/// `serde_json::Number`.
#[verifier::external_type_specification]
#[verifier::external_body]
pub struct ExNumber(serde_json::Number);

/// The content of a `serde_json::Number`: the whole number that it holds,
/// or the bits of the double that it holds.
pub uninterp spec fn number_view(n: serde_json::Number) -> NumberView;

/// The bits of the double that `serde_json::Number::as_f64` gives for a
/// number that holds the whole number `i`: those of the double nearest to
/// `i`, which is `i` itself where a double holds it exactly.
pub uninterp spec fn double_of(i: int) -> u64;

/// Whether `i` lies beyond the signed 64-bit range, within the unsigned one,
/// and a double holds it exactly. A double has 53 significant bits, so from
/// 2^63 up to 2^64 it holds the multiples of 2^11.
pub open spec fn double_holds(i: int) -> bool {
    i64::MAX < i <= u64::MAX && i % 2048 == 0
}

/// The bits of the double for a number: its own where it is a double, those
/// of the nearest double where it is a whole number.
pub open spec fn float_bits(n: NumberView) -> u64 {
    match n {
        NumberView::Float(bits) => bits,
        NumberView::Integer(i) => double_of(i),
    }
}

/// The signed 64-bit reading of a number, where it has one.
pub open spec fn as_i64_spec(n: NumberView) -> Option<i64> {
    match n {
        NumberView::Integer(i) => if i64::MIN <= i <= i64::MAX {
            Some(i as i64)
        } else {
            None
        },
        NumberView::Float(_) => None,
    }
}

/// `serde_json::Number::is_f64`: true exactly for a number stored as a
/// double.
#[verifier::external_body]
pub(crate) fn number_is_float(n: &serde_json::Number) -> (r: bool)
    ensures
        r == (number_view(*n) is Float),
{
    n.is_f64()
}

/// `serde_json::Number::as_i64`: the value of a whole number that fits in
/// 64 signed bits, `None` for a larger one and for a double.
#[verifier::external_body]
pub(crate) fn number_as_i64(n: &serde_json::Number) -> (r: Option<i64>)
    ensures
        r == as_i64_spec(number_view(*n)),
{
    n.as_i64()
}

/// The unsigned 64-bit reading of a number, where it has one.
pub open spec fn as_u64_spec(n: NumberView) -> Option<u64> {
    match n {
        NumberView::Integer(i) => if 0 <= i <= u64::MAX {
            Some(i as u64)
        } else {
            None
        },
        NumberView::Float(_) => None,
    }
}

/// `serde_json::Number::as_u64`: the value of a whole number that is not
/// negative, `None` for a negative one and for a double.
#[verifier::external_body]
pub(crate) fn number_as_u64(n: &serde_json::Number) -> (r: Option<u64>)
    ensures
        r == as_u64_spec(number_view(*n)),
{
    n.as_u64()
}

/// `Clone::clone` of a `serde_json::Number`: a number of the same content.
pub assume_specification[ <serde_json::Number as Clone>::clone ](n: &serde_json::Number) -> (r:
    serde_json::Number)
    ensures
        number_view(r) == number_view(*n),
;

} // verus!
