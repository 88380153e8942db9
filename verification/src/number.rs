//! Numbers as `serde_yaml` keeps them, and the float of a tree, which travels in one.

use crate::model::Numeral;
use vstd::prelude::*;

verus! {

/// `serde_yaml::Number`; the verifier does not look inside it.
#[verifier::external_type_specification]
#[verifier::external_body]
pub struct ExYamlNumber(serde_yaml::Number);

/// The number that a `serde_yaml::Number` holds: an integer from -2^63 to 2^64 - 1, or a
/// float.
pub uninterp spec fn yaml_number(n: serde_yaml::Number) -> Numeral;

/// The bit pattern that a YAML number holds after `serde_yaml::Number::from` made it of a
/// float with the pattern `bits`: the same pattern, but for a NaN, of which YAML keeps
/// one only.
pub uninterp spec fn carried(bits: u64) -> u64;

/// Calls `serde_yaml::Number::is_f64`, which is true exactly of a number that holds a
/// float. Such a number was made by `serde_yaml::Number::from`, the one way to make it,
/// so it holds a pattern that `from` leaves as it is.
#[verifier::external_body]
fn yaml_number_is_float(n: &serde_yaml::Number) -> (r: bool)
    ensures
        r == (yaml_number(*n) is Float),
        r ==> carried(yaml_number(*n)->Float_0) == yaml_number(*n)->Float_0,
{
    n.is_f64()
}

/// `Clone` of `serde_yaml::Number` copies the number.
pub assume_specification[ <serde_yaml::Number as Clone>::clone ](n: &serde_yaml::Number) -> (r:
    serde_yaml::Number)
    ensures
        yaml_number(r) == yaml_number(*n),
;

/// A 64-bit IEEE float.
///
/// The float travels inside a YAML number, which every codec can read and make, so that
/// it reaches the target document exactly as the source document gave it.
#[derive(Debug, PartialEq)]
pub struct Float {
    number: serde_yaml::Number,
}

impl Clone for Float {
    fn clone(&self) -> (r: Float)
        ensures
            r.bits() == self.bits(),
    {
        proof {
            use_type_invariant(self);
        }
        Float { number: self.number.clone() }
    }
}

impl Float {
    #[verifier::type_invariant]
    spec fn holds_float(self) -> bool {
        yaml_number(self.number) matches Numeral::Float(bits) && carried(bits) == bits
    }

    /// The bit pattern of the float.
    pub closed spec fn bits(self) -> u64 {
        yaml_number(self.number)->Float_0
    }

    /// Takes a YAML number as a float; `None` for an integer.
    pub fn new(number: serde_yaml::Number) -> (r: Option<Float>)
        ensures
            r is Some <==> yaml_number(number) is Float,
            r matches Some(f) ==> yaml_number(number) == Numeral::Float(f.bits()) && carried(
                f.bits(),
            ) == f.bits(),
    {
        if yaml_number_is_float(&number) {
            Some(Float { number })
        } else {
            None
        }
    }

    /// The YAML number that carries the float.
    pub fn as_number(&self) -> (r: &serde_yaml::Number)
        ensures
            yaml_number(*r) == Numeral::Float(self.bits()),
            carried(self.bits()) == self.bits(),
    {
        proof {
            use_type_invariant(self);
        }
        &self.number
    }
}

/// Calls `serde_yaml::Number::as_i64`: the integer, where the number is one between
/// `i64::MIN` and `i64::MAX`. The number is an integer from `i64::MIN` to `u64::MAX` or a
/// float.
#[verifier::external_body]
pub(crate) fn number_as_i64(number: &serde_yaml::Number) -> (r: Option<i64>)
    ensures
        match yaml_number(*number) {
            Numeral::Int(i) => i64::MIN <= i <= u64::MAX && r == (if i <= i64::MAX {
                Some(i as i64)
            } else {
                None
            }),
            Numeral::Float(_) => r is None,
        },
{
    number.as_i64()
}

/// Calls `serde_yaml::Number::from` on an `i64`.
#[verifier::external_body]
pub(crate) fn number_from_i64(i: i64) -> (number: serde_yaml::Number)
    ensures
        yaml_number(number) == Numeral::Int(i as int),
{
    serde_yaml::Number::from(i)
}

} // verus!
