//! Conversions that can fail.

use vstd::prelude::*;

verus! {

/// An integer above zero.
#[derive(Debug)]
pub struct PositiveNumber(pub i32);

impl TryFrom<i32> for PositiveNumber {
    type Error = String;

    /// `value` as a positive number, if it is above zero.
    fn try_from(value: i32) -> (result: Result<Self, String>)
        ensures
            match result {
                Ok(number) => value > 0 && number.0 == value,
                Err(text) => value <= 0 && text@ == "必须是正数"@,
            },
    {
        if value > 0 {
            Ok(PositiveNumber(value))
        } else {
            Err("必须是正数".to_owned())
        }
    }
}

impl vstd::std_specs::convert::TryFromSpecImpl<i32> for PositiveNumber {
    /// `try_from` states its outcome itself, with the error by its view: no
    /// two texts are known to be the same value, so the outcome is not said
    /// to equal `try_from_spec`.
    open spec fn obeys_try_from_spec() -> bool {
        false
    }

    /// The number where it is above zero, else some text that says that it
    /// must be.
    open spec fn try_from_spec(value: i32) -> Result<Self, String> {
        if value > 0 {
            Ok(PositiveNumber(value))
        } else {
            Err(choose|text: String| #[trigger] text@ == "必须是正数"@)
        }
    }
}

} // verus!
