use vstd::prelude::*;
use vstd::string::*;
use crate::number::{is_decimal, is_signed_decimal, without_sign};

verus! {

/// The two spellings that `bool`'s `FromStr` accepts.
pub open spec fn is_bool_literal(s: Seq<char>) -> bool {
    s == "true"@ || s == "false"@
}

/// The message for a strength that is not a number.
pub open spec fn invalid_number_message(val: Seq<char>) -> Seq<char> {
    "'"@ + val + "' is not a valid number. Please use a base 10 number such as '6' or '3.14'."@
}

/// The message for a handedness flag that is not a boolean.
pub open spec fn invalid_option_message(val: Seq<char>) -> Seq<char> {
    "'"@ + val + "' is not a valid option. Please use true or false."@
}

/// Accepts a strength argument that is a finite base-10 number: an optional
/// sign, digits with at most one decimal point, and an optional exponent.
pub fn strength_validator(val: String) -> (r: Result<(), String>)
    ensures
        r is Ok <==> is_decimal(without_sign(val@)),
        r matches Err(m) ==> m@ == invalid_number_message(val@),
{
    if is_signed_decimal(val.as_str()) {
        Ok(())
    } else {
        let mut m = String::from_str("'");
        m.append(val.as_str());
        m.append("' is not a valid number. Please use a base 10 number such as '6' or '3.14'.");
        Err(m)
    }
}

/// Accepts a handedness argument that is `true` or `false`.
pub fn directx_validator(val: String) -> (r: Result<(), String>)
    ensures
        r is Ok <==> is_bool_literal(val@),
        r matches Err(m) ==> m@ == invalid_option_message(val@),
{
    let t = String::from_str("true");
    let f = String::from_str("false");
    proof {
        reveal_strlit("true");
        reveal_strlit("false");
    }
    if val == t || val == f {
        Ok(())
    } else {
        let mut m = String::from_str("'");
        m.append(val.as_str());
        m.append("' is not a valid option. Please use true or false.");
        Err(m)
    }
}

} // verus!
