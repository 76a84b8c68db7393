//! Reading numbers: `u32::from_str` and `u64::from_str`.
use std::str::FromStr;
use vstd::prelude::*;

verus! {

/// `u32::from_str`: the number that decimal digits write, with or without a plus sign in
/// front, when it fits; otherwise the words of its error, of which nothing is said.
#[verifier::external_body]
pub(crate) fn parse_u32(text: &str) -> (r: Result<u32, String>)
    ensures
        r is Ok <==> crate::number::writes_at_most(text@, u32::MAX as nat),
        r matches Ok(n) ==> crate::number::unsigned_value(text@) == Some(n as nat),
{
    u32::from_str(text).map_err(|e| e.to_string())
}

/// `u64::from_str`: the number that decimal digits write, with or without a plus sign in
/// front, when it fits; otherwise the words of its error, of which nothing is said.
#[verifier::external_body]
pub(crate) fn parse_u64(text: &str) -> (r: Result<u64, String>)
    ensures
        r is Ok <==> crate::number::writes_at_most(text@, u64::MAX as nat),
        r matches Ok(n) ==> crate::number::unsigned_value(text@) == Some(n as nat),
{
    u64::from_str(text).map_err(|e| e.to_string())
}

}
