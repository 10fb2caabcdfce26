use vstd::prelude::*;

use crate::words::parsed_u64;

verus! {

/// What std says of a text that it does not read as a `u64`.
pub uninterp spec fn u64_fault(text: Seq<char>) -> Seq<char>;

/// What std says of an `i32` that is no `u32`.
pub uninterp spec fn u32_fault(value: i32) -> Seq<char>;

/// What std says of a `u32` that is no `i32`.
pub uninterp spec fn i32_fault(value: u32) -> Seq<char>;

/// [`str::parse`] from std, for a `u64`, on a text that it refuses: the text of the error. What
/// it says is left to the name.
#[verifier::external_body]
pub(crate) fn u64_fault_text(text: &str) -> (fault: String)
    requires
        parsed_u64(text@) is None,
    ensures
        fault@ == u64_fault(text@),
{
    text.parse::<u64>().unwrap_err().to_string()
}

/// `u32::try_from` from std, on an `i32` that is out of its range: the text of the error. What
/// it says is left to the name.
#[verifier::external_body]
pub(crate) fn u32_fault_text(value: i32) -> (fault: String)
    requires
        value < 0,
    ensures
        fault@ == u32_fault(value),
{
    u32::try_from(value).unwrap_err().to_string()
}

/// `i32::try_from` from std, on a `u32` that is out of its range: the text of the error. What
/// it says is left to the name.
#[verifier::external_body]
pub(crate) fn i32_fault_text(value: u32) -> (fault: String)
    requires
        value > i32::MAX,
    ensures
        fault@ == i32_fault(value),
{
    i32::try_from(value).unwrap_err().to_string()
}

} // verus!
