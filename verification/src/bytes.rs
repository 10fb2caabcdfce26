use vstd::prelude::*;
use vstd::utf8::*;

verus! {

/// The text that [`String::from_utf8_lossy`] reads in some bytes.
pub uninterp spec fn lossy_text(bytes: Seq<u8>) -> Seq<char>;

/// [`String::from_utf8_lossy`] from std: the bytes as text, with a replacement character for
/// what is not UTF-8. Bytes that are UTF-8 are read as they are; how many replacement
/// characters stand for a faulty stretch is left to the name.
#[verifier::external_body]
pub(crate) fn read_lossy(bytes: &[u8]) -> (text: String)
    ensures
        text@ == lossy_text(bytes@),
        valid_utf8(bytes@) ==> text@ == decode_utf8(bytes@),
{
    String::from_utf8_lossy(bytes).into_owned()
}

/// What std says of bytes that are not UTF-8.
pub uninterp spec fn utf8_fault(bytes: Seq<u8>) -> Seq<char>;

/// [`String::from_utf8`] from std: the bytes as text, where they are UTF-8, and else the text of
/// the error. What that says is left to the name.
#[verifier::external_body]
pub(crate) fn read_utf8(bytes: Vec<u8>) -> (text: Result<String, String>)
    ensures
        match text {
            Ok(text) => valid_utf8(bytes@) && text@ == decode_utf8(bytes@),
            Err(fault) => !valid_utf8(bytes@) && fault@ == utf8_fault(bytes@),
        },
{
    String::from_utf8(bytes).map_err(|error| error.to_string())
}

} // verus!
