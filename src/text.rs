//! Text views of byte sequences that are known to be ASCII.
use vstd::prelude::*;

verus! {

/// Every byte of `s` is ASCII.
pub open spec fn all_ascii(s: Seq<u8>) -> bool {
    forall|i: int| 0 <= i < s.len() ==> #[trigger] s[i] < 0x80
}

/// The characters that the ASCII bytes `s` stand for.
pub open spec fn ascii_chars(s: Seq<u8>) -> Seq<char> {
    s.map_values(|c: u8| c as char)
}

/// Relies on `std::str::from_utf8`: ASCII bytes are valid UTF-8, and each
/// byte becomes the character of the same code.
#[verifier::external_body]
pub(crate) fn ascii_str(v: &[u8]) -> (r: &str)
    requires
        all_ascii(v@),
    ensures
        r@ == ascii_chars(v@),
{
    match std::str::from_utf8(v) {
        Ok(s) => s,
        Err(_) => "",
    }
}

/// Relies on `String::from_utf8`: ASCII bytes are valid UTF-8, and each byte
/// becomes the character of the same code.
#[verifier::external_body]
pub(crate) fn ascii_string(v: Vec<u8>) -> (r: String)
    requires
        all_ascii(v@),
    ensures
        r@ == ascii_chars(v@),
{
    match String::from_utf8(v) {
        Ok(s) => s,
        Err(_) => String::new(),
    }
}

} // verus!
