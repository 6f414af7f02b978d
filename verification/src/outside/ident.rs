//! The `uuid` crate: random identifiers.
use vstd::prelude::*;

verus! {

/// Whether `c` is a lower-case hexadecimal digit.
pub open spec fn is_lower_hex(c: char) -> bool {
    ('0' <= c && c <= '9') || ('a' <= c && c <= 'f')
}

/// Whether `s` has the shape of a random identifier in the simple format: thirty-two lower-case
/// hexadecimal digits without hyphens, the version digit a four and the variant digit one of
/// `8`, `9`, `a` and `b`.
pub open spec fn is_simple_random_id(s: Seq<char>) -> bool {
    &&& s.len() == 32
    &&& forall|i: int| 0 <= i < s.len() ==> is_lower_hex(#[trigger] s[i])
    &&& s[12] == '4'
    &&& s[16] == '8' || s[16] == '9' || s[16] == 'a' || s[16] == 'b'
}

/// `Uuid::new_v4`, written by `Simple`: a fresh random identifier of that shape. Which one comes
/// is left to chance, so nothing more is said of it; in particular not that two calls differ.
#[verifier::external_body]
pub(crate) fn fresh_random_id() -> (r: String)
    ensures
        is_simple_random_id(r@),
{
    format!("{}", uuid::Uuid::new_v4().simple())
}

} // verus!
