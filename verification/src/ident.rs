use vstd::prelude::*;

use uuid::Uuid;

verus! {

pub open spec fn is_lower_hex(c: char) -> bool {
    ('0' <= c && c <= '9') || ('a' <= c && c <= 'f')
}

/// The hyphenated lowercase text of a version-4 UUID: 36 characters, hyphens at 8, 13, 18
/// and 23, a `4` at 14, lowercase hexadecimal digits elsewhere.
pub open spec fn is_v4_uuid_text(s: Seq<char>) -> bool {
    &&& s.len() == 36
    &&& forall|i: int|
        0 <= i < 36 ==> if i == 8 || i == 13 || i == 18 || i == 23 {
            #[trigger] s[i] == '-'
        } else {
            is_lower_hex(s[i])
        }
    &&& s[14] == '4'
}

/// `Uuid::new_v4().to_string()`: a random UUID in its hyphenated lowercase form. Which UUID
/// comes back is left open; its form is stated.
#[verifier::external_body]
pub(crate) fn new_v4_text() -> (r: String)
    ensures
        is_v4_uuid_text(r@),
{
    Uuid::new_v4().to_string()
}

} // verus!
