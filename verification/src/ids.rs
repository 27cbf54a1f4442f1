//! Fresh identifiers.

use vstd::prelude::*;

verus! {

/// Whether a character is a lower-case hexadecimal digit.
pub open spec fn is_hex(c: char) -> bool {
    '0' <= c <= '9' || 'a' <= c <= 'f'
}

/// Whether a text is a random identifier in its hyphenated form: 36 characters, with
/// hyphens after 8, 13, 18 and 23 of them, the digit 4 for a random one at its place,
/// and hexadecimal digits elsewhere.
pub open spec fn is_uuid(text: Seq<char>) -> bool {
    &&& text.len() == 36
    &&& text[14] == '4'
    &&& text[19] == '8' || text[19] == '9' || text[19] == 'a' || text[19] == 'b'
    &&& forall|i: int|
        0 <= i < 36 ==> if i == 8 || i == 13 || i == 18 || i == 23 {
            (#[trigger] text[i]) == '-'
        } else {
            is_hex(text[i])
        }
}

/// A random identifier: `uuid::Uuid::new_v4`, written by its `Display` impl in the
/// hyphenated form. Which one comes is left to chance, so nothing but its form is
/// stated.
#[verifier::external_body]
pub(crate) fn fresh_id() -> (id: String)
    ensures
        is_uuid(id@),
{
    uuid::Uuid::new_v4().to_string()
}

/// A random identifier is written as groups of 8, 4, 4, 4 and 12 hexadecimal digits with
/// hyphens between them, and says of itself that it is a random one; every such text is
/// one.
pub proof fn law_random_identifiers(text: Seq<char>)
    ensures
        is_uuid(text) <==> {
            &&& text.len() == 36
            &&& forall|i: int|
                0 <= i < 36 ==> ((#[trigger] text[i]) == '-' <==> i == 8 || i == 13 || i == 18 || i == 23)
            &&& forall|i: int|
                0 <= i < 36 && #[trigger] text[i] != '-' ==> '0' <= text[i] <= '9' || 'a' <= text[i] <= 'f'
            &&& text[14] == '4'
            &&& text[19] == '8' || text[19] == '9' || text[19] == 'a' || text[19] == 'b'
        },
{
}

} // verus!
