//! Fresh identifiers for responses and their output items.
use uuid::Uuid;
use vstd::prelude::*;

use crate::text::concat;

verus! {

/// Whether a character is a lower-case hexadecimal digit.
pub open spec fn is_hex_digit(c: char) -> bool {
    '0' <= c <= '9' || 'a' <= c <= 'f'
}

/// Whether a text is a version-4 UUID written as 32 digits without hyphens.
pub open spec fn is_simple_uuid(text: Seq<char>) -> bool {
    &&& text.len() == 32
    &&& forall|i: int| 0 <= i < 32 ==> is_hex_digit(#[trigger] text[i])
    &&& text[12] == '4'
    &&& text[16] == '8' || text[16] == '9' || text[16] == 'a' || text[16] == 'b'
}

/// Whether a text is an identifier: a prefix and a UUID behind it.
pub open spec fn is_id(prefix: Seq<char>, id: Seq<char>) -> bool {
    exists|uuid: Seq<char>| #[trigger] is_simple_uuid(uuid) && id == prefix + uuid
}

/// `Uuid::new_v4` and its simple form: 32 lower-case hexadecimal digits, with the version and
/// variant digits of a random UUID. Which digits the others are is left to chance.
#[verifier::external_body]
fn random_uuid() -> (text: String)
    ensures
        is_simple_uuid(text@),
{
    Uuid::new_v4().simple().to_string()
}

/// Identifiers exist under every prefix.
pub proof fn lemma_id_exists(prefix: Seq<char>) -> (id: Seq<char>)
    ensures
        is_id(prefix, id),
{
    let uuid = Seq::new(
        32,
        |i: int|
            if i == 12 {
                '4'
            } else {
                '8'
            },
    );
    assert(is_simple_uuid(uuid));
    prefix + uuid
}

/// A fresh identifier under a prefix.
pub fn new_id(prefix: &str) -> (id: String)
    ensures
        is_id(prefix@, id@),
{
    let uuid = random_uuid();
    concat(prefix, uuid.as_str())
}

} // verus!
