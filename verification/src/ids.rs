use vstd::prelude::*;

verus! {

/// A lower-case hexadecimal digit.
pub open spec fn is_lower_hex_digit(c: char) -> bool {
    ('0' as u32 <= c as u32 <= '9' as u32) || ('a' as u32 <= c as u32 <= 'f' as u32)
}

/// Positions of the hyphens in the hyphenated text form of a UUID.
pub open spec fn is_hyphen_position(i: int) -> bool {
    i == 8 || i == 13 || i == 18 || i == 23
}

/// The lower-case hyphenated text of a random (version 4, RFC 4122 variant)
/// UUID, such as `67e55044-10b1-426f-9247-bb680e5fe0c8`.
pub open spec fn is_uuid_v4_text(s: Seq<char>) -> bool {
    &&& s.len() == 36
    &&& forall|i: int| 0 <= i < 36 && is_hyphen_position(i) ==> s[i] == '-'
    &&& forall|i: int| 0 <= i < 36 && !is_hyphen_position(i) ==> is_lower_hex_digit(s[i])
    &&& s[14] == '4'
    &&& (s[19] == '8' || s[19] == '9' || s[19] == 'a' || s[19] == 'b')
}

/// Draws a fresh identifier with `uuid::Uuid::new_v4` and renders it with the
/// uuid's `Display` impl. The source of `new_v4` masks a random `u128` so that
/// the version nibble is 4 and the variant bits are `10`, and `Display`
/// writes the lower-case hyphenated form; that is all this contract claims.
/// Which identifier comes back depends on the random source and is not stated.
#[verifier::external_body]
pub(crate) fn new_macro_id() -> (id: String)
    ensures
        is_uuid_v4_text(id@),
{
    uuid::Uuid::new_v4().to_string()
}

} // verus!
