//! What the service draws at random: session tokens and session identifiers.

use rand::Rng;
use vstd::prelude::*;

verus! {

/// `c` is an ASCII letter or digit.
pub open spec fn is_alphanumeric(c: char) -> bool {
    ||| 0x30 <= c as u32 <= 0x39
    ||| 0x41 <= c as u32 <= 0x5a
    ||| 0x61 <= c as u32 <= 0x7a
}

/// Every character of `text` is an ASCII letter or digit.
pub open spec fn is_alphanumeric_text(text: Seq<char>) -> bool {
    forall|i: int| 0 <= i < text.len() ==> is_alphanumeric(#[trigger] text[i])
}

/// The length of a session identifier: a UUID in its hyphenated form.
pub const AUTH_ID_LEN: usize = 36;

/// The length of a session token.
pub const SESSION_TOKEN_LEN: usize = 32;

/// Samples `Alphanumeric` of `rand` with the thread's generator: one of the
/// 62 ASCII letters and digits.
#[verifier::external_body]
pub(crate) fn random_alphanumeric() -> (c: char)
    ensures
        is_alphanumeric(c),
{
    char::from(rand::thread_rng().sample(rand::distributions::Alphanumeric))
}

/// Calls `String::push`, which appends one character.
#[verifier::external_body]
pub(crate) fn string_push(text: &mut String, c: char)
    ensures
        final(text)@ == old(text)@.push(c),
{
    text.push(c)
}

/// Calls `Uuid::new_v4` and writes the random UUID in its hyphenated form,
/// which has 36 characters.
#[verifier::external_body]
pub(crate) fn new_auth_id() -> (id: String)
    ensures
        id@.len() == AUTH_ID_LEN,
{
    uuid::Uuid::new_v4().to_string()
}

/// A random string of `size` ASCII letters and digits.
pub fn random_string(size: usize) -> (text: String)
    ensures
        text@.len() == size,
        is_alphanumeric_text(text@),
{
    let mut text = String::new();
    let mut i: usize = 0;
    while i < size
        invariant
            i <= size,
            text@.len() == i,
            is_alphanumeric_text(text@),
        decreases size - i,
    {
        let c = random_alphanumeric();
        string_push(&mut text, c);
        i += 1;
    }
    text
}

} // verus!
