//! Random tokens and jitter.

use vstd::prelude::*;

verus! {

/// A letter of the Latin alphabet or a digit, in ASCII.
pub open spec fn is_ascii_alphanumeric(c: char) -> bool {
    ('A' <= c && c <= 'Z') || ('a' <= c && c <= 'z') || ('0' <= c && c <= '9')
}

/// A text made of ASCII letters and digits only.
pub open spec fn is_alphanumeric_text(text: Seq<char>) -> bool {
    forall|i: int| 0 <= i < text.len() ==> is_ascii_alphanumeric(#[trigger] text[i])
}

/// Calls `DistString::sample_string` of `rand::distributions::Alphanumeric`
/// with the thread's generator: a text of `length` characters, each drawn
/// from the ASCII letters and digits. Which ones is left open.
#[verifier::external_body]
pub(crate) fn random_alphanumeric(length: usize) -> (text: String)
    ensures
        text@.len() == length,
        is_alphanumeric_text(text@),
{
    rand::distributions::DistString::sample_string(
        &rand::distributions::Alphanumeric,
        &mut rand::thread_rng(),
        length,
    )
}

/// Calls `Rng::gen_range` with the inclusive range from zero to `limit` on
/// the thread's generator: a number in that range. Which one is left open.
#[verifier::external_body]
pub(crate) fn random_up_to(limit: u64) -> (number: u64)
    ensures
        number <= limit,
{
    rand::Rng::gen_range(&mut rand::thread_rng(), 0..=limit)
}

} // verus!
