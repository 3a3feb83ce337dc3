//! Values that are drawn anew at each call.

use rand::Rng;
use vstd::prelude::*;

verus! {

/// A number below `high`, drawn at random.
///
/// Trusted: `gen_range` of `rand`, on the thread's generator, with the bounds 0 and
/// `high`. It documents that the value lies in the half-open range, and that it stops
/// the process where the range is empty, which `requires` rules out.
#[verifier::external_body]
pub(crate) fn random_index(high: usize) -> (r: usize)
    requires
        0 < high,
    ensures
        r < high,
{
    rand::thread_rng().gen_range(0, high)
}

/// The character is a digit of the hexadecimal system, in lower case.
pub open spec fn is_lower_hex(c: char) -> bool {
    ('0' <= c <= '9') || ('a' <= c <= 'f')
}

/// The text has the form in which a random identifier is written: 36 characters, of
/// which the four at 8, 13, 18 and 23 are hyphens and the others hexadecimal digits in
/// lower case; the digit at 14 is the version, 4, and the digit at 19 bears the
/// variant, so that it is one of `8`, `9`, `a` and `b`.
pub open spec fn is_uuid_text(text: Seq<char>) -> bool {
    &&& text.len() == 36
    &&& forall|i: int|
        0 <= i < 36 ==> if i == 8 || i == 13 || i == 18 || i == 23 {
            #[trigger] text[i] == '-'
        } else {
            is_lower_hex(text[i])
        }
    &&& text[14] == '4'
    &&& (text[19] == '8' || text[19] == '9' || text[19] == 'a' || text[19] == 'b')
}

/// A random identifier of 122 random bits, written in the hyphenated form.
///
/// Trusted: `Uuid::new_v4` of `uuid` and its `to_string`. `new_v4` sets the version to
/// 4 and the variant to that of RFC 4122 and draws the other 122 bits at random;
/// `to_string` writes the 16 bytes as hexadecimal digits in lower case, in groups of 8,
/// 4, 4, 4 and 12 with a hyphen between two groups. Of the random bits nothing is
/// claimed. (`new_v4` stops the process where the system hands out no random bytes.)
#[verifier::external_body]
pub(crate) fn random_uuid() -> (r: String)
    ensures
        is_uuid_text(r@),
{
    uuid::Uuid::new_v4().to_string()
}

/// An identifier for a new row, or nothing where none could be made.
///
/// Trusted: `cuid1` of `cuid`, which builds the text from the clock, a counter, the
/// host's name and random numbers. Nothing is claimed of the text. (`cuid1` stops the
/// process where the host's name cannot be had.)
#[verifier::external_body]
pub(crate) fn new_cuid() -> Option<String> {
    cuid::cuid1().ok()
}

} // verus!
