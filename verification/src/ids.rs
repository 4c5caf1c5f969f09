//! Fresh identifiers and the wall clock. Both depend on the machine, so
//! nothing is promised of their values beyond their shape; the functions of
//! the library that use them say what holds whatever came back.

use vstd::prelude::*;

verus! {

/// Whether `c` is a lower-case hexadecimal digit.
pub open spec fn is_lower_hex(c: char) -> bool {
    ('0' <= c && c <= '9') || ('a' <= c && c <= 'f')
}

/// Whether `s` is the hyphenated text of a version-4 UUID: 36 characters,
/// hyphens at 8, 13, 18 and 23, lower-case hexadecimal digits elsewhere,
/// the version digit `4` and a variant digit among `8`, `9`, `a`, `b`.
pub open spec fn is_uuid_v4_text(s: Seq<char>) -> bool {
    &&& s.len() == 36
    &&& forall|i: int|
        0 <= i < 36 ==> (if i == 8 || i == 13 || i == 18 || i == 23 {
            s[i] == '-'
        } else {
            is_lower_hex(#[trigger] s[i])
        })
    &&& s[14] == '4'
    &&& (s[19] == '8' || s[19] == '9' || s[19] == 'a' || s[19] == 'b')
}

/// A random (version 4) UUID in its hyphenated text form, through
/// `uuid::Uuid::new_v4` and its `Display`. Claimed: the text has the
/// hyphenated lower-case form, with the version and variant digits that
/// `new_v4` sets. Which UUID it is is random and left unsaid.
#[verifier::external_body]
pub(crate) fn new_uuid_v4() -> (s: String)
    ensures
        is_uuid_v4_text(s@),
{
    uuid::Uuid::new_v4().to_string()
}

/// The current time in whole seconds since the Unix epoch, through
/// `chrono::Utc::now().timestamp()`. Nothing is claimed of the value; chrono
/// panics if the system clock reads a time before the epoch, which no argument
/// of this function can rule out.
#[verifier::external_body]
pub(crate) fn unix_now() -> (t: i64) {
    chrono::Utc::now().timestamp()
}

} // verus!
