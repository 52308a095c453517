//! Identifiers and timestamps for new and revised notes, from the `uuid`
//! and `chrono` crates.

use vstd::prelude::*;

verus! {

/// A lower-case hexadecimal digit.
pub open spec fn is_lower_hex_digit(c: char) -> bool {
    ('0' <= c && c <= '9') || ('a' <= c && c <= 'f')
}

/// A decimal digit.
pub open spec fn is_decimal_digit(c: char) -> bool {
    '0' <= c && c <= '9'
}

/// The hyphenated lower-case text of a random (version 4, RFC 4122
/// variant) UUID, such as `67e55044-10b1-426f-9247-bb680e5fe0c8`.
pub open spec fn is_v4_uuid_text(s: Seq<char>) -> bool {
    &&& s.len() == 36
    &&& forall|i: int|
        0 <= i < 36 ==> if i == 8 || i == 13 || i == 18 || i == 23 {
            s[i] == '-'
        } else {
            is_lower_hex_digit(#[trigger] s[i])
        }
    &&& s[14] == '4'
    &&& (s[19] == '8' || s[19] == '9' || s[19] == 'a' || s[19] == 'b')
}

/// An RFC 3339 date and time as `chrono` writes it with a numeric offset,
/// such as `1996-12-19T16:39:57-08:00`: at least 25 characters, ending in
/// a sign, two hour digits, a colon and two minute digits.
pub open spec fn is_rfc3339_with_offset(s: Seq<char>) -> bool {
    let n = s.len();
    &&& n >= 25
    &&& (s[n - 6] == '+' || s[n - 6] == '-')
    &&& is_decimal_digit(s[n - 5])
    &&& is_decimal_digit(s[n - 4])
    &&& s[n - 3] == ':'
    &&& is_decimal_digit(s[n - 2])
    &&& is_decimal_digit(s[n - 1])
}

/// Calls `uuid::Uuid::new_v4` and formats the result with `to_string`.
/// Claimed: the text is a hyphenated lower-case version-4 UUID (the crate
/// masks the version nibble to 4 and the variant bits to `10`, and its
/// `Display` writes the hyphenated lower-case form). Which UUID comes out
/// rests on the random number generator and is not stated.
#[verifier::external_body]
pub(crate) fn new_note_id() -> (id: String)
    ensures
        is_v4_uuid_text(id@),
{
    uuid::Uuid::new_v4().to_string()
}

/// The record of the clock readings a store has taken, oldest first. It is
/// a model only: it holds no data at run time, and only
/// `current_timestamp` extends it.
pub(crate) struct Clock {
    readings: Ghost<Seq<Seq<char>>>,
}

impl Clock {
    /// The readings taken so far, oldest first.
    pub(crate) closed spec fn readings(&self) -> Seq<Seq<char>> {
        self.readings@
    }

    /// A clock from which no reading has been taken.
    pub(crate) fn new() -> (clock: Clock)
        ensures
            clock.readings() == Seq::<Seq<char>>::empty(),
    {
        Clock { readings: Ghost(Seq::empty()) }
    }
}

/// Calls `chrono::Local::now` and formats the result with `to_rfc3339`.
/// Claimed: the text has the RFC 3339 shape with a `+HH:MM`/`-HH:MM` offset
/// (chrono writes a four-digit or signed year, `-MM-DD`, `T`, `HH:MM:SS`,
/// optional fractional seconds, then the offset rounded to minutes), and the
/// record `clock` gains this reading as its newest entry. Which instant and
/// time zone the text shows rests on the system clock and is not stated.
#[verifier::external_body]
pub(crate) fn current_timestamp(clock: &mut Clock) -> (now: String)
    ensures
        is_rfc3339_with_offset(now@),
        final(clock).readings() == old(clock).readings().push(now@),
{
    chrono::Local::now().to_rfc3339()
}

} // verus!
