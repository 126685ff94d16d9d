//! The two environmental inputs the core consumes: the wall clock and fresh
//! message identifiers. Both depend on the outside world, so nothing is
//! promised of a particular call beyond the documented output shape.

use vstd::prelude::*;

verus! {

/// Relies on std::time::SystemTime::now: the current wall-clock time as
/// seconds since the Unix epoch, reading zero on a clock before the epoch.
/// The value depends on the environment, so nothing is promised of it.
#[verifier::external_body]
pub fn now_unix() -> u64 {
    match std::time::SystemTime::now().duration_since(std::time::UNIX_EPOCH) {
        Ok(elapsed) => elapsed.as_secs(),
        Err(_) => 0,
    }
}

/// A string with its leading and trailing whitespace removed, as str::trim
/// computes it. A pure function of the characters alone.
pub uninterp spec fn trim_of(s: Seq<char>) -> Seq<char>;

/// Relies on str::trim: the result depends on the characters alone, and a
/// string without whitespace to shed comes back whole.
#[verifier::external_body]
pub fn trimmed<'a>(s: &'a str) -> (r: &'a str)
    ensures
        r@ == trim_of(s@),
        r@.len() <= s@.len(),
{
    s.trim()
}

/// Relies on uuid::Uuid::new_v4: a random identifier whose hyphenated text
/// form is always 36 characters, all of them hex digits or hyphens, so
/// trimming sheds nothing.
#[verifier::external_body]
pub fn new_uuid() -> (r: String)
    ensures
        r@.len() == 36,
        trim_of(r@) == r@,
{
    uuid::Uuid::new_v4().to_string()
}

} // verus!
