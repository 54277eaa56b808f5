use vstd::prelude::*;

verus! {

/// What chrono makes of a date in the form of RFC 2822: the same instant,
/// with the same offset, written in the form of RFC 3339; none where the
/// text is no such date.
pub uninterp spec fn rfc3339_from_rfc2822(s: Seq<char>) -> Option<Seq<char>>;

/// What chrono makes of a date in the form of RFC 3339: day, month and
/// year of two digits each, as `dd.mm.yy`; none where the text is no such
/// date.
pub uninterp spec fn short_date_of(s: Seq<char>) -> Option<Seq<char>>;

/// Calls `chrono::DateTime::parse_from_rfc2822` and, on success,
/// `to_rfc3339` on what it gave. The contract says only that the result is
/// `rfc3339_from_rfc2822` of the text.
#[verifier::external_body]
pub(crate) fn rfc2822_to_rfc3339(s: &str) -> (r: Option<String>)
    ensures
        match r {
            Some(t) => rfc3339_from_rfc2822(s@) == Some(t@),
            None => rfc3339_from_rfc2822(s@) is None,
        },
{
    match chrono::DateTime::parse_from_rfc2822(s) {
        Ok(date) => Some(date.to_rfc3339()),
        Err(_) => None,
    }
}

/// Calls `chrono::DateTime::parse_from_rfc3339` and, on success, formats
/// the date with `%d.%m.%y`. The contract says only that the result is
/// `short_date_of` the text.
#[verifier::external_body]
pub(crate) fn short_date(s: &str) -> (r: Option<String>)
    ensures
        match r {
            Some(t) => short_date_of(s@) == Some(t@),
            None => short_date_of(s@) is None,
        },
{
    match chrono::DateTime::parse_from_rfc3339(s) {
        Ok(date) => Some(date.format("%d.%m.%y").to_string()),
        Err(_) => None,
    }
}

} // verus!
