//! Trusted declarations for the outside crates the library leans on: chrono
//! for RFC 3339 timestamps, urlencoding for percent-encoding, and html-escape
//! for HTML text and attribute escaping.

use vstd::prelude::*;

verus! {

/// The RFC 3339 form of an epoch-millisecond instant. What exactly the text
/// looks like is chrono's business; it is a function of the value alone.
pub uninterp spec fn rfc3339_of(ms: i64) -> Seq<char>;

/// The millisecond range this library relies on chrono to round-trip: the
/// instants whose year has exactly four digits (0000-01-01T00:00:00Z up to
/// 9999-12-31T23:59:59.999Z). chrono formats instants far outside this range
/// too, but its RFC 3339 parser accepts only four-digit years, so only inside
/// this window is parsing the inverse of formatting.
pub open spec fn ms_in_range(ms: i64) -> bool {
    -62_167_219_200_000 <= ms && ms <= 253_402_300_799_999
}

/// Relies on chrono's `DateTime::<Utc>::from_timestamp_millis` and
/// `to_rfc3339`: for an in-range instant the result is its RFC 3339 form,
/// a function of the millisecond value alone.
#[verifier::external_body]
pub fn millis_to_rfc3339(ms: i64) -> (r: String)
    ensures
        ms_in_range(ms) ==> r@ == rfc3339_of(ms),
{
    chrono::DateTime::<chrono::Utc>::from_timestamp_millis(ms)
        .unwrap_or_default()
        .to_rfc3339()
}

/// The epoch milliseconds chrono reads out of a timestamp text, zero when
/// the text does not parse: a function of the text alone.
pub uninterp spec fn millis_of_rfc3339(s: Seq<char>) -> i64;

/// Relies on chrono's `DateTime::parse_from_rfc3339` and `timestamp_millis`:
/// the result depends on the text alone; parsing the RFC 3339 form of an
/// in-range instant recovers exactly that instant; and text that does not
/// parse falls back to zero — stated here for the empty text, the one case
/// the library itself produces (a missing datetime attribute).
#[verifier::external_body]
pub fn rfc3339_to_millis(s: &str) -> (r: i64)
    ensures
        r == millis_of_rfc3339(s@),
        forall|ms: i64| ms_in_range(ms) && s@ == rfc3339_of(ms) ==> r == ms,
        s@.len() == 0 ==> r == 0,
{
    chrono::DateTime::parse_from_rfc3339(s)
        .map(|dt| dt.timestamp_millis())
        .unwrap_or_default()
}

/// The percent-encoded form of a text, as urlencoding produces it: a function
/// of the text alone.
pub uninterp spec fn urlencoded(s: Seq<char>) -> Seq<char>;

/// Relies on `urlencoding::encode`: percent-encoding depends on the text
/// alone.
#[verifier::external_body]
pub fn url_encode(s: &str) -> (r: String)
    ensures
        r@ == urlencoded(s@),
{
    urlencoding::encode(s).into_owned()
}

/// How one character is escaped in HTML text: `&`, `<` and `>` become
/// entities, everything else stays.
pub open spec fn escaped_text_char(c: char) -> Seq<char> {
    if c == '&' {
        "&amp;"@
    } else if c == '<' {
        "&lt;"@
    } else if c == '>' {
        "&gt;"@
    } else {
        seq![c]
    }
}

/// HTML text escaping, character by character.
pub open spec fn escaped_text(s: Seq<char>) -> Seq<char>
    decreases s.len(),
{
    if s.len() == 0 {
        Seq::empty()
    } else {
        escaped_text(s.drop_last()) + escaped_text_char(s.last())
    }
}

/// Relies on `html_escape::encode_text`: escapes exactly `&`, `<` and `>`.
#[verifier::external_body]
pub fn escape_text(s: &str) -> (r: String)
    ensures
        r@ == escaped_text(s@),
{
    html_escape::encode_text(s).into_owned()
}

/// How one character is escaped in a double-quoted HTML attribute value:
/// `&`, `<`, `>` and `"` become entities, everything else stays.
pub open spec fn escaped_attr_char(c: char) -> Seq<char> {
    if c == '&' {
        "&amp;"@
    } else if c == '<' {
        "&lt;"@
    } else if c == '>' {
        "&gt;"@
    } else if c == '"' {
        "&quot;"@
    } else {
        seq![c]
    }
}

/// Double-quoted attribute escaping, character by character.
pub open spec fn escaped_attr(s: Seq<char>) -> Seq<char>
    decreases s.len(),
{
    if s.len() == 0 {
        Seq::empty()
    } else {
        escaped_attr(s.drop_last()) + escaped_attr_char(s.last())
    }
}

/// Relies on `html_escape::encode_double_quoted_attribute`: escapes exactly
/// `&`, `<`, `>` and `"`.
#[verifier::external_body]
pub fn escape_attr(s: &str) -> (r: String)
    ensures
        r@ == escaped_attr(s@),
{
    html_escape::encode_double_quoted_attribute(s).into_owned()
}

} // verus!
