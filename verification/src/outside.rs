//! What this library calls and does not prove: each item names the outside function and says
//! what is believed of it.
use base64::engine::general_purpose;
use base64::Engine;
use chrono::{DateTime, SecondsFormat, Utc};
use regex::Regex;
use uuid::Uuid;
use vstd::prelude::*;
use vstd::utf8::encode_utf8;

use crate::encoding::base64_text;
use crate::text::texts;
use crate::tokens::{escaped, modest, name_pattern, token_names};

verus! {

/// `std::string::String::push`: the string gains the character at its end.
pub assume_specification[ String::push ](s: &mut String, c: char)
    ensures
        final(s)@ == old(s)@.push(c),
;

/// `regex::escape`: each character that has a meaning in a pattern gets a backslash before it,
/// every other character stays.
#[verifier::external_body]
pub(crate) fn escape(text: &str) -> (r: String)
    ensures
        r@ == escaped(text@),
{
    regex::escape(text)
}

/// `regex::Regex::new` and `regex::Regex::captures_iter`, on the patterns of this library: a
/// literal start, a name as the one group, a literal stop. The matches are taken leftmost first,
/// do not overlap, and each name is as long as it can be; the result is the group of each match.
/// Such a pattern is refused only where it is compiled to more than 10 MiB. A literal is compiled
/// to one state of a few dozen bytes for each of its bytes, so that delimiters of modest length,
/// at most 40000 bytes, are not refused. Of longer ones nothing is said: the size of a state
/// depends on the machine.
#[verifier::external_body]
pub(crate) fn captured_names(pattern: &str, text: &str) -> (r: Option<Vec<String>>)
    requires
        exists|start: Seq<char>, stop: Seq<char>| pattern@ == #[trigger] name_pattern(start, stop),
    ensures
        (exists|start: Seq<char>, stop: Seq<char>|
            pattern@ == #[trigger] name_pattern(start, stop) && modest(start, stop)) ==> r is Some,
        r matches Some(names) ==> forall|start: Seq<char>, stop: Seq<char>|
            pattern@ == #[trigger] name_pattern(start, stop) ==> texts(names@) == token_names(
                text@,
                start,
                stop,
            ),
{
    let re = Regex::new(pattern).ok()?;
    Some(re.captures_iter(text).map(|found| found[1].to_string()).collect())
}

/// `base64::Engine::encode` of `base64::engine::general_purpose::STANDARD`: the UTF-8 bytes of the
/// text in Base64 with the standard alphabet and padding.
#[verifier::external_body]
pub(crate) fn base64_encode(text: &str) -> (r: String)
    ensures
        r@ == base64_text(encode_utf8(text@)),
{
    general_purpose::STANDARD.encode(text)
}

/// The instants that `chrono` can hold: those of the years -262143 to 262142, and within the
/// last second of a minute also a leap second.
pub open spec fn instant(seconds: int, nanos: int) -> bool {
    &&& -8334601228800 <= seconds <= 8210266876799
    &&& 0 <= nanos
    &&& nanos < 1_000_000_000 || (nanos < 2_000_000_000 && seconds % 60 == 59)
}

/// `chrono::Utc::now`: the seconds since 1970 and the nanoseconds within the second. The instant
/// does not lie before 1970, since the call does not return where the clock stands before that,
/// and it is never within a leap second. Which instant it is, is left unsaid: the clock of the
/// operating system decides.
#[verifier::external_body]
pub(crate) fn clock() -> (r: (i64, u32))
    ensures
        instant(r.0 as int, r.1 as int),
        r.0 >= 0,
        r.1 < 1_000_000_000,
{
    let now = Utc::now();
    (now.timestamp(), now.timestamp_subsec_nanos())
}

/// What `chrono` writes for an instant in the notation of RFC 3339, to the second.
pub uninterp spec fn rfc3339_of(seconds: i64, nanos: u32) -> Seq<char>;

/// `chrono::DateTime::from_timestamp` and `chrono::DateTime::to_rfc3339_opts` with whole seconds
/// and `Z`.
#[verifier::external_body]
pub(crate) fn rfc3339(seconds: i64, nanos: u32) -> (r: Option<String>)
    ensures
        r is Some == instant(seconds as int, nanos as int),
        r matches Some(t) ==> t@ == rfc3339_of(seconds, nanos),
{
    Some(DateTime::from_timestamp(seconds, nanos)?.to_rfc3339_opts(SecondsFormat::Secs, true))
}

/// What `chrono` writes for the date of an instant.
pub uninterp spec fn date_of(seconds: i64, nanos: u32) -> Seq<char>;

/// `chrono::DateTime::from_timestamp`, `chrono::DateTime::date_naive` and the `Display` of a
/// `chrono::NaiveDate`.
#[verifier::external_body]
pub(crate) fn date(seconds: i64, nanos: u32) -> (r: Option<String>)
    ensures
        r is Some == instant(seconds as int, nanos as int),
        r matches Some(t) ==> t@ == date_of(seconds, nanos),
{
    Some(DateTime::from_timestamp(seconds, nanos)?.date_naive().to_string())
}

/// What `chrono` writes for an instant by a pattern of `strftime`.
pub uninterp spec fn strftime_of(seconds: i64, nanos: u32, pattern: Seq<char>) -> Seq<char>;

/// `chrono::DateTime::from_timestamp` and `chrono::DateTime::format` with year, month, day, hour,
/// minute and second. In the years 0 to 9999 each of them has its fixed number of digits.
#[verifier::external_body]
pub(crate) fn strftime(seconds: i64, nanos: u32, pattern: &str) -> (r: Option<String>)
    requires
        pattern@ == "%Y%m%d%H%M%S"@,
    ensures
        r is Some == instant(seconds as int, nanos as int),
        r matches Some(t) ==> t@ == strftime_of(seconds, nanos, pattern@),
        r matches Some(t) ==> -62167219200 <= seconds <= 253402300799 ==> t@.len() == 14
            && forall|i: int| 0 <= i < 14 ==> '0' <= #[trigger] t@[i] <= '9',
{
    Some(DateTime::from_timestamp(seconds, nanos)?.format(pattern).to_string())
}

/// The nanoseconds from one instant to another. A leap second counts where it is over by the time
/// of day of the later instant.
pub open spec fn nanos_from_to(from: (i64, u32), to: (i64, u32)) -> int {
    let leap = if to.0 as int % 86400 > from.0 as int % 86400 && from.1 >= 1_000_000_000 {
        1int
    } else if (to.0 as int % 86400) < from.0 as int % 86400 && to.1 >= 1_000_000_000 {
        -1
    } else {
        0
    };
    (to.0 - from.0 + leap) * 1_000_000_000 + (to.1 - from.1)
}

/// The days of 86400 seconds that fit between two instants, counted towards zero: less than zero
/// where the second is the earlier one by a day or more.
pub open spec fn days_from_to(from: (i64, u32), to: (i64, u32)) -> int {
    let nanos = nanos_from_to(from, to);
    if nanos >= 0 {
        nanos / 86_400_000_000_000
    } else {
        -((-nanos) / 86_400_000_000_000)
    }
}

/// `chrono::DateTime::from_timestamp`, `chrono::DateTime::signed_duration_since` and
/// `chrono::TimeDelta::num_days`: the whole days from one instant to another.
#[verifier::external_body]
pub(crate) fn days_between(from: (i64, u32), to: (i64, u32)) -> (r: Option<i64>)
    ensures
        r is Some == (instant(from.0 as int, from.1 as int) && instant(to.0 as int, to.1 as int)),
        r matches Some(days) ==> days == days_from_to(from, to),
{
    let since = DateTime::from_timestamp(from.0, from.1)?;
    Some(DateTime::from_timestamp(to.0, to.1)?.signed_duration_since(since).num_days())
}

/// The decimal digits and the letters `a` to `f`.
pub open spec fn hex_digit(c: char) -> bool {
    '0' <= c <= '9' || 'a' <= c <= 'f'
}

/// `uuid::Uuid::new_v4` in the form of `uuid::Uuid::simple`: 32 small hexadecimal digits;
/// chance decides which.
#[verifier::external_body]
pub(crate) fn random_uuid() -> (r: String)
    ensures
        r@.len() == 32,
        forall|i: int| 0 <= i < 32 ==> hex_digit(#[trigger] r@[i]),
{
    Uuid::new_v4().simple().to_string()
}

} // verus!
