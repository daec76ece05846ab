//! Instants, and how they are shown.
use vstd::prelude::*;

use crate::number::{decimal, lemma_decimal_injective, natural_text};
use crate::outside::{
    clock, date, date_of, days_between, days_from_to, instant, rfc3339, rfc3339_of,
};

verus! {

/// An instant: the seconds since 1970 and the nanoseconds within the second.
#[derive(Debug, Clone, Copy, PartialEq, Eq, Structural)]
pub struct Timestamp {
    pub seconds: i64,
    pub nanos: u32,
}

impl Timestamp {
    /// The calendar holds this instant.
    pub open spec fn on_calendar(self) -> bool {
        instant(self.seconds as int, self.nanos as int)
    }

    /// A clock can show this instant: it does not lie before 1970 and not within a leap second.
    pub open spec fn on_clock(self) -> bool {
        self.on_calendar() && self.seconds >= 0 && self.nanos < 1_000_000_000
    }

    /// This instant is later than `other`.
    pub open spec fn after(self, other: Timestamp) -> bool {
        self.seconds > other.seconds || (self.seconds == other.seconds && self.nanos > other.nanos)
    }

    /// Whether this instant is later than `other`.
    pub fn is_after(&self, other: &Timestamp) -> (r: bool)
        ensures
            r == self.after(*other),
    {
        self.seconds > other.seconds || (self.seconds == other.seconds && self.nanos > other.nanos)
    }
}

/// The instant that the clock shows: not before 1970, and never within a leap second.
pub fn current_time() -> (r: Timestamp)
    ensures
        r.on_clock(),
{
    let (seconds, nanos) = clock();
    Timestamp { seconds, nanos }
}

/// The instant in the notation of RFC 3339, to the second; nothing where the calendar does not
/// hold the instant.
pub fn iso8601_seconds(created_at: Timestamp) -> (r: Option<String>)
    ensures
        r is Some == created_at.on_calendar(),
        r matches Some(t) ==> t@ == rfc3339_of(created_at.seconds, created_at.nanos),
{
    rfc3339(created_at.seconds, created_at.nanos)
}

/// The date of the instant; nothing where the calendar does not hold the instant.
pub fn calendar_date(created_at: Timestamp) -> (r: Option<String>)
    ensures
        r is Some == created_at.on_calendar(),
        r matches Some(t) ==> t@ == date_of(created_at.seconds, created_at.nanos),
{
    date(created_at.seconds, created_at.nanos)
}

/// How long ago something was, in days.
pub open spec fn age(days: int) -> Seq<char> {
    if days <= 0 {
        "today"@
    } else if days == 1 {
        "1 day ago"@
    } else {
        decimal(days as nat) + " days ago"@
    }
}

/// How long ago something was, in days; what lies ahead counts as today.
pub fn age_title(days: i64) -> (r: String)
    ensures
        r@ == age(days as int),
{
    if days <= 0 {
        "today".to_string()
    } else if days == 1 {
        "1 day ago".to_string()
    } else {
        let mut out = natural_text(days as u128);
        out.append(" days ago");
        out
    }
}

/// The whole days from `created_at` to `now`, as the calendar counts them.
pub open spec fn elapsed(created_at: Timestamp, now: Timestamp) -> int {
    days_from_to((created_at.seconds, created_at.nanos), (now.seconds, now.nanos))
}

/// How long before `now` the instant `created_at` was.
pub fn age_at(created_at: Timestamp, now: Timestamp) -> (r: Option<String>)
    ensures
        r is Some == (created_at.on_calendar() && now.on_calendar()),
        r matches Some(t) ==> t@ == age(elapsed(created_at, now)),
{
    match days_between((created_at.seconds, created_at.nanos), (now.seconds, now.nanos)) {
        Some(days) => Some(age_title(days)),
        None => None,
    }
}

/// How long ago `created_at` was when the clock was read; nothing where the calendar does not
/// hold `created_at`.
pub fn days_ago_title(created_at: Timestamp) -> (r: Option<String>)
    ensures
        r is Some == created_at.on_calendar(),
        r matches Some(t) ==> exists|now: Timestamp|
            now.on_clock() && t@ == age(#[trigger] elapsed(created_at, now)),
{
    let now = current_time();
    let ghost e = elapsed(created_at, now);
    age_at(created_at, now)
}

/// Of two instants outside leap seconds the later one is that with more nanoseconds since 1970.
pub proof fn law_later_instants(a: Timestamp, b: Timestamp)
    requires
        a.nanos < 1_000_000_000,
        b.nanos < 1_000_000_000,
    ensures
        a.after(b) <==> a.seconds * 1_000_000_000 + a.nanos > b.seconds * 1_000_000_000 + b.nanos,
{
}

/// Ages are told in whole days: none or fewer is today, one is one, and more are counted.
pub proof fn law_ages(days: int)
    ensures
        days <= 0 ==> age(days) == "today"@,
        days == 1 ==> age(days) == "1 day ago"@,
        days >= 2 ==> age(days) == decimal(days as nat) + " days ago"@,
{
}

/// Among ages of more than a day different ones are told apart.
pub proof fn law_ages_are_told_apart(a: int, b: int)
    requires
        a >= 2,
        b >= 2,
        age(a) == age(b),
    ensures
        a == b,
{
    let x = decimal(a as nat);
    let y = decimal(b as nat);
    let tail = " days ago"@;
    assert(x =~= age(a).take(age(a).len() - tail.len()));
    assert(y =~= age(b).take(age(b).len() - tail.len()));
    lemma_decimal_injective(a as nat, b as nat);
}

} // verus!
