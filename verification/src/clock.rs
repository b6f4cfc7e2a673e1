use vstd::prelude::*;

verus! {

/// What `chrono::NaiveDateTime::parse_from_str` makes of `text` read with the
/// `strftime`-style `format`: the instant as whole seconds since
/// 1970-01-01 00:00:00 and the nanoseconds past that second, or `None` where
/// the text does not fit the format.
pub uninterp spec fn datetime_parse(text: Seq<char>, format: Seq<char>) -> Option<(int, int)>;

/// A calendar date and time of day without a time zone, as the number of
/// whole seconds since 1970-01-01 00:00:00 and the nanoseconds past that
/// second (past 999_999_999 only within a leap second).
#[derive(Clone, Copy, Debug, PartialEq, Eq, Structural)]
pub struct Stamp {
    pub secs: i64,
    pub nanos: u32,
}

impl View for Stamp {
    type V = (int, int);

    open spec fn view(&self) -> (int, int) {
        (self.secs as int, self.nanos as int)
    }
}

/// `a` comes no later than `b`.
pub open spec fn stamp_le(a: Stamp, b: Stamp) -> bool {
    a.secs < b.secs || (a.secs == b.secs && a.nanos <= b.nanos)
}

impl Stamp {
    /// Whether `self` comes no later than `other`.
    pub fn not_after(&self, other: &Stamp) -> (r: bool)
        ensures
            r == stamp_le(*self, *other),
    {
        self.secs < other.secs || (self.secs == other.secs && self.nanos <= other.nanos)
    }
}

/// Calls `chrono::NaiveDateTime::parse_from_str` and hands out the parsed
/// value as seconds and nanoseconds of the same date and time read as UTC.
/// The contract claims that the outcome is `datetime_parse` of the two texts.
#[verifier::external_body]
pub(crate) fn parse_datetime(text: &str, format: &str) -> (r: Option<Stamp>)
    ensures
        match r {
            Some(s) => datetime_parse(text@, format@) == Some(s@),
            None => datetime_parse(text@, format@) is None,
        },
{
    match chrono::NaiveDateTime::parse_from_str(text, format) {
        Ok(t) => {
            let u = t.and_utc();
            Some(Stamp { secs: u.timestamp(), nanos: u.timestamp_subsec_nanos() })
        },
        Err(_) => None,
    }
}

} // verus!
