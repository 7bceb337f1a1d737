//! Post dates: a count of seconds since the Unix epoch that chrono accepts,
//! and the three ways the site writes one out.

use vstd::prelude::*;

verus! {

/// Whether the instant `secs` lies in chrono's range of dates: from the
/// first second of the year -262143 to the last second of the year 262142.
pub open spec fn chrono_accepts(secs: i64) -> bool {
    -8334601315200 <= secs <= 8210266876799
}

/// What chrono writes for the UTC instant `secs` with the format
/// `"%b %e, %Y"` (such as `"Mar 17, 2023"`).
pub uninterp spec fn calendar_date_text(secs: i64) -> Seq<char>;

/// What chrono's `DateTime::to_rfc2822` writes for the UTC instant `secs`.
pub uninterp spec fn rfc2822_text(secs: i64) -> Seq<char>;

/// What chrono's `DateTime::to_rfc3339` writes for the UTC instant `secs`.
pub uninterp spec fn rfc3339_text(secs: i64) -> Seq<char>;

/// The first second of the year 0 and the last second of the year 9999:
/// the instants whose year RFC 2822 can write.
pub open spec fn in_rfc2822_years(secs: i64) -> bool {
    -62167219200 <= secs <= 253402300799
}

/// Whether chrono's `DateTime::from_timestamp_secs` returns a date for
/// `secs`: it does exactly for the days from chrono's `NaiveDate::MIN`
/// (January 1 of -262143) to `NaiveDate::MAX` (December 31 of 262142).
fn chrono_accepts_secs(secs: i64) -> (b: bool)
    ensures
        b == chrono_accepts(secs),
{
    -8334601315200 <= secs && secs <= 8210266876799
}

/// Calls chrono's `format("%b %e, %Y")` on the UTC instant `secs` and writes
/// it to a string; that format has only valid items, so writing never fails.
#[verifier::external_body]
fn chrono_calendar_date(secs: i64) -> (s: String)
    requires
        chrono_accepts(secs),
    ensures
        s@ == calendar_date_text(secs),
{
    chrono::DateTime::from_timestamp_secs(secs).unwrap().format("%b %e, %Y").to_string()
}

/// Calls chrono's `DateTime::to_rfc2822` on the UTC instant `secs`, which
/// panics outside the years 0 to 9999.
#[verifier::external_body]
fn chrono_rfc2822(secs: i64) -> (s: String)
    requires
        chrono_accepts(secs),
        in_rfc2822_years(secs),
    ensures
        s@ == rfc2822_text(secs),
{
    chrono::DateTime::from_timestamp_secs(secs).unwrap().to_rfc2822()
}

/// Calls chrono's `DateTime::to_rfc3339` on the UTC instant `secs`.
#[verifier::external_body]
fn chrono_rfc3339(secs: i64) -> (s: String)
    requires
        chrono_accepts(secs),
    ensures
        s@ == rfc3339_text(secs),
{
    chrono::DateTime::from_timestamp_secs(secs).unwrap().to_rfc3339()
}

/// A UTC instant, in whole seconds since the Unix epoch, that chrono can
/// represent as a `DateTime<Utc>`.
#[derive(Clone, Copy, Debug, PartialEq, Eq, Structural)]
pub struct Timestamp {
    secs: i64,
}

impl View for Timestamp {
    type V = i64;

    closed spec fn view(&self) -> i64 {
        self.secs
    }
}

impl Timestamp {
    #[verifier::type_invariant]
    spec fn in_range(self) -> bool {
        chrono_accepts(self.secs)
    }

    /// The instant `secs` seconds after the Unix epoch, if chrono can
    /// represent it.
    pub fn from_seconds(secs: i64) -> (t: Option<Timestamp>)
        ensures
            t is Some <==> chrono_accepts(secs),
            in_rfc2822_years(secs) ==> t is Some,
            t matches Some(t) ==> t@ == secs,
    {
        if chrono_accepts_secs(secs) {
            Some(Timestamp { secs })
        } else {
            None
        }
    }

    /// Seconds since the Unix epoch.
    pub fn seconds(&self) -> (secs: i64)
        ensures
            secs == self@,
    {
        self.secs
    }

    /// The date as a post's header shows it, such as `"Mar 17, 2023"`.
    pub fn calendar_date(&self) -> (s: String)
        ensures
            s@ == calendar_date_text(self@),
    {
        proof {
            use_type_invariant(self);
        }
        chrono_calendar_date(self.secs)
    }

    /// The date in RFC 2822 form, as RSS wants it.
    pub fn rfc2822(&self) -> (s: String)
        requires
            in_rfc2822_years(self@),
        ensures
            s@ == rfc2822_text(self@),
    {
        proof {
            use_type_invariant(self);
        }
        chrono_rfc2822(self.secs)
    }

    /// The date in RFC 3339 form.
    pub fn rfc3339(&self) -> (s: String)
        ensures
            s@ == rfc3339_text(self@),
    {
        proof {
            use_type_invariant(self);
        }
        chrono_rfc3339(self.secs)
    }
}

} // verus!
