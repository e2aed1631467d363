//! How moments and identifiers are written.

use vstd::arithmetic::power::pow;
use vstd::prelude::*;
use crate::common::Timestamp;
use crate::conversation::digit;

verus! {

impl Timestamp {
    /// Whether the moment has a date: its year can be written, and only the last second of
    /// a minute may be a leap second.
    pub open spec fn datable(self) -> bool {
        &&& -8_334_601_228_800 <= self.secs <= 8_210_266_876_799
        &&& self.nanos < 2_000_000_000
        &&& self.nanos >= 1_000_000_000 ==> (self.secs as int) % 60 == 59
    }

    /// Whether the moment has a date.
    pub fn is_datable(&self) -> (r: bool)
        ensures
            r == self.datable(),
    {
        if !(-8_334_601_228_800 <= self.secs && self.secs <= 8_210_266_876_799) {
            return false;
        }
        if self.nanos < 1_000_000_000 {
            return true;
        }
        // A number that is no less than zero and leaves the same remainder.
        let shifted: i64 = self.secs + 8_334_601_228_800;
        self.nanos < 2_000_000_000 && shifted % 60 == 59
    }
}

/// A moment as people read it.
pub uninterp spec fn time_shown(secs: i64, nanos: u32) -> Seq<char>;

/// A moment as it is written down: date, time, and a `Z`.
pub uninterp spec fn time_written(secs: i64, nanos: u32) -> Seq<char>;

/// `chrono::DateTime::<Utc>::from_timestamp` and the date's `to_string`, which depends on the
/// moment alone.
#[verifier::external_body]
pub(crate) fn show_time(ts: Timestamp) -> (r: String)
    requires
        ts.datable(),
    ensures
        r@ == time_shown(ts.secs, ts.nanos),
{
    chrono::DateTime::from_timestamp(ts.secs, ts.nanos).unwrap().to_string()
}

/// `chrono::DateTime::<Utc>::from_timestamp` and the date's `to_rfc3339_opts` with as many
/// fractional digits as are needed and a `Z`, which depends on the moment alone.
#[verifier::external_body]
pub(crate) fn write_time(ts: Timestamp) -> (r: String)
    requires
        ts.datable(),
    ensures
        r@ == time_written(ts.secs, ts.nanos),
{
    chrono::DateTime::from_timestamp(ts.secs, ts.nanos).unwrap().to_rfc3339_opts(
        chrono::SecondsFormat::AutoSi,
        true,
    )
}

/// Which hexadecimal digit stands at position `i` of an identifier with its hyphens.
pub open spec fn digit_at(i: int) -> int {
    if i < 8 {
        i
    } else if i < 13 {
        i - 1
    } else if i < 18 {
        i - 2
    } else if i < 23 {
        i - 3
    } else {
        i - 4
    }
}

/// An identifier as 32 hexadecimal digits in groups of 8, 4, 4, 4 and 12.
pub open spec fn id_shown(id: u128) -> Seq<char> {
    Seq::new(
        36,
        |i: int|
            if i == 8 || i == 13 || i == 18 || i == 23 {
                '-'
            } else {
                digit(((id as int / pow(16, (31 - digit_at(i)) as nat)) % 16) as nat)
            },
    )
}

/// `uuid::Uuid::from_u128` and the identifier's `to_string`: its digits in lower case, the
/// highest first, in hyphenated groups.
#[verifier::external_body]
pub(crate) fn show_id(id: u128) -> (r: String)
    ensures
        r@ == id_shown(id),
{
    uuid::Uuid::from_u128(id).to_string()
}

/// Every moment from the year 1 to the year 9999 has a date, and so has the last second of a
/// minute when it is doubled.
pub proof fn law_ordinary_moments_have_a_date(ts: Timestamp)
    requires
        -62_135_596_800 <= ts.secs <= 253_402_300_799,
        ts.nanos < 1_000_000_000 || (ts.nanos < 2_000_000_000 && (ts.secs as int) % 60 == 59),
    ensures
        ts.datable(),
{
}

} // verus!
