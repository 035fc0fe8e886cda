use crate::attribute::{Attribute, AttributeModel};
use crate::decimal::{i64_to_string, int_text, parse_i64, parse_i64_spec};
use crate::error::Error;
use vstd::prelude::*;

verus! {

/// The first second that a UTC date-time can hold: January 1 of year -262143.
pub const MIN_TIMESTAMP: i64 = -8334601228800;

/// The last second that a UTC date-time can hold: December 31 of year 262142, 23:59:59.
pub const MAX_TIMESTAMP: i64 = 8210266876799;

/// The first second of year 0.
pub const YEAR_0_START: i64 = -62167219200;

/// The last second of year 9999.
pub const YEAR_9999_END: i64 = 253402300799;

/// A UNIX timestamp with a sub-second part that a UTC date-time can hold:
/// the second is in range, and a nanosecond part of a second or more (a leap
/// second) only stands on the last second of a minute.
pub open spec fn valid_timestamp(secs: int, nanos: int) -> bool {
    &&& MIN_TIMESTAMP <= secs <= MAX_TIMESTAMP
    &&& 0 <= nanos
    &&& (nanos < 1_000_000_000 || (nanos < 2_000_000_000 && secs % 60 == 59))
}

/// A timestamp whose RFC 3339 text has a four-digit year and no leap second.
pub open spec fn in_four_digit_years(secs: int, nanos: int) -> bool {
    YEAR_0_START <= secs <= YEAR_9999_END && nanos < 1_000_000_000
}

/// A text whose first character is an ASCII digit, as an RFC 3339 text's
/// year is.
pub open spec fn starts_with_digit(s: Seq<char>) -> bool {
    s.len() > 0 && '0' <= s[0] <= '9'
}

/// The timestamp that `chrono::DateTime::parse_from_rfc3339` reads from a text,
/// taken in UTC.
pub uninterp spec fn rfc3339_parse(s: Seq<char>) -> Option<(i64, u32)>;

/// The text that `chrono::DateTime::<Utc>::to_rfc3339` writes for a timestamp.
pub uninterp spec fn rfc3339_text(secs: i64, nanos: u32) -> Seq<char>;

/// `chrono::DateTime::<Utc>::from_timestamp`, taken back apart by `timestamp`
/// and `timestamp_subsec_nanos`: `None` exactly when the second is out of
/// range or the nanosecond part is invalid, else the same two numbers.
#[verifier::external_body]
fn chrono_from_timestamp(secs: i64, nsecs: u32) -> (r: Option<(i64, u32)>)
    ensures
        r == (if valid_timestamp(secs as int, nsecs as int) {
            Some((secs, nsecs))
        } else {
            None::<(i64, u32)>
        }),
{
    match chrono::DateTime::from_timestamp(secs, nsecs) {
        Some(dt) => Some((dt.timestamp(), dt.timestamp_subsec_nanos())),
        None => None,
    }
}

/// `chrono::Utc::now`: the current time, which every UTC date-time of chrono
/// holds as a valid timestamp. Which time it is, is not stated.
#[verifier::external_body]
fn chrono_now() -> (r: (i64, u32))
    ensures
        valid_timestamp(r.0 as int, r.1 as int),
{
    let now = chrono::Utc::now();
    (now.timestamp(), now.timestamp_subsec_nanos())
}

/// `chrono::DateTime::parse_from_rfc3339` taken in UTC: its result is named
/// `rfc3339_parse`; like every UTC date-time of chrono it holds a valid
/// timestamp. The text that `to_rfc3339` writes for a four-digit year without
/// leap second is a valid RFC 3339 value and reads back as the same instant.
/// The parser reads four year digits first, so a text that does not start
/// with a digit is refused.
#[verifier::external_body]
fn chrono_parse_rfc3339(s: &str) -> (r: Option<(i64, u32)>)
    ensures
        r == rfc3339_parse(s@),
        r matches Some(t) ==> valid_timestamp(t.0 as int, t.1 as int),
        !starts_with_digit(s@) ==> r is None,
        forall|secs: i64, nanos: u32|
            #![trigger rfc3339_text(secs, nanos)]
            s@ == rfc3339_text(secs, nanos) && valid_timestamp(secs as int, nanos as int)
                && in_four_digit_years(secs as int, nanos as int) ==> r == Some((secs, nanos)),
{
    match chrono::DateTime::parse_from_rfc3339(s) {
        Ok(dt) => {
            let utc = dt.with_timezone(&chrono::Utc);
            Some((utc.timestamp(), utc.timestamp_subsec_nanos()))
        },
        Err(_) => None,
    }
}

/// `chrono::DateTime::<Utc>::to_rfc3339`: its text is named `rfc3339_text`.
/// For a four-digit year without leap second the text is a valid RFC 3339
/// value, which `parse_from_rfc3339` reads back as the same instant.
#[verifier::external_body]
fn chrono_to_rfc3339(secs: i64, nanos: u32) -> (r: String)
    requires
        valid_timestamp(secs as int, nanos as int),
    ensures
        r@ == rfc3339_text(secs, nanos),
        in_four_digit_years(secs as int, nanos as int) ==> rfc3339_parse(r@) == Some((secs, nanos)),
{
    chrono::DateTime::from_timestamp(secs, nanos).unwrap().to_rfc3339()
}

/// The text that chrono's serde form writes for a UTC date-time:
/// `to_rfc3339_opts(SecondsFormat::AutoSi, true)`, RFC 3339 with a `Z`
/// offset and 0, 3, 6 or 9 fraction digits.
pub uninterp spec fn iso8601_text(secs: i64, nanos: u32) -> Seq<char>;

/// The timestamp that chrono's `FromStr` for a UTC date-time (the reading of
/// its serde form) reads from a text.
pub uninterp spec fn iso8601_parse(s: Seq<char>) -> Option<(i64, u32)>;

/// `chrono::DateTime::<Utc>::to_rfc3339_opts(SecondsFormat::AutoSi, true)`,
/// which is what chrono's serde form writes: its text is named
/// `iso8601_text`. The text reads back through chrono's `FromStr` as the
/// same instant, whatever the year (years outside 0 to 9999 are written with
/// their sign and read as signed numbers) and on a leap second too (written
/// as second 60, read as the second before with a second more of
/// nanoseconds).
#[verifier::external_body]
fn chrono_to_rfc3339_z(secs: i64, nanos: u32) -> (r: String)
    requires
        valid_timestamp(secs as int, nanos as int),
    ensures
        r@ == iso8601_text(secs, nanos),
        iso8601_parse(r@) == Some((secs, nanos)),
{
    chrono::DateTime::from_timestamp(secs, nanos).unwrap().to_rfc3339_opts(
        chrono::SecondsFormat::AutoSi,
        true,
    )
}

/// `str::parse::<chrono::DateTime<Utc>>`, chrono's relaxed RFC 3339 reading
/// that its serde form uses: its result is named `iso8601_parse`; like
/// every UTC date-time of chrono it holds a valid timestamp. The text that
/// `to_rfc3339_opts(SecondsFormat::AutoSi, true)` writes reads back as the
/// same instant.
#[verifier::external_body]
fn chrono_parse_iso8601(s: &str) -> (r: Option<(i64, u32)>)
    ensures
        r == iso8601_parse(s@),
        r matches Some(t) ==> valid_timestamp(t.0 as int, t.1 as int),
        forall|secs: i64, nanos: u32|
            #![trigger iso8601_text(secs, nanos)]
            s@ == iso8601_text(secs, nanos) && valid_timestamp(secs as int, nanos as int)
                ==> r == Some((secs, nanos)),
{
    match s.parse::<chrono::DateTime<chrono::Utc>>() {
        Ok(dt) => Some((dt.timestamp(), dt.timestamp_subsec_nanos())),
        Err(_) => None,
    }
}

/// A UTC date-time, held as its UNIX timestamp and the nanoseconds past it.
#[derive(Debug, Clone, Copy, PartialEq, Eq, PartialOrd, Ord, Hash)]
pub struct DateTime {
    secs: i64,
    nanos: u32,
}

impl View for DateTime {
    type V = (i64, u32);

    closed spec fn view(&self) -> (i64, u32) {
        (self.secs, self.nanos)
    }
}

impl DateTime {
    /// Every date-time holds a valid timestamp.
    #[verifier::type_invariant]
    pub open spec fn well_formed(self) -> bool {
        valid_timestamp(self@.0 as int, self@.1 as int)
    }

    /// Two date-times with the same timestamp and nanoseconds are the same.
    pub proof fn lemma_view_injective(a: DateTime, b: DateTime)
        requires
            a@ == b@,
        ensures
            a == b,
    {
    }

    /// The current time.
    pub fn now() -> (r: DateTime) {
        let (secs, nanos) = chrono_now();
        DateTime { secs, nanos }
    }

    /// Reads an RFC 3339 text.
    pub fn parse_from_rfc3339(s: &str) -> (r: Result<DateTime, Error>)
        ensures
            rfc3339_parse(s@) matches Some(t) ==> (r matches Ok(dt) && dt@ == t),
            rfc3339_parse(s@) is None ==> r == Err::<DateTime, Error>(Error::InvalidDateTime),
            !starts_with_digit(s@) ==> r == Err::<DateTime, Error>(Error::InvalidDateTime),
            forall|secs: i64, nanos: u32|
                #![trigger rfc3339_text(secs, nanos)]
                s@ == rfc3339_text(secs, nanos) && valid_timestamp(secs as int, nanos as int)
                    && in_four_digit_years(secs as int, nanos as int) ==> rfc3339_parse(s@) == Some(
                    (secs, nanos),
                ),
    {
        match chrono_parse_rfc3339(s) {
            Some((secs, nanos)) => Ok(DateTime { secs, nanos }),
            None => Err(Error::InvalidDateTime),
        }
    }

    /// The date-time of a UNIX timestamp and a nanosecond part, refused when
    /// no UTC date-time holds them.
    pub fn from_timestamp(secs: i64, nsecs: u32) -> (r: Result<DateTime, Error>)
        ensures
            valid_timestamp(secs as int, nsecs as int) ==> (r matches Ok(dt) && dt@ == (secs, nsecs)),
            !valid_timestamp(secs as int, nsecs as int) ==> r == Err::<DateTime, Error>(
                Error::InvalidDateTime,
            ),
    {
        match chrono_from_timestamp(secs, nsecs) {
            Some((s, n)) => Ok(DateTime { secs: s, nanos: n }),
            None => Err(Error::InvalidDateTime),
        }
    }

    /// The RFC 3339 text of the date-time, with a `+00:00` offset.
    pub fn to_rfc3339(&self) -> (r: String)
        ensures
            r@ == rfc3339_text(self@.0, self@.1),
            in_four_digit_years(self@.0 as int, self@.1 as int) ==> rfc3339_parse(r@) == Some(self@),
    {
        proof {
            use_type_invariant(self);
        }
        chrono_to_rfc3339(self.secs, self.nanos)
    }

    /// The date-time in chrono's serde form: RFC 3339 text with a `Z`
    /// offset and as many fraction digits (0, 3, 6 or 9) as it needs.
    pub fn to_iso8601(&self) -> (r: String)
        ensures
            r@ == iso8601_text(self@.0, self@.1),
            iso8601_parse(r@) == Some(self@),
    {
        proof {
            use_type_invariant(self);
        }
        chrono_to_rfc3339_z(self.secs, self.nanos)
    }

    /// Reads a date-time in chrono's serde form, which takes RFC 3339 text
    /// with a `T` or a space between date and time and with years of any
    /// length; refused with `InvalidDateTime` when it does not read.
    pub fn parse_iso8601(s: &str) -> (r: Result<DateTime, Error>)
        ensures
            iso8601_parse(s@) matches Some(t) ==> (r matches Ok(dt) && dt@ == t),
            iso8601_parse(s@) is None ==> r == Err::<DateTime, Error>(Error::InvalidDateTime),
            forall|secs: i64, nanos: u32|
                #![trigger iso8601_text(secs, nanos)]
                s@ == iso8601_text(secs, nanos) && valid_timestamp(secs as int, nanos as int)
                    ==> iso8601_parse(s@) == Some(
                    (secs, nanos),
                ),
    {
        match chrono_parse_iso8601(s) {
            Some((secs, nanos)) => Ok(DateTime { secs, nanos }),
            None => Err(Error::InvalidDateTime),
        }
    }

    /// The UNIX timestamp: whole seconds since 1970-01-01T00:00:00Z.
    pub fn timestamp(&self) -> (r: i64)
        ensures
            r == self@.0,
    {
        self.secs
    }

    /// The nanoseconds past the UNIX timestamp (a second or more only
    /// within a leap second).
    pub fn timestamp_subsec_nanos(&self) -> (r: u32)
        ensures
            r == self@.1,
    {
        self.nanos
    }

    /// The date-time as a string attribute holding its RFC 3339 text.
    pub fn to_attribute(&self) -> (r: Attribute)
        ensures
            r@ == AttributeModel::S(rfc3339_text(self@.0, self@.1)),
    {
        Attribute::S(self.to_rfc3339())
    }

    /// The date-time as a number attribute holding its UNIX timestamp; the
    /// sub-second part is not kept.
    pub fn to_timestamp_attribute(&self) -> (r: Attribute)
        ensures
            r@ == AttributeModel::N(int_text(self@.0 as int)),
    {
        Attribute::N(i64_to_string(self.secs))
    }

    /// A date-time from a string attribute holding RFC 3339 text, or from a
    /// number attribute holding a UNIX timestamp.
    pub fn from_attribute(a: &Attribute) -> (r: Result<DateTime, Error>)
        ensures
            r matches Ok(dt) ==> datetime_from_attribute(a@) == Ok::<(i64, u32), Error>(dt@),
            r matches Err(e) ==> datetime_from_attribute(a@) == Err::<(i64, u32), Error>(e),
            a@ matches AttributeModel::S(s) && !starts_with_digit(s) ==> r == Err::<DateTime, Error>(
                Error::InvalidDateTime,
            ),
    {
        match a {
            Attribute::S(s) => DateTime::parse_from_rfc3339(s.as_str()),
            Attribute::N(n) => match parse_i64(n.as_str()) {
                Some(secs) => DateTime::from_timestamp(secs, 0),
                None => Err(Error::InvalidDateTime),
            },
            Attribute::Other => Err(Error::InvalidAttributeValue),
        }
    }
}

impl std::str::FromStr for DateTime {
    type Err = Error;

    fn from_str(s: &str) -> (r: Result<DateTime, Error>)
        ensures
            rfc3339_parse(s@) matches Some(t) ==> (r matches Ok(dt) && dt@ == t),
            rfc3339_parse(s@) is None ==> r == Err::<DateTime, Error>(Error::InvalidDateTime),
            !starts_with_digit(s@) ==> r == Err::<DateTime, Error>(Error::InvalidDateTime),
    {
        DateTime::parse_from_rfc3339(s)
    }
}

/// What a date-time attribute reads as.
pub open spec fn datetime_from_attribute(a: AttributeModel) -> Result<(i64, u32), Error> {
    match a {
        AttributeModel::S(s) => match rfc3339_parse(s) {
            Some(t) => Ok(t),
            None => Err(Error::InvalidDateTime),
        },
        AttributeModel::N(n) => match parse_i64_spec(n) {
            Some(secs) => if valid_timestamp(secs as int, 0) {
                Ok((secs, 0u32))
            } else {
                Err(Error::InvalidDateTime)
            },
            None => Err(Error::InvalidDateTime),
        },
        AttributeModel::Other => Err(Error::InvalidAttributeValue),
    }
}

/// A date-time written as a number attribute reads back as its second.
pub proof fn lemma_timestamp_attribute_round_trip(secs: i64, nanos: u32)
    requires
        valid_timestamp(secs as int, nanos as int),
    ensures
        datetime_from_attribute(AttributeModel::N(int_text(secs as int))) == Ok::<(i64, u32), Error>(
            (secs, 0u32),
        ),
{
    crate::decimal::lemma_int_text_parses(secs);
}

} // verus!
