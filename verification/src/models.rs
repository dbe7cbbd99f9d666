//! The records that cross the library's boundary: a user as the store holds
//! it, what is shown of a user, what a client sends to register or update
//! one, and how instants are written in JSON.

use vstd::prelude::*;

verus! {

/// A date and time without an offset, held as the seconds and nanoseconds
/// that its calendar reading would have since 1970-01-01T00:00:00 if it were
/// read in UTC.
#[derive(Debug, Clone, Copy, PartialEq, Eq, Structural)]
pub struct PrimitiveDateTime {
    pub seconds: i64,
    pub nanosecond: u32,
}

/// The ISO 8601 text of an instant in UTC, or `None` where the instant lies
/// outside the calendar's range or cannot be formatted.
pub uninterp spec fn iso8601_text(seconds: i64, nanosecond: u32) -> Option<Seq<char>>;

/// The calendar reading of an ISO 8601 text, offset dropped, or `None`
/// where the text is not ISO 8601.
pub uninterp spec fn iso8601_value(text: Seq<char>) -> Option<(i64, u32)>;

/// Formats with the `time` crate: `OffsetDateTime::from_unix_timestamp`,
/// `replace_nanosecond`, and `format` with `Iso8601::DEFAULT`. Any step that
/// fails gives `None`. The contract only names the result.
#[verifier::external_body]
fn format_iso8601(seconds: i64, nanosecond: u32) -> (text: Option<String>)
    ensures
        text is Some <==> iso8601_text(seconds, nanosecond) is Some,
        text matches Some(t) ==> iso8601_text(seconds, nanosecond) == Some(t@),
{
    let at = time::OffsetDateTime::from_unix_timestamp(seconds).ok()?;
    let at = at.replace_nanosecond(nanosecond).ok()?;
    at.format(&time::format_description::well_known::Iso8601::DEFAULT).ok()
}

/// Parses with the `time` crate: `OffsetDateTime::parse` with
/// `Iso8601::DEFAULT`, then the date and time of the result as they are
/// written, whatever the offset. The contract only names the result.
#[verifier::external_body]
fn parse_iso8601(text: &str) -> (at: Option<(i64, u32)>)
    ensures
        at == iso8601_value(text@),
{
    let format = time::format_description::well_known::Iso8601::DEFAULT;
    let at = time::OffsetDateTime::parse(text, &format).ok()?;
    let plain = time::PrimitiveDateTime::new(at.date(), at.time()).assume_utc();
    Some((plain.unix_timestamp(), plain.nanosecond()))
}

/// Why an instant could not be written or read.
#[derive(Debug, Clone, Copy, PartialEq, Eq, Structural)]
pub enum DateTimeError {
    /// The instant has no ISO 8601 text.
    Unformattable,
    /// The text is not ISO 8601.
    Unparsable,
}

/// What a serialised optional instant is: text, or the absence of a value.
pub open spec fn optional_text(dt: Option<PrimitiveDateTime>) -> Option<Option<Seq<char>>> {
    match dt {
        Some(inner) => match iso8601_text(inner.seconds, inner.nanosecond) {
            Some(text) => Some(Some(text)),
            None => None,
        },
        None => Some(None),
    }
}

/// What an optional text deserialises to.
pub open spec fn optional_value(text: Option<Seq<char>>) -> Option<Option<PrimitiveDateTime>> {
    match text {
        Some(s) => match iso8601_value(s) {
            Some((seconds, nanosecond)) => Some(Some(PrimitiveDateTime { seconds, nanosecond })),
            None => None,
        },
        None => Some(None),
    }
}

/// The string that stands for `dt` in JSON: its ISO 8601 text in UTC.
pub fn serialize_primitive_datetime(dt: &PrimitiveDateTime) -> (text: Result<
    String,
    DateTimeError,
>)
    ensures
        text is Ok <==> iso8601_text(dt.seconds, dt.nanosecond) is Some,
        text matches Ok(t) ==> iso8601_text(dt.seconds, dt.nanosecond) == Some(t@),
        text matches Err(e) ==> e == DateTimeError::Unformattable,
{
    match format_iso8601(dt.seconds, dt.nanosecond) {
        Some(text) => Ok(text),
        None => Err(DateTimeError::Unformattable),
    }
}

/// What stands for an optional instant in JSON: its ISO 8601 text, or
/// `None` (a JSON null) where there is no instant.
pub fn serialize_optional_primitive_datetime(dt: &Option<PrimitiveDateTime>) -> (text: Result<
    Option<String>,
    DateTimeError,
>)
    ensures
        text is Ok <==> optional_text(*dt) is Some,
        text matches Ok(Some(t)) ==> optional_text(*dt) == Some(Some(t@)),
        text matches Ok(None) ==> *dt is None,
        text matches Err(e) ==> e == DateTimeError::Unformattable,
{
    match dt {
        Some(inner) => match format_iso8601(inner.seconds, inner.nanosecond) {
            Some(text) => Ok(Some(text)),
            None => Err(DateTimeError::Unformattable),
        },
        None => Ok(None),
    }
}

/// Reads an instant from its JSON string. The date and time are taken as
/// written; an offset in the text is dropped, not applied.
pub fn deserialize_primitive_datetime(text: &str) -> (dt: Result<PrimitiveDateTime, DateTimeError>)
    ensures
        dt is Ok <==> iso8601_value(text@) is Some,
        dt matches Ok(d) ==> iso8601_value(text@) == Some((d.seconds, d.nanosecond)),
        dt matches Err(e) ==> e == DateTimeError::Unparsable,
{
    match parse_iso8601(text) {
        Some((seconds, nanosecond)) => Ok(PrimitiveDateTime { seconds, nanosecond }),
        None => Err(DateTimeError::Unparsable),
    }
}

/// Reads an optional instant from JSON: a string is parsed, a null gives
/// no instant.
pub fn deserialize_optional_primitive_datetime(text: Option<&str>) -> (dt: Result<
    Option<PrimitiveDateTime>,
    DateTimeError,
>)
    ensures
        dt is Ok <==> optional_value(
            match text {
                Some(s) => Some(s@),
                None => None,
            },
        ) is Some,
        dt matches Ok(d) ==> optional_value(
            match text {
                Some(s) => Some(s@),
                None => None,
            },
        ) == Some(d),
        dt matches Err(e) ==> e == DateTimeError::Unparsable,
{
    match text {
        Some(s) => match parse_iso8601(s) {
            Some((seconds, nanosecond)) => Ok(Some(PrimitiveDateTime { seconds, nanosecond })),
            None => Err(DateTimeError::Unparsable),
        },
        None => Ok(None),
    }
}

/// A user as the store holds it.
#[derive(Debug, Clone, PartialEq, Eq)]
pub struct UserRecord {
    pub id: String,
    pub email: String,
    /// The digest of the user's secret, never the secret.
    pub password: String,
    pub is_vip: bool,
    pub vip_start_time: Option<PrimitiveDateTime>,
    pub vip_end_time: Option<PrimitiveDateTime>,
    pub vip_level: i32,
    pub created_at: PrimitiveDateTime,
    pub updated_at: PrimitiveDateTime,
}

/// What is shown of a user: everything but the password digest.
#[derive(Debug, Clone, PartialEq, Eq)]
pub struct SafeUser {
    pub id: String,
    pub email: String,
    pub is_vip: bool,
    pub vip_start_time: Option<PrimitiveDateTime>,
    pub vip_end_time: Option<PrimitiveDateTime>,
    pub vip_level: i32,
    pub created_at: PrimitiveDateTime,
    pub updated_at: PrimitiveDateTime,
}

impl SafeUser {
    /// What is shown of `user`.
    pub open spec fn spec_of(user: UserRecord) -> SafeUser {
        SafeUser {
            id: user.id,
            email: user.email,
            is_vip: user.is_vip,
            vip_start_time: user.vip_start_time,
            vip_end_time: user.vip_end_time,
            vip_level: user.vip_level,
            created_at: user.created_at,
            updated_at: user.updated_at,
        }
    }

    /// What is shown of `user`: every field but the password digest.
    #[verifier::when_used_as_spec(spec_of)]
    pub fn of(user: UserRecord) -> (safe: SafeUser)
        ensures
            safe == SafeUser::spec_of(user),
    {
        SafeUser {
            id: user.id,
            email: user.email,
            is_vip: user.is_vip,
            vip_start_time: user.vip_start_time,
            vip_end_time: user.vip_end_time,
            vip_level: user.vip_level,
            created_at: user.created_at,
            updated_at: user.updated_at,
        }
    }
}

/// What a client sends to register: the address to log in with and the
/// secret to check at login.
#[derive(Debug, Clone, PartialEq, Eq)]
pub struct RegisterUser {
    pub email: String,
    pub password: String,
}

/// What a client sends to change a user: each field that is present
/// replaces the stored one.
#[derive(Debug, Clone, PartialEq, Eq)]
pub struct UpdateUser {
    pub email: Option<String>,
    pub password: Option<String>,
    pub is_vip: Option<bool>,
    pub vip_start_time: Option<PrimitiveDateTime>,
    pub vip_end_time: Option<PrimitiveDateTime>,
    pub vip_level: Option<i32>,
}

} // verus!
