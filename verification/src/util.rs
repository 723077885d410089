//! Parameters in reference strings, timestamps, and the clock.

use crate::error::{Error, ErrorKind, ErrorView};
use crate::text::{after_first, before_first, chars_of, find_within, remove_all, without};
use chrono::NaiveDateTime;
use std::time::UNIX_EPOCH;
use vstd::prelude::*;
use vstd::string::{StrSliceExecFns, StringExecFns};

verus! {

/// What introduces the value of the parameter `key`: the key and `=`.
pub open spec fn param_pattern(key: Seq<char>) -> Seq<char> {
    key.push('=')
}

/// The value of the parameter `key` in `url`: what stands behind the first
/// `key=`, up to the next `key=`, the next `&` or the end, whichever comes
/// first. `None` where `url` holds no `key=`.
pub open spec fn param_value(url: Seq<char>, key: Seq<char>) -> Option<Seq<char>> {
    match after_first(url, param_pattern(key)) {
        Some(rest) => Some(before_first(before_first(rest, param_pattern(key)), seq!['&'])),
        None => None,
    }
}

/// The failure to find the parameter `key` in `url`.
pub open spec fn param_missing(key: Seq<char>, url: Seq<char>) -> ErrorView {
    ErrorView {
        kind: ErrorKind::ParamExtraction,
        message: "could not get param "@ + key + " in "@ + url,
    }
}

/// The value of the parameter `key` in `url`, or the failure to find it.
pub open spec fn param_of(url: Seq<char>, key: Seq<char>) -> Result<Seq<char>, ErrorView> {
    match param_value(url, key) {
        Some(value) => Ok(value),
        None => Err(param_missing(key, url)),
    }
}

/// The value of the parameter `key` in the reference string `url`.
pub fn get_param(url: &str, key: &str) -> (value: Result<String, Error>)
    ensures
        match param_of(url@, key@) {
            Ok(found) => value matches Ok(text) && text@ == found,
            Err(failure) => value matches Err(error) && error@ == failure,
        },
{
    let text = chars_of(url);
    let mut pattern = chars_of(key);
    pattern.push('=');
    let mut ampersand: Vec<char> = Vec::new();
    ampersand.push('&');
    assert(ampersand@ =~= seq!['&']);
    assert(text@.subrange(0, text.len() as int) =~= url@);
    match find_within(&text, 0, text.len(), &pattern) {
        None => {
            let mut message = String::from_str("could not get param ");
            message.append(key);
            message.append(" in ");
            message.append(url);
            Err(Error::new(ErrorKind::ParamExtraction, message))
        },
        Some(at) => {
            let start = at + pattern.len();
            let ghost rest = url@.subrange(start as int, url@.len() as int);
            let until = match find_within(&text, start, text.len(), &pattern) {
                Some(next) => start + next,
                None => text.len(),
            };
            let ghost segment = before_first(rest, pattern@);
            assert(segment =~= url@.subrange(start as int, until as int));
            let end = match find_within(&text, start, until, &ampersand) {
                Some(next) => start + next,
                None => until,
            };
            assert(before_first(segment, ampersand@) =~= url@.subrange(start as int, end as int));
            Ok(String::from_str(url.substring_char(start, end)))
        },
    }
}

/// The seconds from 1970-01-01T00:00:00 to the date and time that `text`
/// gives in the form `%Y-%m-%dT%H:%M:%S%.f`, leap seconds not counted;
/// `None` where `text` is not of that form or names no date and time.
pub uninterp spec fn datetime_seconds(text: Seq<char>) -> Option<i64>;

/// `NaiveDateTime::from_str` of `chrono`, and the timestamp of what it read:
/// a function of the text alone.
#[verifier::external_body]
fn parse_datetime_seconds(text: &str) -> (seconds: Option<i64>)
    ensures
        seconds == datetime_seconds(text@),
{
    match text.parse::<NaiveDateTime>() {
        Ok(moment) => Some(moment.and_utc().timestamp()),
        Err(_) => None,
    }
}

/// `SystemTime::elapsed` on `UNIX_EPOCH`, in whole seconds: `None` where the
/// clock reads earlier than the epoch. Nothing is known of the number.
#[verifier::external_body]
fn epoch_elapsed_seconds() -> (elapsed: Option<u64>) {
    match UNIX_EPOCH.elapsed() {
        Ok(duration) => Some(duration.as_secs()),
        Err(_) => None,
    }
}

/// `rand::random` for `u64`: a number of which nothing is known.
#[verifier::external_body]
pub(crate) fn random_u64() -> (number: u64) {
    rand::random::<u64>()
}

/// The fraction that timestamps from the remote side end in.
pub open spec fn millis_suffix() -> Seq<char> {
    ".000Z"@
}

/// The timestamp that `text` stands for: its date and time with every
/// `.000Z` taken out, in seconds since the epoch.
pub open spec fn iso_seconds(text: Seq<char>) -> Option<i64> {
    datetime_seconds(without(text, millis_suffix()))
}

/// The failure to read `text` as a date and time.
pub open spec fn bad_timestamp(text: Seq<char>) -> ErrorView {
    ErrorView { kind: ErrorKind::RemoteProtocol, message: "invalid timestamp: "@ + text }
}

/// The timestamp `read` that was read from `text`, or the failure to read
/// one.
pub fn timestamp_or_failure(text: &str, read: Option<i64>) -> (seconds: Result<i64, Error>)
    ensures
        match read {
            Some(at) => seconds == Ok::<i64, Error>(at),
            None => seconds matches Err(error) && error@ == bad_timestamp(text@),
        },
{
    match read {
        Some(at) => Ok(at),
        None => {
            let mut message = String::from_str("invalid timestamp: ");
            message.append(text);
            Err(Error::new(ErrorKind::RemoteProtocol, message))
        },
    }
}

/// Reads a timestamp of the remote side, such as
/// `2023-05-01T12:34:56.000Z`, as seconds since the epoch.
pub fn iso(text: &str) -> (seconds: Result<i64, Error>)
    ensures
        match iso_seconds(text@) {
            Some(at) => seconds == Ok::<i64, Error>(at),
            None => seconds matches Err(error) && error@ == bad_timestamp(text@),
        },
{
    let bare = remove_all(text, ".000Z");
    timestamp_or_failure(text, parse_datetime_seconds(bare.as_str()))
}

/// The timestamp of a moment `elapsed` seconds after the epoch, where the
/// clock gave one and it fits.
pub open spec fn timestamp_of(elapsed: Option<u64>) -> Option<i64> {
    match elapsed {
        Some(seconds) if seconds <= i64::MAX => Some(seconds as i64),
        _ => None,
    }
}

/// The timestamp of a clock reading.
pub fn timestamp_from_elapsed(elapsed: Option<u64>) -> (at: Option<i64>)
    ensures
        at == timestamp_of(elapsed),
{
    match elapsed {
        Some(seconds) => if seconds <= 0x7fff_ffff_ffff_ffff {
            Some(seconds as i64)
        } else {
            None
        },
        None => None,
    }
}

/// The current time in seconds since the epoch; `None` where the system
/// clock gives none that a timestamp can hold.
pub fn now() -> (at: Option<i64>)
    ensures
        at matches Some(seconds) ==> seconds >= 0,
{
    timestamp_from_elapsed(epoch_elapsed_seconds())
}

} // verus!
