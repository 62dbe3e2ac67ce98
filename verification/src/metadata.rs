//! The capture date of an image, read from its embedded Exif metadata.
//!
//! A file without metadata, or without a date in it, is an ordinary file
//! without a date. A file whose metadata holds a date that cannot be read
//! as one is refused.

use chrono::{Datelike, Timelike};
use vstd::prelude::*;
use vstd::utf8::{decode_utf8, valid_utf8};
use crate::error::ProcessError;

verus! {

/// A date and time of day without a time zone, as a calendar writes it.
/// `nanosecond` is below a thousand million but in a leap second, which
/// stands as second 59 with a thousand million more.
#[derive(Debug, Clone, Copy, PartialEq, Eq, Structural)]
pub struct CaptureTimestamp {
    pub year: i32,
    pub month: u32,
    pub day: u32,
    pub hour: u32,
    pub minute: u32,
    pub second: u32,
    pub nanosecond: u32,
}

/// What a file holds under the date-time tag of its primary image.
#[derive(Debug, Clone, PartialEq, Eq)]
pub enum DateField {
    /// The file is no container in which metadata is found.
    Unreadable,
    /// The metadata holds no such field.
    Absent,
    /// The field holds something other than text.
    NotText,
    /// The field holds these byte strings.
    Text(Vec<Vec<u8>>),
}

/// The mathematical value of a `DateField`.
pub enum DateFieldView {
    Unreadable,
    Absent,
    NotText,
    Text(Seq<Seq<u8>>),
}

impl View for DateField {
    type V = DateFieldView;

    open spec fn view(&self) -> DateFieldView {
        match self {
            DateField::Unreadable => DateFieldView::Unreadable,
            DateField::Absent => DateFieldView::Absent,
            DateField::NotText => DateFieldView::NotText,
            DateField::Text(texts) => DateFieldView::Text(
                Seq::new(texts@.len(), |i: int| texts@[i]@),
            ),
        }
    }
}

/// The pattern in which a capture date is written: year, month and day with
/// colons between them, a space, and the time of day.
pub open spec fn date_time_pattern() -> Seq<char> {
    "%Y:%m:%d %H:%M:%S"@
}

/// What the `exif` crate finds in `data` under the date-time tag of the
/// primary image.
pub uninterp spec fn embedded_date_field(data: Seq<u8>) -> DateFieldView;

/// The date and time that `chrono` reads from `text` by `pattern`, if it
/// reads one.
pub uninterp spec fn parsed_date_time(text: Seq<char>, pattern: Seq<char>) -> Option<
    CaptureTimestamp,
>;

/// The byte string that a date is read from: the first one of a text field.
pub open spec fn first_text(field: DateFieldView) -> Option<Seq<u8>> {
    match field {
        DateFieldView::Text(texts) => if texts.len() > 0 {
            Some(texts[0])
        } else {
            None
        },
        _ => None,
    }
}

/// What reading a date from `text` by the capture pattern comes to: the
/// date, or a refusal.
pub open spec fn date_of_parse(parsed: Option<CaptureTimestamp>) -> Result<
    Option<CaptureTimestamp>,
    ProcessError,
> {
    match parsed {
        Some(stamp) => Ok(Some(stamp)),
        None => Err(ProcessError::MalformedDate),
    }
}

/// The capture date that a field stands for. No text means no date. Text
/// that is not UTF-8, or that is no date in the capture pattern, is refused.
pub open spec fn capture_date_of(field: DateFieldView) -> Result<
    Option<CaptureTimestamp>,
    ProcessError,
> {
    match first_text(field) {
        None => Ok(None),
        Some(bytes) => if valid_utf8(bytes) {
            date_of_parse(parsed_date_time(decode_utf8(bytes), date_time_pattern()))
        } else {
            Err(ProcessError::MalformedDate)
        },
    }
}

/// Calls `exif::Reader::read_from_container` on `data` and, where that
/// succeeds, `Exif::get_field` for `Tag::DateTime` in `In::PRIMARY`. Both
/// depend on the bytes alone. The result tells a failed read, a missing
/// field, a value of another type and an ASCII value apart, and carries the
/// ASCII value's strings as they are.
#[verifier::external_body]
fn read_date_field(data: &[u8]) -> (field: DateField)
    ensures
        field@ == embedded_date_field(data@),
{
    let mut cursor = std::io::Cursor::new(data);
    match exif::Reader::new().read_from_container(&mut cursor) {
        Err(_) => DateField::Unreadable,
        Ok(meta) => match meta.get_field(exif::Tag::DateTime, exif::In::PRIMARY) {
            None => DateField::Absent,
            Some(field) => match field.value {
                exif::Value::Ascii(ref texts) => DateField::Text(texts.clone()),
                _ => DateField::NotText,
            },
        },
    }
}

/// Calls `std::str::from_utf8`, which accepts exactly the byte strings that
/// are valid UTF-8 and returns the text that they encode.
#[verifier::external_body]
fn utf8_text(bytes: &[u8]) -> (text: Option<&str>)
    ensures
        text is Some <==> valid_utf8(bytes@),
        text matches Some(s) ==> s@ == decode_utf8(bytes@),
{
    std::str::from_utf8(bytes).ok()
}

/// Calls `chrono::NaiveDateTime::parse_from_str` and, where it succeeds,
/// reads the calendar fields off the result. Whether it succeeds and what
/// it returns depend on the text and the pattern alone.
#[verifier::external_body]
fn parse_date_time(text: &str, pattern: &str) -> (parsed: Option<CaptureTimestamp>)
    ensures
        parsed == parsed_date_time(text@, pattern@),
{
    let moment = chrono::NaiveDateTime::parse_from_str(text, pattern).ok()?;
    Some(
        CaptureTimestamp {
            year: moment.year(),
            month: moment.month(),
            day: moment.day(),
            hour: moment.hour(),
            minute: moment.minute(),
            second: moment.second(),
            nanosecond: moment.nanosecond(),
        },
    )
}

/// The text of a field's first byte string, where it has one. Bytes that
/// are not UTF-8 are refused.
pub fn date_text(field: &DateField) -> (text: Result<Option<&str>, ProcessError>)
    ensures
        match first_text(field@) {
            None => text == Ok::<Option<&str>, ProcessError>(None),
            Some(bytes) => if valid_utf8(bytes) {
                text matches Ok(Some(s)) && s@ == decode_utf8(bytes)
            } else {
                text == Err::<Option<&str>, ProcessError>(ProcessError::MalformedDate)
            },
        },
{
    match field {
        DateField::Text(texts) => {
            if texts.len() == 0 {
                Ok(None)
            } else {
                match utf8_text(texts[0].as_slice()) {
                    Some(s) => Ok(Some(s)),
                    None => Err(ProcessError::MalformedDate),
                }
            }
        },
        _ => Ok(None),
    }
}

/// Takes what reading the date's text gave: a date is kept, and text that
/// gave none is refused, since a date that is present and unreadable is
/// not the same as no date.
pub fn accept_parsed(parsed: Option<CaptureTimestamp>) -> (date: Result<
    Option<CaptureTimestamp>,
    ProcessError,
>)
    ensures
        date == date_of_parse(parsed),
{
    match parsed {
        Some(stamp) => Ok(Some(stamp)),
        None => Err(ProcessError::MalformedDate),
    }
}

/// The capture date that a field stands for.
pub fn get_date_time(field: &DateField) -> (date: Result<Option<CaptureTimestamp>, ProcessError>)
    ensures
        date == capture_date_of(field@),
{
    match date_text(field) {
        Err(e) => Err(e),
        Ok(None) => Ok(None),
        Ok(Some(text)) => accept_parsed(parse_date_time(text, "%Y:%m:%d %H:%M:%S")),
    }
}

/// The capture date embedded in a file's bytes: none where the file holds
/// no metadata or no date, a refusal where it holds a date that cannot be
/// read.
pub fn capture_date(data: &[u8]) -> (date: Result<Option<CaptureTimestamp>, ProcessError>)
    ensures
        date == capture_date_of(embedded_date_field(data@)),
{
    let field = read_date_field(data);
    get_date_time(&field)
}

} // verus!
