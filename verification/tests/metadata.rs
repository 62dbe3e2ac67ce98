use rydde::error::ProcessError;
use rydde::metadata::{accept_parsed, capture_date, date_text, get_date_time, CaptureTimestamp, DateField};

fn tiff_with_field(tag: u16, kind: u16, count: u32, data: &[u8]) -> Vec<u8> {
    let mut bytes: Vec<u8> = Vec::new();
    bytes.extend_from_slice(b"II");
    bytes.extend_from_slice(&42u16.to_le_bytes());
    bytes.extend_from_slice(&8u32.to_le_bytes());
    bytes.extend_from_slice(&1u16.to_le_bytes());
    bytes.extend_from_slice(&tag.to_le_bytes());
    bytes.extend_from_slice(&kind.to_le_bytes());
    bytes.extend_from_slice(&count.to_le_bytes());
    bytes.extend_from_slice(&26u32.to_le_bytes());
    bytes.extend_from_slice(&0u32.to_le_bytes());
    bytes.extend_from_slice(data);
    bytes
}

fn tiff_with_date(text: &[u8]) -> Vec<u8> {
    let mut data = text.to_vec();
    data.push(0);
    tiff_with_field(0x0132, 2, data.len() as u32, &data)
}

fn stamp(year: i32, month: u32, day: u32, hour: u32, minute: u32, second: u32) -> CaptureTimestamp {
    CaptureTimestamp { year, month, day, hour, minute, second, nanosecond: 0 }
}

#[test]
fn date_is_read_from_tiff_metadata() {
    let bytes = tiff_with_date(b"2021:06:15 14:30:00");
    assert_eq!(capture_date(&bytes), Ok(Some(stamp(2021, 6, 15, 14, 30, 0))));
}

#[test]
fn bytes_that_are_no_image_have_no_date() {
    assert_eq!(capture_date(b"not an image"), Ok(None));
    assert_eq!(capture_date(b""), Ok(None));
}

#[test]
fn metadata_without_the_date_field_has_no_date() {
    let mut data = b"a camera".to_vec();
    data.push(0);
    let bytes = tiff_with_field(0x010f, 2, data.len() as u32, &data);
    assert_eq!(capture_date(&bytes), Ok(None));
}

#[test]
fn date_field_of_another_type_has_no_date() {
    let bytes = tiff_with_field(0x0132, 1, 20, b"2021:06:15 14:30:00\0");
    assert_eq!(capture_date(&bytes), Ok(None));
}

#[test]
fn malformed_date_is_refused() {
    let bytes = tiff_with_date(b"not a date at all!!");
    assert_eq!(capture_date(&bytes), Err(ProcessError::MalformedDate));
}

#[test]
fn date_that_is_not_on_the_calendar_is_refused() {
    assert_eq!(capture_date(&tiff_with_date(b"2021:02:30 10:00:00")), Err(ProcessError::MalformedDate));
    assert_eq!(capture_date(&tiff_with_date(b"2021:13:01 10:00:00")), Err(ProcessError::MalformedDate));
    assert_eq!(capture_date(&tiff_with_date(b"2021:06:15 24:00:00")), Err(ProcessError::MalformedDate));
    assert_eq!(capture_date(&tiff_with_date(b"2021:06:15 14:30")), Err(ProcessError::MalformedDate));
    assert_eq!(capture_date(&tiff_with_date(b"2021-06-15 14:30:00")), Err(ProcessError::MalformedDate));
}

#[test]
fn field_without_strings_has_no_date() {
    assert_eq!(get_date_time(&DateField::Text(Vec::new())), Ok(None));
    assert_eq!(get_date_time(&DateField::Unreadable), Ok(None));
    assert_eq!(get_date_time(&DateField::Absent), Ok(None));
    assert_eq!(get_date_time(&DateField::NotText), Ok(None));
}

#[test]
fn only_the_first_string_counts() {
    let field = DateField::Text(vec![b"2019:12:31 23:59:59".to_vec(), b"rubbish".to_vec()]);
    assert_eq!(get_date_time(&field), Ok(Some(stamp(2019, 12, 31, 23, 59, 59))));
    let field = DateField::Text(vec![b"rubbish".to_vec(), b"2019:12:31 23:59:59".to_vec()]);
    assert_eq!(get_date_time(&field), Err(ProcessError::MalformedDate));
}

#[test]
fn empty_string_is_a_malformed_date() {
    assert_eq!(get_date_time(&DateField::Text(vec![Vec::new()])), Err(ProcessError::MalformedDate));
}

#[test]
fn bytes_that_are_not_utf8_are_refused() {
    let field = DateField::Text(vec![vec![0xff, 0xfe, 0x32]]);
    assert_eq!(date_text(&field), Err(ProcessError::MalformedDate));
    assert_eq!(get_date_time(&field), Err(ProcessError::MalformedDate));
}

#[test]
fn date_text_is_the_first_string() {
    let field = DateField::Text(vec![b"first".to_vec(), b"second".to_vec()]);
    assert_eq!(date_text(&field), Ok(Some("first")));
    assert_eq!(date_text(&DateField::Text(Vec::new())), Ok(None));
    assert_eq!(date_text(&DateField::Absent), Ok(None));
    assert_eq!(date_text(&DateField::NotText), Ok(None));
    assert_eq!(date_text(&DateField::Unreadable), Ok(None));
    let field = DateField::Text(vec!["caf\u{e9}".as_bytes().to_vec()]);
    assert_eq!(date_text(&field), Ok(Some("caf\u{e9}")));
}

#[test]
fn leap_second_is_kept() {
    let field = DateField::Text(vec![b"2016:12:31 23:59:60".to_vec()]);
    assert_eq!(
        get_date_time(&field),
        Ok(Some(CaptureTimestamp {
            year: 2016,
            month: 12,
            day: 31,
            hour: 23,
            minute: 59,
            second: 59,
            nanosecond: 1_000_000_000,
        }))
    );
}

#[test]
fn accept_parsed_keeps_a_date_and_refuses_none() {
    let date = stamp(2021, 6, 15, 14, 30, 0);
    assert_eq!(accept_parsed(Some(date)), Ok(Some(date)));
    assert_eq!(accept_parsed(None), Err(ProcessError::MalformedDate));
}
