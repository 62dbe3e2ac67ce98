use std::collections::HashMap;

use rydde::context::{FileOutcome, Placement, ProcessResult};
use rydde::destination::{Destination, Templates};
use rydde::error::ProcessError;
use rydde::metadata::CaptureTimestamp;
use rydde::process::{plan_file, plan_with, Plan};

fn default_templates() -> Templates {
    Templates { folder: String::from("%Y/%B/"), name: String::from("%Y%m%d%H%M%S") }
}

fn tiff_with_date(text: &[u8]) -> Vec<u8> {
    let mut bytes: Vec<u8> = Vec::new();
    bytes.extend_from_slice(b"II");
    bytes.extend_from_slice(&42u16.to_le_bytes());
    bytes.extend_from_slice(&8u32.to_le_bytes());
    bytes.extend_from_slice(&1u16.to_le_bytes());
    bytes.extend_from_slice(&0x0132u16.to_le_bytes());
    bytes.extend_from_slice(&2u16.to_le_bytes());
    bytes.extend_from_slice(&(text.len() as u32 + 1).to_le_bytes());
    bytes.extend_from_slice(&26u32.to_le_bytes());
    bytes.extend_from_slice(&0u32.to_le_bytes());
    bytes.extend_from_slice(text);
    bytes.push(0);
    bytes
}

fn run_over(
    tree: &mut HashMap<Destination, Vec<u8>>,
    files: &[(&str, Vec<u8>)],
    templates: &Templates,
) -> ProcessResult {
    let mut result = ProcessResult::new();
    for (extension, content) in files.iter() {
        let plan = plan_file(content, Some(*extension), templates).unwrap();
        let outcome = plan.outcome(tree.contains_key(&plan.destination));
        if outcome.placement == Placement::Copied {
            tree.insert(plan.destination.clone(), content.clone());
        }
        result.record(outcome);
    }
    result
}

#[test]
fn file_with_a_date_is_planned_by_it() {
    let bytes = tiff_with_date(b"2021:06:15 14:30:00");
    let plan = plan_file(&bytes, Some("tiff"), &default_templates()).unwrap();
    assert!(plan.dated);
    assert_eq!(plan.destination.directory, "2021/June/");
    assert_eq!(plan.destination.file_name, "20210615143000-f777fe3df0da150b2e37.tiff");
}

#[test]
fn file_without_a_date_is_planned_into_unknown() {
    let plan = plan_file(b"not an image", Some("jpg"), &default_templates()).unwrap();
    assert!(!plan.dated);
    assert_eq!(plan.destination.directory, "unknown");
    assert_eq!(plan.destination.file_name, "af2a708e8178f4d8bdd3.jpg");
    let mut result = ProcessResult::new();
    result.record(plan.outcome(false));
    assert_eq!(result.unknown, 1);
    assert_eq!(result.copied, 1);
    assert_eq!(result.exist, 0);
}

#[test]
fn file_with_a_malformed_date_ends_in_an_error() {
    let bytes = tiff_with_date(b"not a date at all!!");
    assert_eq!(plan_file(&bytes, Some("tiff"), &default_templates()), Err(ProcessError::MalformedDate));
    assert_eq!(plan_file(&bytes, None, &default_templates()), Err(ProcessError::MalformedDate));
}

#[test]
fn file_without_extension_ends_in_an_error() {
    assert_eq!(plan_file(b"not an image", None, &default_templates()), Err(ProcessError::MissingExtension));
}

#[test]
fn plan_with_marks_whether_a_date_was_there() {
    let date = CaptureTimestamp { year: 2021, month: 6, day: 15, hour: 14, minute: 30, second: 0, nanosecond: 0 };
    let dated = plan_with(Some(date), "00ff", Some("jpg"), &default_templates()).unwrap();
    assert_eq!(
        dated,
        Plan {
            destination: Destination {
                directory: String::from("2021/June/"),
                file_name: String::from("20210615143000-00ff.jpg"),
            },
            dated: true,
        }
    );
    let undated = plan_with(None, "00ff", Some("jpg"), &default_templates()).unwrap();
    assert_eq!(
        undated,
        Plan {
            destination: Destination { directory: String::from("unknown"), file_name: String::from("00ff.jpg") },
            dated: false,
        }
    );
}

#[test]
fn outcome_follows_what_stands_at_the_destination() {
    let plan = plan_with(None, "00ff", Some("jpg"), &default_templates()).unwrap();
    assert_eq!(plan.outcome(false), FileOutcome { dated: false, placement: Placement::Copied });
    assert_eq!(plan.outcome(true), FileOutcome { dated: false, placement: Placement::AlreadyExists });
}

#[test]
fn second_run_copies_nothing() {
    let files = vec![
        ("tiff", tiff_with_date(b"2021:06:15 14:30:00")),
        ("jpg", b"not an image".to_vec()),
        ("png", b"neither is this".to_vec()),
        ("tiff", tiff_with_date(b"2020:01:01 00:00:00")),
    ];
    let mut tree: HashMap<Destination, Vec<u8>> = HashMap::new();
    let first = run_over(&mut tree, &files, &default_templates());
    assert_eq!(first, ProcessResult { copied: 4, exist: 0, unknown: 2 });
    let after_first = tree.clone();
    let second = run_over(&mut tree, &files, &default_templates());
    assert_eq!(second, ProcessResult { copied: 0, exist: 4, unknown: 2 });
    assert_eq!(tree, after_first);
}

#[test]
fn same_content_is_placed_once() {
    let content = tiff_with_date(b"2021:06:15 14:30:00");
    let files = vec![("tiff", content.clone()), ("tiff", content.clone())];
    let mut tree: HashMap<Destination, Vec<u8>> = HashMap::new();
    let result = run_over(&mut tree, &files, &default_templates());
    assert_eq!(result, ProcessResult { copied: 1, exist: 1, unknown: 0 });
    assert_eq!(tree.len(), 1);
}

#[test]
fn same_content_under_another_extension_is_placed_apart() {
    let content = b"not an image".to_vec();
    let files = vec![("jpg", content.clone()), ("jpeg", content.clone())];
    let mut tree: HashMap<Destination, Vec<u8>> = HashMap::new();
    let result = run_over(&mut tree, &files, &default_templates());
    assert_eq!(result, ProcessResult { copied: 2, exist: 0, unknown: 2 });
    assert_eq!(tree.len(), 2);
}

#[test]
fn files_that_share_a_plan_are_written_once() {
    let date = CaptureTimestamp { year: 2021, month: 6, day: 15, hour: 14, minute: 30, second: 0, nanosecond: 0 };
    let first = plan_with(Some(date), "00ff", Some("jpg"), &default_templates()).unwrap();
    let second = plan_with(Some(date), "00ff", Some("jpg"), &default_templates()).unwrap();
    assert_eq!(first.destination, second.destination);
    let mut tree: HashMap<Destination, Vec<u8>> = HashMap::new();
    let mut result = ProcessResult::new();
    let outcome = first.outcome(tree.contains_key(&first.destination));
    assert_eq!(outcome.placement, Placement::Copied);
    tree.insert(first.destination.clone(), b"first".to_vec());
    result.record(outcome);
    let outcome = second.outcome(tree.contains_key(&second.destination));
    assert_eq!(outcome.placement, Placement::AlreadyExists);
    result.record(outcome);
    assert_eq!(result, ProcessResult { copied: 1, exist: 1, unknown: 0 });
    assert_eq!(tree.get(&first.destination), Some(&b"first".to_vec()));
}

#[test]
fn plan_goes_by_content_and_extension_alone() {
    let content = tiff_with_date(b"2021:06:15 14:30:00");
    let copy = content.clone();
    let first = plan_file(&content, Some("tiff"), &default_templates());
    let second = plan_file(&copy, Some("tiff"), &default_templates());
    assert_eq!(first, second);
}
