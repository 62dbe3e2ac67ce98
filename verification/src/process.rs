//! The pipeline of one file: from its bytes to its place, and from what
//! stands at that place to what is done and counted.

use vstd::prelude::*;
use crate::context::{FileOutcome, Placement};
use vstd::utf8::{decode_utf8, valid_utf8};
use crate::destination::{
    destination_of, option_text, rendered, resolve_destination, Destination, DestinationView,
    Templates,
};
use crate::digest::{content_digest, digest_text, DIGEST_BYTES};
use crate::error::ProcessError;
use crate::metadata::{
    capture_date, capture_date_of, date_time_pattern, embedded_date_field, first_text,
    parsed_date_time, CaptureTimestamp,
};

verus! {

/// What is settled about a file before the destination tree is looked at:
/// its place, and whether a capture date put it there.
#[derive(Debug, Clone, PartialEq, Eq)]
pub struct Plan {
    pub destination: Destination,
    pub dated: bool,
}

/// The mathematical value of a `Plan`.
pub struct PlanView {
    pub destination: DestinationView,
    pub dated: bool,
}

impl View for Plan {
    type V = PlanView;

    open spec fn view(&self) -> PlanView {
        PlanView { destination: self.destination@, dated: self.dated }
    }
}

/// The plan for a file with this capture date and digest.
pub open spec fn plan_from(
    date: Option<CaptureTimestamp>,
    digest: Seq<char>,
    extension: Option<Seq<char>>,
    folder_template: Seq<char>,
    name_template: Seq<char>,
) -> Result<PlanView, ProcessError> {
    match destination_of(date, digest, extension, folder_template, name_template) {
        Ok(destination) => Ok(PlanView { destination, dated: date is Some }),
        Err(e) => Err(e),
    }
}

/// The plan for a file with these bytes and this extension. The file's own
/// path and name have no part in it.
pub open spec fn plan_of(
    data: Seq<u8>,
    extension: Option<Seq<char>>,
    folder_template: Seq<char>,
    name_template: Seq<char>,
) -> Result<PlanView, ProcessError> {
    match capture_date_of(embedded_date_field(data)) {
        Ok(date) => plan_from(
            date,
            digest_text(data, DIGEST_BYTES as nat),
            extension,
            folder_template,
            name_template,
        ),
        Err(e) => Err(e),
    }
}

/// The plan for a file whose capture date and digest are known.
pub fn plan_with(
    date: Option<CaptureTimestamp>,
    digest: &str,
    extension: Option<&str>,
    templates: &Templates,
) -> (plan: Result<Plan, ProcessError>)
    ensures
        match plan_from(date, digest@, option_text(extension), templates.folder@, templates.name@) {
            Ok(view) => plan matches Ok(p) && p@ == view,
            Err(e) => plan matches Err(f) && f == e,
        },
{
    match resolve_destination(date, digest, extension, templates) {
        Ok(destination) => Ok(Plan { destination, dated: date.is_some() }),
        Err(e) => Err(e),
    }
}

/// Takes a loaded file through hashing, date extraction and path
/// resolution, in this order. The first step that fails ends it.
pub fn plan_file(data: &[u8], extension: Option<&str>, templates: &Templates) -> (plan: Result<
    Plan,
    ProcessError,
>)
    ensures
        match plan_of(data@, option_text(extension), templates.folder@, templates.name@) {
            Ok(view) => plan matches Ok(p) && p@ == view,
            Err(e) => plan matches Err(f) && f == e,
        },
{
    let digest = match content_digest(data, DIGEST_BYTES) {
        Ok(digest) => digest,
        Err(e) => { return Err(e); },
    };
    let date = match capture_date(data) {
        Ok(date) => date,
        Err(e) => { return Err(e); },
    };
    plan_with(date, digest.as_str(), extension, templates)
}

impl Plan {
    /// How the file ends, given whether a file already stands at its
    /// destination: it is copied exactly where none does.
    pub fn outcome(&self, exists: bool) -> (outcome: FileOutcome)
        ensures
            outcome.dated == self.dated,
            outcome.placement == Placement::of(exists),
    {
        FileOutcome { dated: self.dated, placement: Placement::decide(exists) }
    }
}

/// A file with a capture date goes where the templates put the date: into
/// the directory that the folder template wrote, under what the name
/// template wrote, a hyphen, the digest, a dot and the extension.
pub proof fn lemma_dated_file_goes_by_its_date(
    data: Seq<u8>,
    extension: Seq<char>,
    folder_template: Seq<char>,
    name_template: Seq<char>,
    stamp: CaptureTimestamp,
    folder: Seq<char>,
    text: Seq<char>,
)
    requires
        capture_date_of(embedded_date_field(data)) == Ok::<
            Option<CaptureTimestamp>,
            ProcessError,
        >(Some(stamp)),
        rendered(stamp, folder_template) == Some(folder),
        rendered(stamp, name_template) == Some(text),
    ensures
        plan_of(data, Some(extension), folder_template, name_template) == Ok::<
            PlanView,
            ProcessError,
        >(
            PlanView {
                destination: DestinationView {
                    directory: folder,
                    file_name: text + seq!['-'] + digest_text(data, DIGEST_BYTES as nat)
                        + seq!['.'] + extension,
                },
                dated: true,
            },
        ),
{
}

/// A file without a capture date goes to the directory of such files,
/// under its digest, a dot and its extension, whatever the templates are,
/// and is marked as undated.
pub proof fn lemma_undated_file_goes_to_unknown(
    data: Seq<u8>,
    extension: Seq<char>,
    folder_template: Seq<char>,
    name_template: Seq<char>,
)
    requires
        capture_date_of(embedded_date_field(data)) == Ok::<
            Option<CaptureTimestamp>,
            ProcessError,
        >(None),
    ensures
        plan_of(data, Some(extension), folder_template, name_template) == Ok::<
            PlanView,
            ProcessError,
        >(
            PlanView {
                destination: DestinationView {
                    directory: "unknown"@,
                    file_name: digest_text(data, DIGEST_BYTES as nat) + seq!['.'] + extension,
                },
                dated: false,
            },
        ),
{
}

/// A file whose metadata holds date text that is no date in the capture
/// pattern has no plan: it is an error, and the file is not taken for one
/// without a date.
pub proof fn lemma_malformed_date_is_an_error(
    data: Seq<u8>,
    extension: Option<Seq<char>>,
    folder_template: Seq<char>,
    name_template: Seq<char>,
)
    requires
        first_text(embedded_date_field(data)) matches Some(bytes) && (!valid_utf8(bytes)
            || parsed_date_time(decode_utf8(bytes), date_time_pattern()) is None),
    ensures
        plan_of(data, extension, folder_template, name_template) == Err::<
            PlanView,
            ProcessError,
        >(ProcessError::MalformedDate),
{
}

} // verus!
