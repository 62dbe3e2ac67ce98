//! Where a file goes: a directory named after its capture date and a file
//! name made of the date and the content digest.

use std::fmt::Write;
use vstd::prelude::*;
use vstd::string::StringExecFns;
use crate::error::ProcessError;
use crate::metadata::CaptureTimestamp;

verus! {

/// The two date patterns of a run: one names the directory, one begins the
/// file name.
#[derive(Debug, Clone, PartialEq, Eq)]
pub struct Templates {
    pub folder: String,
    pub name: String,
}

/// A place below the destination root: a directory, relative to the root,
/// and the name of the file in it.
#[derive(Debug, Clone, PartialEq, Eq, Hash)]
pub struct Destination {
    pub directory: String,
    pub file_name: String,
}

/// The mathematical value of a `Destination`.
pub struct DestinationView {
    pub directory: Seq<char>,
    pub file_name: Seq<char>,
}

impl View for Destination {
    type V = DestinationView;

    open spec fn view(&self) -> DestinationView {
        DestinationView { directory: self.directory@, file_name: self.file_name@ }
    }
}

/// The text that `chrono` writes for `stamp` by `template`, if it can write
/// one.
pub uninterp spec fn rendered(stamp: CaptureTimestamp, template: Seq<char>) -> Option<Seq<char>>;

/// The directory of the files without a capture date.
pub open spec fn unknown_directory() -> Seq<char> {
    "unknown"@
}

/// A base name with the source file's extension behind it.
pub open spec fn with_extension(base: Seq<char>, extension: Seq<char>) -> Seq<char> {
    base + seq!['.'] + extension
}

/// The place of a file without a capture date: the directory of such files,
/// under the digest alone.
pub open spec fn unknown_destination(digest: Seq<char>, extension: Seq<char>) -> DestinationView {
    DestinationView {
        directory: unknown_directory(),
        file_name: with_extension(digest, extension),
    }
}

/// The place of a file with a capture date: the directory that the date
/// gave, under the date's own text, a hyphen and the digest.
pub open spec fn dated_destination(
    folder: Seq<char>,
    stamp: Seq<char>,
    digest: Seq<char>,
    extension: Seq<char>,
) -> DestinationView {
    DestinationView {
        directory: folder,
        file_name: with_extension(stamp + seq!['-'] + digest, extension),
    }
}

/// The place of a file with this capture date, digest and extension. It is
/// a function of these and of the templates, and of nothing else. With a
/// date, both templates must have text for it; in either case the file
/// must have an extension.
pub open spec fn destination_of(
    date: Option<CaptureTimestamp>,
    digest: Seq<char>,
    extension: Option<Seq<char>>,
    folder_template: Seq<char>,
    name_template: Seq<char>,
) -> Result<DestinationView, ProcessError> {
    match date {
        Some(stamp) => match (rendered(stamp, folder_template), rendered(stamp, name_template)) {
            (Some(folder), Some(text)) => match extension {
                Some(ext) => Ok(dated_destination(folder, text, digest, ext)),
                None => Err(ProcessError::MissingExtension),
            },
            _ => Err(ProcessError::Template),
        },
        None => match extension {
            Some(ext) => Ok(unknown_destination(digest, ext)),
            None => Err(ProcessError::MissingExtension),
        },
    }
}

/// The mathematical value of an optional text.
pub open spec fn option_text(text: Option<&str>) -> Option<Seq<char>> {
    match text {
        Some(s) => Some(s@),
        None => None,
    }
}

/// Builds a `chrono::NaiveDateTime` from the fields of `stamp` and writes
/// what its `format` gives for `template` into a string. There is no text
/// where the fields are no date and time of the calendar, or where `format`
/// reports an error, as it does for a template that it cannot render. The
/// text depends on the fields and the template alone.
#[verifier::external_body]
fn render(stamp: &CaptureTimestamp, template: &str) -> (text: Option<String>)
    ensures
        text is Some <==> rendered(*stamp, template@) is Some,
        text matches Some(s) ==> Some(s@) == rendered(*stamp, template@),
{
    let date = chrono::NaiveDate::from_ymd_opt(stamp.year, stamp.month, stamp.day)?;
    let moment =
        date.and_hms_nano_opt(stamp.hour, stamp.minute, stamp.second, stamp.nanosecond)?;
    let mut text = String::new();
    write!(text, "{}", moment.format(template)).ok()?;
    Some(text)
}

/// A base name with a dot and the extension behind it.
fn append_extension(base: String, extension: &str) -> (name: String)
    ensures
        name@ == with_extension(base@, extension@),
{
    proof {
        reveal_strlit(".");
    }
    let mut name = base;
    name.append(".");
    assert(name@ =~= base@ + seq!['.']);
    name.append(extension);
    name
}

/// The place of a file without a capture date.
pub fn place_in_unknown(digest: &str, extension: &str) -> (destination: Destination)
    ensures
        destination@ == unknown_destination(digest@, extension@),
{
    Destination {
        directory: String::from_str("unknown"),
        file_name: append_extension(String::from_str(digest), extension),
    }
}

/// The place of a file whose capture date the folder template wrote as
/// `folder` and the name template as `stamp`.
pub fn place_by_date(folder: &str, stamp: &str, digest: &str, extension: &str) -> (destination:
    Destination)
    ensures
        destination@ == dated_destination(folder@, stamp@, digest@, extension@),
{
    proof {
        reveal_strlit("-");
    }
    let mut base = String::from_str(stamp);
    base.append("-");
    assert(base@ =~= stamp@ + seq!['-']);
    base.append(digest);
    Destination {
        directory: String::from_str(folder),
        file_name: append_extension(base, extension),
    }
}

/// The place of a file with this capture date, digest and extension. With a
/// date, the folder template names the directory, and the name template
/// begins the file name. Without one, the file goes to the directory of
/// files without a date.
pub fn resolve_destination(
    date: Option<CaptureTimestamp>,
    digest: &str,
    extension: Option<&str>,
    templates: &Templates,
) -> (destination: Result<Destination, ProcessError>)
    ensures
        match destination_of(
            date,
            digest@,
            option_text(extension),
            templates.folder@,
            templates.name@,
        ) {
            Ok(view) => destination matches Ok(d) && d@ == view,
            Err(e) => destination matches Err(f) && f == e,
        },
{
    match date {
        Some(stamp) => {
            let folder = render(&stamp, templates.folder.as_str());
            let text = render(&stamp, templates.name.as_str());
            match (folder, text) {
                (Some(folder), Some(text)) => match extension {
                    Some(ext) => Ok(place_by_date(folder.as_str(), text.as_str(), digest, ext)),
                    None => Err(ProcessError::MissingExtension),
                },
                _ => Err(ProcessError::Template),
            }
        },
        None => match extension {
            Some(ext) => Ok(place_in_unknown(digest, ext)),
            None => Err(ProcessError::MissingExtension),
        },
    }
}

} // verus!
