//! The counters that a run reports.

use vstd::prelude::*;
use vstd::string::StringExecFns;

verus! {

/// What became of a file whose destination is known.
#[derive(Debug, Clone, Copy, PartialEq, Eq, Structural)]
pub enum Placement {
    /// Nothing stood at the destination: the content is written there.
    Copied,
    /// A file already stood at the destination: nothing is written.
    AlreadyExists,
}

impl Placement {
    /// The placement that follows from whether a file already stands at the
    /// destination.
    pub open spec fn of(exists: bool) -> Placement {
        if exists {
            Placement::AlreadyExists
        } else {
            Placement::Copied
        }
    }

    /// Decides between copying and skipping: a file is written only where
    /// none stands yet.
    pub fn decide(exists: bool) -> (placement: Placement)
        ensures
            placement == Placement::of(exists),
    {
        if exists {
            Placement::AlreadyExists
        } else {
            Placement::Copied
        }
    }
}

/// How one file ended: whether it carried a capture date, and whether its
/// content was written or found in place.
#[derive(Debug, Clone, Copy, PartialEq, Eq, Structural)]
pub struct FileOutcome {
    pub dated: bool,
    pub placement: Placement,
}

/// The successor of a counter. A counter that stands at the largest value
/// starts again from zero.
pub open spec fn bump(n: u64) -> u64 {
    if n == u64::MAX {
        0
    } else {
        (n + 1) as u64
    }
}

/// The character of a decimal digit.
pub open spec fn digit(value: nat) -> char {
    seq!['0', '1', '2', '3', '4', '5', '6', '7', '8', '9'][value as int]
}

/// A number in decimal, without leading zeros.
pub open spec fn decimal(n: nat) -> Seq<char>
    decreases n,
{
    if n < 10 {
        seq![digit(n)]
    } else {
        decimal(n / 10).push(digit(n % 10))
    }
}

/// One line of a report: a label, a colon and a space, the count, and the
/// end of the line.
pub open spec fn report_line(label: Seq<char>, count: u64) -> Seq<char> {
    label + seq![':', ' '] + decimal(count as nat) + seq!['\n']
}

/// The text of one decimal digit.
fn digit_text(value: u64) -> (text: &'static str)
    requires
        value < 10,
    ensures
        text@ == seq![digit(value as nat)],
{
    proof {
        reveal_strlit("0");
        reveal_strlit("1");
        reveal_strlit("2");
        reveal_strlit("3");
        reveal_strlit("4");
        reveal_strlit("5");
        reveal_strlit("6");
        reveal_strlit("7");
        reveal_strlit("8");
        reveal_strlit("9");
    }
    let text = match value {
        0 => "0",
        1 => "1",
        2 => "2",
        3 => "3",
        4 => "4",
        5 => "5",
        6 => "6",
        7 => "7",
        8 => "8",
        _ => "9",
    };
    assert(text@ =~= seq![digit(value as nat)]);
    text
}

/// Writes a number in decimal behind `text`.
fn append_decimal(text: &mut String, n: u64)
    ensures
        final(text)@ == old(text)@ + decimal(n as nat),
    decreases n,
{
    if n >= 10 {
        append_decimal(text, n / 10);
    }
    text.append(digit_text(n % 10));
    assert(final(text)@ =~= old(text)@ + decimal(n as nat));
}

/// Writes one line of a report behind `text`.
fn append_line(text: &mut String, label: &str, count: u64)
    ensures
        final(text)@ == old(text)@ + report_line(label@, count),
{
    proof {
        reveal_strlit(": ");
        reveal_strlit("\n");
    }
    text.append(label);
    text.append(": ");
    append_decimal(text, count);
    text.append("\n");
    assert(final(text)@ =~= old(text)@ + report_line(label@, count));
}

/// The three counters of a run: files copied, files found in place, and
/// files without a usable capture date.
#[derive(Debug, Clone, Copy, PartialEq, Eq, Structural)]
pub struct ProcessResult {
    pub copied: u64,
    pub exist: u64,
    pub unknown: u64,
}

impl ProcessResult {
    /// The counters after one more file has ended as `outcome`.
    pub open spec fn after(self, outcome: FileOutcome) -> ProcessResult {
        ProcessResult {
            copied: if outcome.placement == Placement::Copied {
                bump(self.copied)
            } else {
                self.copied
            },
            exist: if outcome.placement == Placement::AlreadyExists {
                bump(self.exist)
            } else {
                self.exist
            },
            unknown: if outcome.dated {
                self.unknown
            } else {
                bump(self.unknown)
            },
        }
    }

    /// The counters after the files of `outcomes` have ended, first to last.
    pub open spec fn after_all(self, outcomes: Seq<FileOutcome>) -> ProcessResult
        decreases outcomes.len(),
    {
        if outcomes.len() == 0 {
            self
        } else {
            self.after_all(outcomes.drop_last()).after(outcomes.last())
        }
    }

    /// The counters before any file has ended.
    pub open spec fn zero() -> ProcessResult {
        ProcessResult { copied: 0, exist: 0, unknown: 0 }
    }

    /// All three counters at zero.
    pub fn new() -> (result: ProcessResult)
        ensures
            result == ProcessResult::zero(),
    {
        ProcessResult { copied: 0, exist: 0, unknown: 0 }
    }

    /// Counts one more copied file.
    pub fn inc_copied(&mut self)
        ensures
            final(self).copied == bump(old(self).copied),
            final(self).exist == old(self).exist,
            final(self).unknown == old(self).unknown,
    {
        self.copied = self.copied.wrapping_add(1);
    }

    /// Counts one more file that was found in place.
    pub fn inc_exist(&mut self)
        ensures
            final(self).copied == old(self).copied,
            final(self).exist == bump(old(self).exist),
            final(self).unknown == old(self).unknown,
    {
        self.exist = self.exist.wrapping_add(1);
    }

    /// Counts one more file without a usable capture date.
    pub fn inc_unknown(&mut self)
        ensures
            final(self).copied == old(self).copied,
            final(self).exist == old(self).exist,
            final(self).unknown == bump(old(self).unknown),
    {
        self.unknown = self.unknown.wrapping_add(1);
    }

    /// The report of a run: one line for each counter.
    pub open spec fn report_text(self) -> Seq<char> {
        report_line("Copied files"@, self.copied) + report_line(
            "Already existing files"@,
            self.exist,
        ) + report_line("Unknown files"@, self.unknown)
    }

    /// Writes the report of a run: three lines, each a label and a count.
    pub fn report(&self) -> (text: String)
        ensures
            text@ == self.report_text(),
    {
        let mut text = String::new();
        assert(text@ =~= Seq::<char>::empty());
        append_line(&mut text, "Copied files", self.copied);
        append_line(&mut text, "Already existing files", self.exist);
        append_line(&mut text, "Unknown files", self.unknown);
        assert(text@ =~= self.report_text());
        text
    }

    /// Counts one file that has ended: exactly one of `copied` and `exist`
    /// moves, and `unknown` moves where the file carried no date.
    pub fn record(&mut self, outcome: FileOutcome)
        ensures
            *final(self) == old(self).after(outcome),
    {
        if !outcome.dated {
            self.inc_unknown();
        }
        match outcome.placement {
            Placement::Copied => self.inc_copied(),
            Placement::AlreadyExists => self.inc_exist(),
        }
    }
}

/// The number of files in `outcomes` whose content was written.
pub open spec fn copies(outcomes: Seq<FileOutcome>) -> nat
    decreases outcomes.len(),
{
    if outcomes.len() == 0 {
        0
    } else if outcomes.last().placement == Placement::Copied {
        copies(outcomes.drop_last()) + 1
    } else {
        copies(outcomes.drop_last())
    }
}

/// The number of files in `outcomes` that carried no capture date.
pub open spec fn undated(outcomes: Seq<FileOutcome>) -> nat
    decreases outcomes.len(),
{
    if outcomes.len() == 0 {
        0
    } else if outcomes.last().dated {
        undated(outcomes.drop_last())
    } else {
        undated(outcomes.drop_last()) + 1
    }
}

/// One file moves exactly one of `copied` and `exist`, by one, and moves
/// `unknown` by one exactly where it carried no date. No counter goes down.
/// This holds as long as no counter stands at its largest value.
pub proof fn lemma_one_file_counts_once(before: ProcessResult, outcome: FileOutcome)
    requires
        before.copied < u64::MAX,
        before.exist < u64::MAX,
        before.unknown < u64::MAX,
    ensures
        before.after(outcome).copied + before.after(outcome).exist == before.copied
            + before.exist + 1,
        before.after(outcome).copied == before.copied || before.after(outcome).exist
            == before.exist,
        before.after(outcome).copied >= before.copied,
        before.after(outcome).exist >= before.exist,
        before.after(outcome).unknown == before.unknown + (if outcome.dated {
            0int
        } else {
            1int
        }),
{
}

/// Neither count exceeds the number of files.
pub proof fn lemma_counts_are_bounded(outcomes: Seq<FileOutcome>)
    ensures
        copies(outcomes) <= outcomes.len(),
        undated(outcomes) <= outcomes.len(),
    decreases outcomes.len(),
{
    if outcomes.len() > 0 {
        lemma_counts_are_bounded(outcomes.drop_last());
    }
}

/// After a run from zero over any files, `copied` and `exist` add up to the
/// number of files: each file is counted by exactly one of the two.
/// `unknown` is the number of files without a date, which is at most the
/// number of files, so all three add up to it only where every file
/// carried a date.
pub proof fn lemma_counters_classify_every_file(outcomes: Seq<FileOutcome>)
    requires
        outcomes.len() <= u64::MAX,
    ensures
        ({
            let result = ProcessResult::zero().after_all(outcomes);
            &&& result.copied == copies(outcomes)
            &&& result.exist == outcomes.len() - copies(outcomes)
            &&& result.unknown == undated(outcomes)
            &&& result.copied + result.exist == outcomes.len()
            &&& result.unknown <= outcomes.len()
            &&& (result.copied + result.exist + result.unknown == outcomes.len() <==> undated(
                outcomes,
            ) == 0)
        }),
    decreases outcomes.len(),
{
    lemma_counts_are_bounded(outcomes);
    if outcomes.len() > 0 {
        lemma_counters_classify_every_file(outcomes.drop_last());
        lemma_counts_are_bounded(outcomes.drop_last());
    }
}

} // verus!
