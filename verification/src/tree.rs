//! The destination tree as a run sees it, and what runs do to it.
//!
//! The tree is the map from each place to the bytes that stand there. A run
//! takes the files one by one: it plans each file, copies it where nothing
//! stands at its place yet, and stops at the first file that cannot be
//! planned.

use vstd::prelude::*;
use crate::context::{copies, undated, lemma_counters_classify_every_file, FileOutcome, Placement, ProcessResult};
use crate::destination::DestinationView;
use crate::digest::{digest_text, DIGEST_BYTES};
use crate::error::ProcessError;
use crate::metadata::{capture_date_of, embedded_date_field};
use crate::process::{plan_of, PlanView};

verus! {

/// A candidate file: where it was found, the extension of its name, and
/// its bytes.
pub struct SourceFile {
    pub path: Seq<char>,
    pub extension: Option<Seq<char>>,
    pub content: Seq<u8>,
}

/// Where a run stands: the tree, how the files taken so far ended, and the
/// error that stopped it, if one did.
pub struct Run {
    pub tree: Map<DestinationView, Seq<u8>>,
    pub outcomes: Seq<FileOutcome>,
    pub error: Option<ProcessError>,
}

/// How a planned file ends in front of `tree`.
pub open spec fn outcome_in(tree: Map<DestinationView, Seq<u8>>, plan: PlanView) -> FileOutcome {
    FileOutcome {
        dated: plan.dated,
        placement: Placement::of(tree.contains_key(plan.destination)),
    }
}

/// The tree after a planned file has been placed: its content stands at
/// its place unless something stood there before.
pub open spec fn tree_with(
    tree: Map<DestinationView, Seq<u8>>,
    plan: PlanView,
    content: Seq<u8>,
) -> Map<DestinationView, Seq<u8>> {
    if tree.contains_key(plan.destination) {
        tree
    } else {
        tree.insert(plan.destination, content)
    }
}

/// A run takes one more file. A run that has stopped takes none.
pub open spec fn step(
    run: Run,
    file: SourceFile,
    folder_template: Seq<char>,
    name_template: Seq<char>,
) -> Run {
    if run.error is Some {
        run
    } else {
        match plan_of(file.content, file.extension, folder_template, name_template) {
            Ok(plan) => Run {
                tree: tree_with(run.tree, plan, file.content),
                outcomes: run.outcomes.push(outcome_in(run.tree, plan)),
                error: None,
            },
            Err(e) => Run { tree: run.tree, outcomes: run.outcomes, error: Some(e) },
        }
    }
}

/// The run over `files`, first to last, that starts in front of `tree`.
pub open spec fn run_over(
    tree: Map<DestinationView, Seq<u8>>,
    files: Seq<SourceFile>,
    folder_template: Seq<char>,
    name_template: Seq<char>,
) -> Run
    decreases files.len(),
{
    if files.len() == 0 {
        Run { tree, outcomes: Seq::empty(), error: None }
    } else {
        step(
            run_over(tree, files.drop_last(), folder_template, name_template),
            files.last(),
            folder_template,
            name_template,
        )
    }
}

/// Whether `file` has a plan whose place is taken in `tree`.
pub open spec fn is_placed(
    tree: Map<DestinationView, Seq<u8>>,
    file: SourceFile,
    folder_template: Seq<char>,
    name_template: Seq<char>,
) -> bool {
    match plan_of(file.content, file.extension, folder_template, name_template) {
        Ok(plan) => tree.contains_key(plan.destination),
        Err(_) => false,
    }
}

/// Whether `file` has a plan for `place`.
pub open spec fn goes_to(
    file: SourceFile,
    place: DestinationView,
    folder_template: Seq<char>,
    name_template: Seq<char>,
) -> bool {
    match plan_of(file.content, file.extension, folder_template, name_template) {
        Ok(plan) => plan.destination == place,
        Err(_) => false,
    }
}

/// A run never removes or overwrites what stands in the tree.
pub proof fn lemma_run_keeps_the_tree(
    tree: Map<DestinationView, Seq<u8>>,
    files: Seq<SourceFile>,
    folder_template: Seq<char>,
    name_template: Seq<char>,
)
    ensures
        forall|place: DestinationView| #[trigger]
            tree.contains_key(place) ==> run_over(
                tree,
                files,
                folder_template,
                name_template,
            ).tree.contains_key(place) && run_over(
                tree,
                files,
                folder_template,
                name_template,
            ).tree[place] == tree[place],
    decreases files.len(),
{
    if files.len() > 0 {
        lemma_run_keeps_the_tree(tree, files.drop_last(), folder_template, name_template);
    }
}

/// A run that was not stopped has an outcome for each file, and each file
/// is placed in the tree that it leaves.
pub proof fn lemma_run_places_every_file(
    tree: Map<DestinationView, Seq<u8>>,
    files: Seq<SourceFile>,
    folder_template: Seq<char>,
    name_template: Seq<char>,
)
    requires
        run_over(tree, files, folder_template, name_template).error is None,
    ensures
        run_over(tree, files, folder_template, name_template).outcomes.len() == files.len(),
        forall|i: int|
            0 <= i < files.len() ==> is_placed(
                run_over(tree, files, folder_template, name_template).tree,
                #[trigger] files[i],
                folder_template,
                name_template,
            ),
    decreases files.len(),
{
    if files.len() > 0 {
        let before = run_over(tree, files.drop_last(), folder_template, name_template);
        lemma_run_places_every_file(tree, files.drop_last(), folder_template, name_template);
        assert forall|i: int| 0 <= i < files.len() implies is_placed(
            run_over(tree, files, folder_template, name_template).tree,
            #[trigger] files[i],
            folder_template,
            name_template,
        ) by {
            if i < files.len() - 1 {
                assert(files[i] == files.drop_last()[i]);
            }
        }
    }
}

/// The places that are taken after a run that was not stopped are those
/// that were taken before and those that one of the files goes to, in
/// whatever order the files were taken. What stands at a place that the
/// run filled is the content of a file that goes there.
pub proof fn lemma_run_fills_the_planned_places(
    tree: Map<DestinationView, Seq<u8>>,
    files: Seq<SourceFile>,
    folder_template: Seq<char>,
    name_template: Seq<char>,
)
    requires
        run_over(tree, files, folder_template, name_template).error is None,
    ensures
        forall|place: DestinationView| #[trigger]
            run_over(tree, files, folder_template, name_template).tree.contains_key(place) <==> (
            tree.contains_key(place) || exists|i: int|
                0 <= i < files.len() && goes_to(
                    #[trigger] files[i],
                    place,
                    folder_template,
                    name_template,
                )),
        forall|place: DestinationView| #[trigger]
            run_over(tree, files, folder_template, name_template).tree.contains_key(place)
                && !tree.contains_key(place) ==> exists|i: int|
                0 <= i < files.len() && goes_to(
                    #[trigger] files[i],
                    place,
                    folder_template,
                    name_template,
                ) && run_over(tree, files, folder_template, name_template).tree[place]
                    == files[i].content,
    decreases files.len(),
{
    let after = run_over(tree, files, folder_template, name_template);
    if files.len() > 0 {
        let earlier = files.drop_last();
        let before = run_over(tree, earlier, folder_template, name_template);
        let last = files.len() - 1;
        lemma_run_fills_the_planned_places(tree, earlier, folder_template, name_template);
        assert forall|place: DestinationView| #[trigger] after.tree.contains_key(place) implies (
        tree.contains_key(place) || exists|i: int|
            0 <= i < files.len() && goes_to(
                #[trigger] files[i],
                place,
                folder_template,
                name_template,
            )) by {
            if before.tree.contains_key(place) {
                if !tree.contains_key(place) {
                    let i = choose|i: int|
                        0 <= i < earlier.len() && goes_to(
                            #[trigger] earlier[i],
                            place,
                            folder_template,
                            name_template,
                        );
                    assert(earlier[i] == files[i]);
                }
            } else {
                assert(goes_to(files[last], place, folder_template, name_template));
            }
        }
        assert forall|place: DestinationView|
            (tree.contains_key(place) || exists|i: int|
                0 <= i < files.len() && goes_to(
                    #[trigger] files[i],
                    place,
                    folder_template,
                    name_template,
                )) implies #[trigger] after.tree.contains_key(place) by {
            if !tree.contains_key(place) {
                let i = choose|i: int|
                    0 <= i < files.len() && goes_to(
                        #[trigger] files[i],
                        place,
                        folder_template,
                        name_template,
                    );
                if i < last {
                    assert(earlier[i] == files[i]);
                }
            }
        }
        assert forall|place: DestinationView| #[trigger]
            after.tree.contains_key(place) && !tree.contains_key(place) implies exists|i: int|
            0 <= i < files.len() && goes_to(
                #[trigger] files[i],
                place,
                folder_template,
                name_template,
            ) && after.tree[place] == files[i].content by {
            if before.tree.contains_key(place) {
                let i = choose|i: int|
                    0 <= i < earlier.len() && goes_to(
                        #[trigger] earlier[i],
                        place,
                        folder_template,
                        name_template,
                    ) && before.tree[place] == earlier[i].content;
                assert(earlier[i] == files[i]);
            } else {
                assert(goes_to(files[last], place, folder_template, name_template));
                assert(after.tree[place] == files[last].content);
            }
        }
    }
}

/// A run over files that are all placed already writes nothing: the tree
/// stays as it is, no file stops the run, and every file ends as already
/// existing.
pub proof fn lemma_placed_files_are_skipped(
    tree: Map<DestinationView, Seq<u8>>,
    files: Seq<SourceFile>,
    folder_template: Seq<char>,
    name_template: Seq<char>,
)
    requires
        forall|i: int|
            0 <= i < files.len() ==> is_placed(
                tree,
                #[trigger] files[i],
                folder_template,
                name_template,
            ),
    ensures
        run_over(tree, files, folder_template, name_template).error is None,
        run_over(tree, files, folder_template, name_template).tree == tree,
        run_over(tree, files, folder_template, name_template).outcomes.len() == files.len(),
        forall|i: int|
            0 <= i < files.len() ==> (#[trigger] run_over(
                tree,
                files,
                folder_template,
                name_template,
            ).outcomes[i]).placement == Placement::AlreadyExists,
        copies(run_over(tree, files, folder_template, name_template).outcomes) == 0,
    decreases files.len(),
{
    if files.len() > 0 {
        let earlier = files.drop_last();
        assert forall|i: int| 0 <= i < earlier.len() implies is_placed(
            tree,
            #[trigger] earlier[i],
            folder_template,
            name_template,
        ) by {
            assert(earlier[i] == files[i]);
        }
        lemma_placed_files_are_skipped(tree, earlier, folder_template, name_template);
        assert(is_placed(tree, files[files.len() - 1], folder_template, name_template));
        let run = run_over(tree, files, folder_template, name_template);
        assert(run.outcomes.drop_last() == run_over(
            tree,
            earlier,
            folder_template,
            name_template,
        ).outcomes);
    }
}

/// Running twice over an unchanged set of files: where the first run was
/// not stopped, the second leaves the tree exactly as the first left it,
/// copies nothing, and finds every file already existing.
pub proof fn lemma_second_run_copies_nothing(
    tree: Map<DestinationView, Seq<u8>>,
    files: Seq<SourceFile>,
    folder_template: Seq<char>,
    name_template: Seq<char>,
)
    requires
        run_over(tree, files, folder_template, name_template).error is None,
        files.len() <= u64::MAX,
    ensures
        ({
            let first = run_over(tree, files, folder_template, name_template);
            let second = run_over(first.tree, files, folder_template, name_template);
            let report = ProcessResult::zero().after_all(second.outcomes);
            &&& second.error is None
            &&& second.tree == first.tree
            &&& report.copied == 0
            &&& report.exist == files.len()
        }),
{
    let first = run_over(tree, files, folder_template, name_template);
    lemma_run_places_every_file(tree, files, folder_template, name_template);
    lemma_placed_files_are_skipped(first.tree, files, folder_template, name_template);
    let second = run_over(first.tree, files, folder_template, name_template);
    lemma_counters_classify_every_file(second.outcomes);
}

/// The first file that cannot be planned stops the run with its error. The
/// file is not counted, the tree stays as the files before it left it, and
/// no file behind it is taken.
pub proof fn lemma_first_error_stops_the_run(
    tree: Map<DestinationView, Seq<u8>>,
    files: Seq<SourceFile>,
    failing: SourceFile,
    rest: Seq<SourceFile>,
    folder_template: Seq<char>,
    name_template: Seq<char>,
)
    requires
        run_over(tree, files, folder_template, name_template).error is None,
        plan_of(failing.content, failing.extension, folder_template, name_template) is Err,
    ensures
        ({
            let before = run_over(tree, files, folder_template, name_template);
            let after = run_over(
                tree,
                files.push(failing) + rest,
                folder_template,
                name_template,
            );
            &&& after.error == Some(
                plan_of(
                    failing.content,
                    failing.extension,
                    folder_template,
                    name_template,
                )->Err_0,
            )
            &&& after.tree == before.tree
            &&& after.outcomes == before.outcomes
        }),
    decreases rest.len(),
{
    if rest.len() == 0 {
        assert(files.push(failing) + rest =~= files.push(failing));
        assert(files.push(failing).drop_last() =~= files);
    } else {
        lemma_first_error_stops_the_run(
            tree,
            files,
            failing,
            rest.drop_last(),
            folder_template,
            name_template,
        );
        assert((files.push(failing) + rest).drop_last() =~= files.push(failing)
            + rest.drop_last());
    }
}

/// A file without a capture date that a run takes is counted as unknown,
/// once, whether or not it is copied.
pub proof fn lemma_undated_file_counts_as_unknown(
    tree: Map<DestinationView, Seq<u8>>,
    files: Seq<SourceFile>,
    file: SourceFile,
    folder_template: Seq<char>,
    name_template: Seq<char>,
)
    requires
        run_over(tree, files, folder_template, name_template).error is None,
        plan_of(file.content, file.extension, folder_template, name_template) matches Ok(plan)
            && !plan.dated,
    ensures
        ({
            let before = run_over(tree, files, folder_template, name_template);
            let after = run_over(tree, files.push(file), folder_template, name_template);
            &&& after.error is None
            &&& after.outcomes == before.outcomes.push(after.outcomes.last())
            &&& !after.outcomes.last().dated
            &&& undated(after.outcomes) == undated(before.outcomes) + 1
        }),
{
    assert(files.push(file).drop_last() =~= files);
    let before = run_over(tree, files, folder_template, name_template);
    let after = run_over(tree, files.push(file), folder_template, name_template);
    assert(after.outcomes.drop_last() =~= before.outcomes);
}

/// A file whose plan is that of a file which a run has taken is not
/// written when the run takes it next: the tree stays as it is, what stands
/// at the shared place stays, and the file ends as already existing.
pub proof fn lemma_shared_place_is_written_once(
    tree: Map<DestinationView, Seq<u8>>,
    files: Seq<SourceFile>,
    i: int,
    again: SourceFile,
    folder_template: Seq<char>,
    name_template: Seq<char>,
)
    requires
        run_over(tree, files, folder_template, name_template).error is None,
        0 <= i < files.len(),
        plan_of(again.content, again.extension, folder_template, name_template) == plan_of(
            files[i].content,
            files[i].extension,
            folder_template,
            name_template,
        ),
    ensures
        ({
            let before = run_over(tree, files, folder_template, name_template);
            let after = run_over(tree, files.push(again), folder_template, name_template);
            &&& after.error is None
            &&& after.tree == before.tree
            &&& after.outcomes.len() == files.len() + 1
            &&& after.outcomes.last().placement == Placement::AlreadyExists
        }),
{
    lemma_run_places_every_file(tree, files, folder_template, name_template);
    assert(is_placed(
        run_over(tree, files, folder_template, name_template).tree,
        files[i],
        folder_template,
        name_template,
    ));
    assert(files.push(again).drop_last() =~= files);
}

/// Processing the same content twice never makes two files: a file with
/// the bytes and the extension of one that the run has taken has the same
/// plan, whatever its own path, and is found already existing.
pub proof fn lemma_same_content_is_placed_once(
    tree: Map<DestinationView, Seq<u8>>,
    files: Seq<SourceFile>,
    i: int,
    again: SourceFile,
    folder_template: Seq<char>,
    name_template: Seq<char>,
)
    requires
        run_over(tree, files, folder_template, name_template).error is None,
        0 <= i < files.len(),
        again.content == files[i].content,
        again.extension == files[i].extension,
    ensures
        plan_of(again.content, again.extension, folder_template, name_template) == plan_of(
            files[i].content,
            files[i].extension,
            folder_template,
            name_template,
        ),
        ({
            let before = run_over(tree, files, folder_template, name_template);
            let after = run_over(tree, files.push(again), folder_template, name_template);
            &&& after.error is None
            &&& after.tree == before.tree
            &&& after.outcomes.last().placement == Placement::AlreadyExists
        }),
{
    lemma_shared_place_is_written_once(tree, files, i, again, folder_template, name_template);
}

/// Two files whose digests, capture dates and extensions agree have the
/// same plan, also where their bytes differ. Nothing tells them apart:
/// the one that a run takes second is treated as a copy of the first.
pub proof fn lemma_colliding_files_share_a_plan(
    first: SourceFile,
    second: SourceFile,
    folder_template: Seq<char>,
    name_template: Seq<char>,
)
    requires
        digest_text(first.content, DIGEST_BYTES as nat) == digest_text(
            second.content,
            DIGEST_BYTES as nat,
        ),
        capture_date_of(embedded_date_field(first.content)) == capture_date_of(
            embedded_date_field(second.content),
        ),
        first.extension == second.extension,
    ensures
        plan_of(first.content, first.extension, folder_template, name_template) == plan_of(
            second.content,
            second.extension,
            folder_template,
            name_template,
        ),
{
}

} // verus!
