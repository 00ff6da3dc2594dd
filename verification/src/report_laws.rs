//! What holds of each report that is taken in, and of what the processes and the
//! client make of the server.

use crate::backend::{
    AnalysisStart, Backend, InitializeParams, InitializeResult, Subprocess, SyncKind, WatchStep,
    ANALYSIS_DELAY_MILLIS,
};
use crate::command::Platform;
use crate::fold::folds_trail;
use crate::models::{absorb, absorb_step, absorbs, Crate, File, FileView};
use crate::path::{reads_as, FilePath, PathView};
use crate::progress::{AnalysisStatus, CargoCheckMessage, CheckProgress, Report};
use crate::root_laws::folders_added;
use std::path::PathBuf;
use tower_lsp::lsp_types::Url;
use vstd::prelude::*;

verus! {

// ---------------------------------------------------------------------------
// Crates and their files
// ---------------------------------------------------------------------------

/// `after` are the files of `before` with `file` among them: each file of another
/// name is where it was, `file` stands where its name stood, and only a name that
/// is new makes one file more, behind the others.
pub open spec fn puts_in<I>(
    before: Seq<FileView<I>>,
    file: FileView<I>,
    after: Seq<FileView<I>>,
) -> bool {
    let known = exists|i: int| 0 <= i < before.len() && (#[trigger] before[i]).name == file.name;
    &&& after.len() == before.len() + (if known {
        0int
    } else {
        1int
    })
    &&& forall|i: int|
        0 <= i < before.len() ==> #[trigger] after[i] == (if before[i].name == file.name {
            file
        } else {
            before[i]
        })
    &&& !known ==> after[before.len() as int] == file
}

/// Putting in a file leaves the others.
proof fn with_file_puts_in<I>(
    before: Seq<FileView<I>>,
    file: FileView<I>,
    after: Seq<FileView<I>>,
)
    requires
        crate::models::distinct_names(before),
        crate::models::with_file(before, file, after),
    ensures
        puts_in(before, file, after),
{
    if exists|i: int| 0 <= i < before.len() && (#[trigger] before[i]).name == file.name {
        let i = choose|i: int|
            0 <= i < before.len() && (#[trigger] before[i]).name == file.name && after
                == before.update(i, file);
        assert(after[i] == file);
    }
}

/// A new crate has no files.
pub proof fn law_new_crate<I>(krate: Crate<I>)
    requires
        call_ensures(Crate::<I>::new, (), krate),
    ensures
        krate@.len() == 0,
{
}

/// A file is put in by its name, and replaces only what had that name.
pub proof fn law_insert_at<I>(
    krate: &mut Crate<I>,
    name: String,
    path: FilePath,
    items: Vec<I>,
)
    requires
        crate::models::distinct_names(krate@),
        call_ensures(Crate::<I>::insert_at, (krate, name, path, items), ()),
    ensures
        puts_in(
            old(krate)@,
            FileView { name: name@, path: path@, items: items@ },
            final(krate)@,
        ),
{
    with_file_puts_in(
        krate@,
        FileView { name: name@, path: path@, items: items@ },
        final(krate)@,
    );
}

/// A file is put in at what its name is read as.
pub proof fn law_insert<I>(krate: &mut Crate<I>, name: String, items: Vec<I>)
    requires
        crate::models::distinct_names(krate@),
        call_ensures(Crate::<I>::insert, (krate, name, items), ()),
    ensures
        exists|path: PathView| #[trigger]
            reads_as(name@, path) && puts_in(
                old(krate)@,
                FileView { name: name@, path, items: items@ },
                final(krate)@,
            ),
{
    let path = choose|path: PathView| #[trigger]
        reads_as(name@, path) && crate::models::with_file(
            krate@,
            FileView { name: name@, path, items: items@ },
            final(krate)@,
        );
    with_file_puts_in(krate@, FileView { name: name@, path, items: items@ }, final(krate)@);
}

/// A crate hands out its files as they are, in order, no two of one name, and is
/// empty where it has none.
pub proof fn law_files<I>(
    krate: &Crate<I>,
    files: &Vec<File<I>>,
    moved: Vec<File<I>>,
    empty: bool,
)
    requires
        call_ensures(Crate::<I>::files, (krate,), files),
        call_ensures(Crate::<I>::into_files, (*krate,), moved),
        call_ensures(Crate::<I>::is_empty, (krate,), empty),
    ensures
        files@.len() == krate@.len() == moved@.len(),
        forall|i: int|
            0 <= i < files@.len() ==> (#[trigger] files@[i])@ == krate@[i] && moved@[i]@
                == krate@[i],
        forall|i: int, j: int|
            0 <= i < j < files@.len() ==> (#[trigger] files@[i]).name@ != (#[trigger] files@[j]).name@,
        empty <==> files@.len() == 0,
{
    let views = crate::models::file_views(files@);
    let others = crate::models::file_views(moved@);
    assert(views.len() == files@.len() && others.len() == moved@.len());
    assert forall|i: int| 0 <= i < files@.len() implies (#[trigger] files@[i])@ == krate@[i]
        && moved@[i]@ == krate@[i] by {
        assert(views[i] == files@[i]@);
        assert(others[i] == moved@[i]@);
    }
    assert forall|i: int, j: int| 0 <= i < j < files@.len() implies (#[trigger] files@[i]).name@
        != (#[trigger] files@[j]).name@ by {
        assert(krate@[i].name != krate@[j].name);
    }
}

// ---------------------------------------------------------------------------
// Reports
// ---------------------------------------------------------------------------

/// A crate is kept where nothing is known, and else merged into what is.
pub open spec fn takes_in_one<I, F: Fn(Crate<I>, Crate<I>) -> Crate<I>>(
    merge: F,
    before: Option<Crate<I>>,
    krate: Crate<I>,
    after: Option<Crate<I>>,
) -> bool {
    &&& before is None ==> after == Some(krate)
    &&& before is Some ==> after is Some && call_ensures(merge, (before->0, krate), after->0)
}

/// What is known, from before the first of `krates` to after the last one, where
/// each crate is taken in in its turn.
pub open spec fn takes_in<I, F: Fn(Crate<I>, Crate<I>) -> Crate<I>>(
    merge: F,
    krates: Seq<Crate<I>>,
    known: Seq<Option<Crate<I>>>,
) -> bool {
    known.len() == krates.len() + 1 && forall|i: int|
        0 <= i < krates.len() ==> takes_in_one(
            merge,
            known[i],
            #[trigger] krates[i],
            known[i + 1],
        )
}

/// All of `krates` are taken in, in order.
pub open spec fn takes_in_all<I, F: Fn(Crate<I>, Crate<I>) -> Crate<I>>(
    merge: F,
    before: Option<Crate<I>>,
    krates: Seq<Crate<I>>,
    after: Option<Crate<I>>,
) -> bool {
    exists|known: Seq<Option<Crate<I>>>| #[trigger]
        takes_in(merge, krates, known) && known[0] == before && known[krates.len() as int] == after
}

/// Absorbing takes in each crate in its turn.
proof fn absorbs_takes_in<I, F: Fn(Crate<I>, Crate<I>) -> Crate<I>>(
    merge: F,
    before: Option<Crate<I>>,
    krates: Seq<Crate<I>>,
    after: Option<Crate<I>>,
)
    requires
        absorbs(merge, before, krates, after),
    ensures
        takes_in_all(merge, before, krates, after),
{
    let step = absorb_step(merge);
    let known = folds_trail(step, before, krates, after);
    assert forall|i: int| 0 <= i < krates.len() implies takes_in_one(
        merge,
        known[i],
        #[trigger] krates[i],
        known[i + 1],
    ) by {
        assert(step(known[i], krates[i], known[i + 1]));
    }
    assert(takes_in(merge, krates, known));
}

/// Some file of the crate is such.
pub open spec fn has_such<I>(krate: Crate<I>, such: spec_fn(FileView<I>) -> bool) -> bool {
    exists|i: int| 0 <= i < krate@.len() && such(#[trigger] krate@[i])
}

/// Some file of what is known is such.
pub open spec fn knows_such<I>(
    analyzed: Option<Crate<I>>,
    such: spec_fn(FileView<I>) -> bool,
) -> bool {
    analyzed matches Some(krate) && has_such(krate, such)
}

/// Some file of one of the crates is such.
pub open spec fn reports_such<I>(
    krates: Seq<Crate<I>>,
    such: spec_fn(FileView<I>) -> bool,
) -> bool {
    exists|i: int| 0 <= i < krates.len() && has_such(#[trigger] krates[i], such)
}

/// Merging loses no file that is such.
pub open spec fn keeps_such<I, F: Fn(Crate<I>, Crate<I>) -> Crate<I>>(
    merge: F,
    such: spec_fn(FileView<I>) -> bool,
) -> bool {
    forall|known: Crate<I>, krate: Crate<I>, merged: Crate<I>| #[trigger]
        call_ensures(merge, (known, krate), merged) && (has_such(known, such) || has_such(
            krate,
            such,
        )) ==> has_such(merged, such)
}

/// Nothing that is reported is lost: with a merge that loses no file of some kind,
/// such a file of any of the crates, or of what was known, is there afterwards.
proof fn such_files_stay<I, F: Fn(Crate<I>, Crate<I>) -> Crate<I>>(
    merge: F,
    krates: Seq<Crate<I>>,
    known: Seq<Option<Crate<I>>>,
    such: spec_fn(FileView<I>) -> bool,
    upto: int,
)
    requires
        takes_in(merge, krates, known),
        keeps_such(merge, such),
        0 <= upto <= krates.len(),
        knows_such(known[0], such) || reports_such(krates.take(upto), such),
    ensures
        knows_such(known[upto], such),
    decreases upto,
{
    if upto > 0 {
        let last = krates[upto - 1];
        if knows_such(known[0], such) || reports_such(krates.take(upto - 1), such) {
            such_files_stay(merge, krates, known, such, upto - 1);
        } else {
            let i = choose|i: int|
                0 <= i < upto && has_such(#[trigger] krates.take(upto)[i], such);
            if i < upto - 1 {
                assert(krates.take(upto - 1)[i] == krates.take(upto)[i]);
            }
            assert(has_such(last, such));
        }
        match known[upto - 1] {
            None => {},
            Some(before) => {
                assert(call_ensures(merge, (before, last), known[upto]->0));
            },
        }
    }
}

/// All crates that are handed over are taken in, each in its turn, and no file of
/// a kind that merging does not lose is lost.
pub proof fn law_absorb_crates<I, F: Fn(Crate<I>, Crate<I>) -> Crate<I>>(
    analyzed: Option<Crate<I>>,
    krates: Vec<Crate<I>>,
    merge: &F,
    such: spec_fn(FileView<I>) -> bool,
    result: Option<Crate<I>>,
)
    requires
        call_ensures(absorb::<I, F>, (analyzed, krates, merge), result),
    ensures
        takes_in_all(*merge, analyzed, krates@, result),
        keeps_such(*merge, such) && (knows_such(analyzed, such) || reports_such(krates@, such))
            ==> knows_such(result, such),
{
    absorbs_takes_in(*merge, analyzed, krates@, result);
    all_such_files_stay(*merge, analyzed, krates@, such, result);
}

/// With a merge that loses no such file, none is lost.
proof fn all_such_files_stay<I, F: Fn(Crate<I>, Crate<I>) -> Crate<I>>(
    merge: F,
    before: Option<Crate<I>>,
    krates: Seq<Crate<I>>,
    such: spec_fn(FileView<I>) -> bool,
    after: Option<Crate<I>>,
)
    requires
        takes_in_all(merge, before, krates, after),
    ensures
        keeps_such(merge, such) && (knows_such(before, such) || reports_such(krates, such))
            ==> knows_such(after, such),
{
    let known = choose|known: Seq<Option<Crate<I>>>| #[trigger]
        takes_in(merge, krates, known) && known[0] == before && known[krates.len() as int] == after;
    assert(krates.take(krates.len() as int) =~= krates);
    if keeps_such(merge, such) && (knows_such(before, such) || reports_such(krates, such)) {
        such_files_stay(merge, krates, known, such, krates.len() as int);
    }
}

/// The two states agree in all but what was analyzed.
pub open spec fn only_analysis_differs<I>(a: Backend<I>, b: Backend<I>) -> bool {
    &&& a@.workspaces == b@.workspaces
    &&& a@.roots == b@.roots
    &&& a@.status == b@.status
    &&& a@.subprocesses == b@.subprocesses
    &&& a@.work_done_progress == b@.work_done_progress
}

/// The server takes in all crates that are reported, each in its turn, loses none
/// of their files that merging does not lose, and changes in nothing else.
pub proof fn law_absorb_reports<I, F: Fn(Crate<I>, Crate<I>) -> Crate<I>>(
    backend: &mut Backend<I>,
    krates: Vec<Crate<I>>,
    merge: &F,
    such: spec_fn(FileView<I>) -> bool,
)
    requires
        call_ensures(Backend::<I>::absorb::<F>, (backend, krates, merge), ()),
    ensures
        takes_in_all(*merge, old(backend)@.analyzed, krates@, final(backend)@.analyzed),
        keeps_such(*merge, such) && (knows_such(old(backend)@.analyzed, such) || reports_such(
            krates@,
            such,
        )) ==> knows_such(final(backend)@.analyzed, such),
        only_analysis_differs(*old(backend), *final(backend)),
{
    absorbs_takes_in(*merge, backend@.analyzed, krates@, final(backend)@.analyzed);
    all_such_files_stay(*merge, backend@.analyzed, krates@, such, final(backend)@.analyzed);
}

/// A line is taken note of: a crate that was built is one more that is done, and
/// nothing else changes.
pub open spec fn counts(
    before: CheckProgress,
    message: Option<CargoCheckMessage>,
    after: CheckProgress,
) -> bool {
    &&& message == Some(CargoCheckMessage::CompilerArtifact) ==> after.build_count
        == before.build_count + 1
    &&& message != Some(CargoCheckMessage::CompilerArtifact) ==> after.build_count
        == before.build_count
    &&& after.dep_count == before.dep_count
    &&& after.reporting == before.reporting
    &&& after@.package_name == before@.package_name
}

/// `title` is what is said of a package: that it is analyzed, with its name, and
/// nothing where the name is not known.
pub open spec fn is_title(package_name: Option<String>, title: Option<String>) -> bool {
    match (package_name, title) {
        (Some(name), Some(text)) => text@ == "analyzing "@ + name@,
        (None, None) => true,
        _ => false,
    }
}

/// A report comes exactly with a crate that was built, where reports were asked
/// for. It says what is analyzed, and the largest percentage up to 100 that is not
/// above what is done.
pub open spec fn reports(
    before: CheckProgress,
    message: Option<CargoCheckMessage>,
    report: Option<Report>,
) -> bool {
    &&& report is Some <==> message == Some(CargoCheckMessage::CompilerArtifact)
        && before.reporting
    &&& report matches Some(said) ==> {
        let done = before.build_count + 1;
        &&& is_title(before.package_name, said.message)
        &&& said.percentage <= 100
        &&& said.percentage * before.dep_count <= done * 100
        &&& said.percentage < 100 ==> done * 100 < (said.percentage + 1) * before.dep_count
        &&& said.percentage == 100 <==> done >= before.dep_count
    }
}

/// The report is the one that is due.
proof fn report_is_right(
    before: CheckProgress,
    message: Option<CargoCheckMessage>,
    report: Option<Report>,
)
    requires
        message == Some(CargoCheckMessage::CompilerArtifact) && before.reporting
            ==> before.dep_count > 0,
        match report {
            Some(said) => before@.report(message) == Some(said@),
            None => before@.report(message) is None,
        },
    ensures
        reports(before, message, report),
{
    match report {
        Some(said) => {
            let done = before.build_count as int + 1;
            let total = before.dep_count as int;
            let share = done * 100 / total;
            assert(share * total <= done * 100 && done * 100 < (share + 1) * total && share >= 0
                && (share >= 100 <==> done >= total)) by (nonlinear_arith)
                requires
                    total > 0,
                    done >= 0,
                    share == done * 100 / total,
            ;
            if share > 100 {
                assert(100 * total <= done * 100) by (nonlinear_arith)
                    requires
                        done >= total,
                ;
            }
            assert(is_title(before.package_name, said.message));
        },
        None => {},
    }
}

/// The title of the progress names the package.
pub proof fn law_title(progress: &CheckProgress, title: Option<String>)
    requires
        call_ensures(CheckProgress::title, (progress,), title),
    ensures
        is_title(progress.package_name, title),
{
}

/// One crate more can be counted where the number fits, and, where it is
/// reported, where there is something to be done and the percentage fits.
pub proof fn law_can_count(progress: &CheckProgress, possible: bool)
    requires
        call_ensures(CheckProgress::can_count, (progress,), possible),
    ensures
        possible <==> progress.build_count + 1 <= usize::MAX && (progress.reporting
            ==> progress.dep_count != 0 && 100 * (progress.build_count + 1) <= usize::MAX),
{
}

/// A line of output is counted and reported as it should be.
pub proof fn law_progress_line(
    progress: &mut CheckProgress,
    message: Option<CargoCheckMessage>,
    report: Option<Report>,
)
    requires
        message == Some(CargoCheckMessage::CompilerArtifact) && progress.reporting
            ==> progress.dep_count > 0,
        call_ensures(CheckProgress::line, (progress, message), report),
    ensures
        counts(*old(progress), message, *final(progress)),
        reports(*old(progress), message, report),
{
    report_is_right(*progress, message, report);
}

/// A line of output is counted and reported as it should be, and every crate that
/// it reports is taken in, each in its turn: no file of any of them that merging
/// does not lose is lost. A line that reports no crates leaves what is known.
pub proof fn law_read_line<I, F: Fn(Crate<I>, Crate<I>) -> Crate<I>>(
    backend: &mut Backend<I>,
    progress: &mut CheckProgress,
    message: Option<CargoCheckMessage>,
    krates: Option<Vec<Crate<I>>>,
    merge: &F,
    such: spec_fn(FileView<I>) -> bool,
    report: Option<Report>,
)
    requires
        message == Some(CargoCheckMessage::CompilerArtifact) && progress.reporting
            ==> progress.dep_count > 0,
        call_ensures(
            Backend::<I>::read_line::<F>,
            (backend, progress, message, krates, merge),
            report,
        ),
    ensures
        counts(*old(progress), message, *final(progress)),
        reports(*old(progress), message, report),
        only_analysis_differs(*old(backend), *final(backend)),
        krates is None ==> final(backend)@.analyzed == old(backend)@.analyzed,
        krates matches Some(all) ==> takes_in_all(
            *merge,
            old(backend)@.analyzed,
            all@,
            final(backend)@.analyzed,
        ),
        krates matches Some(all) ==> (keeps_such(*merge, such) && (knows_such(
            old(backend)@.analyzed,
            such,
        ) || reports_such(all@, such)) ==> knows_such(final(backend)@.analyzed, such)),
{
    report_is_right(*progress, message, report);
    match krates {
        Some(all) => {
            absorbs_takes_in(*merge, backend@.analyzed, all@, final(backend)@.analyzed);
            all_such_files_stay(*merge, backend@.analyzed, all@, such, final(backend)@.analyzed);
        },
        None => {
            absorbs_takes_in(*merge, backend@.analyzed, seq![], final(backend)@.analyzed);
        },
    }
}

/// Two crates that a line reports while nothing is known come to what merging the
/// second one into the first gives.
pub proof fn law_read_two_crates<I, F: Fn(Crate<I>, Crate<I>) -> Crate<I>>(
    backend: &mut Backend<I>,
    progress: &mut CheckProgress,
    message: Option<CargoCheckMessage>,
    krates: Vec<Crate<I>>,
    merge: &F,
    report: Option<Report>,
    first: Crate<I>,
    second: Crate<I>,
)
    requires
        call_ensures(
            Backend::<I>::read_line::<F>,
            (backend, progress, message, Some(krates), merge),
            report,
        ),
        backend@.analyzed is None,
        krates@ == seq![first, second],
    ensures
        final(backend)@.analyzed matches Some(after) && call_ensures(
            *merge,
            (first, second),
            after,
        ),
{
    absorbs_takes_in(*merge, backend@.analyzed, krates@, final(backend)@.analyzed);
    let known = choose|known: Seq<Option<Crate<I>>>| #[trigger]
        takes_in(*merge, krates@, known) && known[0] == backend@.analyzed
            && known[krates@.len() as int] == final(backend)@.analyzed;
    assert(krates@[0] == first && krates@[1] == second);
    assert(known[1] == Some(first));
}

/// A check has passed exactly where some file was reported.
pub proof fn law_passed<I>(backend: &Backend<I>, passed: bool)
    requires
        call_ensures(Backend::<I>::passed, (backend,), passed),
    ensures
        passed ==> backend@.analyzed is Some,
        backend@.analyzed matches Some(krate) ==> (passed <==> krate@.len() != 0),
{
}

// ---------------------------------------------------------------------------
// Processes
// ---------------------------------------------------------------------------

/// The two states agree in all but the processes and the status.
pub open spec fn only_processes_differ<I>(a: Backend<I>, b: Backend<I>) -> bool {
    &&& a@.workspaces == b@.workspaces
    &&& a@.roots == b@.roots
    &&& a@.analyzed == b@.analyzed
    &&& a@.work_done_progress == b@.work_done_progress
}

/// A process that starts is one more.
pub proof fn law_started<I>(backend: &mut Backend<I>, pid: Subprocess)
    requires
        call_ensures(Backend::<I>::started, (backend, pid), ()),
    ensures
        final(backend)@.subprocesses.len() == old(backend)@.subprocesses.len() + 1,
        final(backend)@.subprocesses.last() == pid,
        final(backend)@.subprocesses.drop_last() == old(backend)@.subprocesses,
        final(backend)@.status == old(backend)@.status,
        only_processes_differ(*old(backend), *final(backend)),
{
    assert(final(backend)@.subprocesses.drop_last() =~= backend@.subprocesses);
}

/// A process that ends is no longer there, and the others are, in order. While any
/// of them is, the status stays. When none is, an error stays one, and otherwise
/// the analysis has finished exactly where some file was reported, and else failed.
pub proof fn law_finished<I>(backend: &mut Backend<I>, pid: Subprocess)
    requires
        call_ensures(Backend::<I>::finished, (backend, pid), ()),
    ensures
        final(backend)@.subprocesses == old(backend)@.subprocesses.filter(
            |other: Subprocess| other != pid,
        ),
        final(backend)@.subprocesses.len() > 0 ==> final(backend)@.status == old(backend)@.status,
        final(backend)@.subprocesses.len() == 0 ==> final(backend)@.status == (if old(backend)@.status != AnalysisStatus::Error && old(backend)@.analyzed is Some && old(backend)@.analyzed->0@.len() > 0 {
            AnalysisStatus::Finished
        } else {
            AnalysisStatus::Error
        }),
        only_processes_differ(*old(backend), *final(backend)),
{
    let others = |other: Subprocess| other != pid;
    assert(others =~= crate::backend::other_than(pid));
}

/// The ids of the processes that have one, the last one first.
pub open spec fn ids_from_the_last(subprocesses: Seq<Subprocess>) -> Seq<int> {
    subprocesses.reverse().filter(|pid: Subprocess| pid is Some).map_values(
        |pid: Subprocess| pid->0 as int,
    )
}

/// The process groups are the ids, the last one first.
proof fn groups_are_ids_from_the_last(subprocesses: Seq<Subprocess>)
    ensures
        crate::backend::groups_of(subprocesses) == ids_from_the_last(subprocesses),
    decreases subprocesses.len(),
{
    let has_id = |pid: Subprocess| pid is Some;
    let groups = crate::backend::groups_of(subprocesses);
    if subprocesses.len() > 0 {
        let before = subprocesses.drop_last();
        groups_are_ids_from_the_last(before);
        assert(subprocesses.reverse() =~= seq![subprocesses.last()] + before.reverse());
        before.reverse().lemma_filter_prepend(subprocesses.last(), has_id);
        assert(groups =~= ids_from_the_last(subprocesses));
    } else {
        assert(subprocesses.reverse() =~= seq![]);
        subprocesses.reverse().lemma_filter_len(has_id);
        assert(groups =~= ids_from_the_last(subprocesses));
    }
}

/// What is stopped, and what is left: on Unix all processes are stopped, the last
/// one first, and none is left; elsewhere none is stopped and all are left.
pub open spec fn stops(
    before: Seq<Subprocess>,
    platform: Platform,
    groups: Seq<i32>,
    after: Seq<Subprocess>,
) -> bool {
    if platform == Platform::Unix {
        &&& groups.map_values(|group: i32| group as int) == ids_from_the_last(before)
        &&& after.len() == 0
    } else {
        &&& groups.len() == 0
        &&& after == before
    }
}

/// An abort stops what runs, and changes nothing else.
pub proof fn law_abort<I>(backend: &mut Backend<I>, platform: Platform, groups: Vec<i32>)
    requires
        call_ensures(Backend::<I>::abort_subprocess, (backend, platform), groups),
    ensures
        stops(old(backend)@.subprocesses, platform, groups@, final(backend)@.subprocesses),
        final(backend)@.status == old(backend)@.status,
        only_processes_differ(*old(backend), *final(backend)),
{
    groups_are_ids_from_the_last(backend@.subprocesses);
    assert(groups@.map_values(|group: i32| group as int).len() == groups@.len());
}

/// A shutdown stops what runs, and changes nothing else.
pub proof fn law_shutdown<I>(backend: &mut Backend<I>, platform: Platform, groups: Vec<i32>)
    requires
        call_ensures(Backend::<I>::shutdown, (backend, platform), groups),
    ensures
        stops(old(backend)@.subprocesses, platform, groups@, final(backend)@.subprocesses),
        final(backend)@.status == old(backend)@.status,
        only_processes_differ(*old(backend), *final(backend)),
{
    groups_are_ids_from_the_last(backend@.subprocesses);
    assert(groups@.map_values(|group: i32| group as int).len() == groups@.len());
}

/// An analysis, which waits a tenth of a second, stops what runs, hands out every
/// registered root with its target, in order, and is under way from then on.
pub proof fn law_analysis_starts<I>(
    backend: &mut Backend<I>,
    platform: Platform,
    start: AnalysisStart,
)
    requires
        call_ensures(Backend::<I>::analyze_with_options, (backend, platform), start),
    ensures
        ANALYSIS_DELAY_MILLIS == 100,
        stops(
            old(backend)@.subprocesses,
            platform,
            start.stopped_groups@,
            final(backend)@.subprocesses,
        ),
        start.roots@.len() == old(backend)@.roots.len(),
        forall|i: int|
            0 <= i < start.roots@.len() ==> (#[trigger] start.roots@[i]).path@ == old(backend)@.roots[i].path && start.roots@[i].target@ == old(backend)@.roots[i].target,
        final(backend)@.status == AnalysisStatus::Analyzing,
        only_processes_differ(*old(backend), *final(backend)),
{
    groups_are_ids_from_the_last(backend@.subprocesses);
    let groups = start.stopped_groups@;
    assert(groups.map_values(|group: i32| group as int).len() == groups.len());
    assert(crate::roots::root_views(start.roots@).len() == start.roots@.len());
    assert forall|i: int| 0 <= i < start.roots@.len() implies (#[trigger] start.roots@[i]).path@
        == backend@.roots[i].path && start.roots@[i].target@ == backend@.roots[i].target by {
        assert(crate::roots::root_views(start.roots@)[i] == start.roots@[i]@);
    }
}

/// The processes can be stopped unless, on Unix, one has an id that is no process
/// group.
pub proof fn law_can_abort<I>(backend: &Backend<I>, platform: Platform, possible: bool)
    requires
        call_ensures(Backend::<I>::can_abort, (backend, platform), possible),
    ensures
        !possible <==> platform == Platform::Unix && exists|pid: u32|
            pid > i32::MAX && #[trigger] backend@.subprocesses.contains(Some(pid)),
{
    let subprocesses = backend@.subprocesses;
    if platform == Platform::Unix && exists|pid: u32|
        pid > i32::MAX && #[trigger] subprocesses.contains(Some(pid)) {
        let pid = choose|pid: u32| pid > i32::MAX && #[trigger] subprocesses.contains(Some(pid));
        let i = choose|i: int| 0 <= i < subprocesses.len() && subprocesses[i] == Some(pid);
        assert(subprocesses[i] == Some(pid));
    }
    if !possible {
        let i = choose|i: int|
            0 <= i < subprocesses.len() && !((#[trigger] subprocesses[i]) matches Some(pid) ==> pid
                <= i32::MAX);
        assert(subprocesses.contains(Some(subprocesses[i]->0)));
    }
}

// ---------------------------------------------------------------------------
// The client
// ---------------------------------------------------------------------------

/// A change of a document discards what was analyzed, and nothing else.
pub proof fn law_did_change<I>(backend: &mut Backend<I>)
    requires
        call_ensures(Backend::<I>::did_change, (backend,), ()),
    ensures
        final(backend)@.analyzed is None,
        only_analysis_differs(*old(backend), *final(backend)),
{
}

/// The client is looked after every half minute as long as it is alive, and given
/// up as soon as it is not.
pub proof fn law_watch<I>(alive: bool, step: WatchStep)
    requires
        call_ensures(Backend::<I>::watch, (alive,), step),
    ensures
        alive ==> (step matches WatchStep::Wait(seconds) && seconds == 30),
        !alive ==> step is Fail,
{
}

/// A client that connects is answered what the server offers: it follows documents
/// that are opened, closed and saved, change by change, and folders that come and
/// go. Its folders become workspaces. Its process is watched exactly where it is
/// named. Progress is reported once a client has asked for it, and stays so.
pub proof fn law_initialize<I>(
    backend: &mut Backend<I>,
    params: &InitializeParams,
    result: InitializeResult,
)
    requires
        call_ensures(Backend::<I>::initialize, (backend, params), result),
    ensures
        result.capabilities.open_close,
        result.capabilities.save,
        result.capabilities.change == SyncKind::Incremental,
        result.capabilities.workspace_folders,
        result.capabilities.workspace_folder_changes,
        match (params.process_id, result.watch) {
            (Some(pid), Some(watch)) => watch.process_id == pid && (
            watch.step matches WatchStep::Wait(seconds) && seconds == 30),
            (None, None) => true,
            _ => false,
        },
        match params.workspace_folders {
            Some(folders) => folders_added(
                old(backend)@.workspaces,
                folders@,
                final(backend)@.workspaces,
            ),
            None => final(backend)@.workspaces == old(backend)@.workspaces,
        },
        final(backend)@.work_done_progress <==> old(backend)@.work_done_progress || (
        params.window matches Some(window) && window.work_done_progress == Some(true)),
        final(backend)@.roots == old(backend)@.roots,
        final(backend)@.status == old(backend)@.status,
        final(backend)@.analyzed == old(backend)@.analyzed,
        final(backend)@.subprocesses == old(backend)@.subprocesses,
{
    match params.workspace_folders {
        Some(folders) => {
            let paths = choose|paths: Seq<Option<PathView>>| #[trigger]
                crate::backend::name_paths(folders@, paths) && final(backend)@
                    == backend@.with_workspaces(
                    crate::backend::known_paths(paths),
                ).with_progress(params.window);
            crate::root_laws::named_folders_are_added(backend@.workspaces, folders@, paths);
        },
        None => {},
    }
}

/// A document that is opened is analyzed exactly where it is written in Rust and
/// its URI can be turned into a file, which is the one that is analyzed.
pub proof fn law_did_open<I>(
    backend: &Backend<I>,
    uri: &Url,
    language_id: &str,
    file: Option<PathBuf>,
)
    requires
        call_ensures(Backend::<I>::did_open, (backend, uri, language_id), file),
    ensures
        match file {
            Some(path) => language_id@ == "rust"@ && call_ensures(
                Url::to_file_path,
                (uri,),
                Ok(path),
            ),
            None => language_id@ == "rust"@ ==> call_ensures(Url::to_file_path, (uri,), Err(())),
        },
{
    let named = choose|named: Option<PathBuf>| #[trigger]
        crate::uri::names_file(*uri, named) && file == crate::backend::opened_file(
            named,
            language_id@,
        );
    let answer = choose|answer: Result<PathBuf, ()>| #[trigger]
        call_ensures(Url::to_file_path, (uri,), answer) && named == answer.ok();
    match answer {
        Ok(_) => {},
        Err(nothing) => {
            assert(nothing == ());
        },
    }
}

/// Of the files that documents are in, those of Rust are analyzed, and no others.
pub proof fn law_select_opened<I>(
    backend: &Backend<I>,
    named: Option<PathBuf>,
    language_id: &str,
    file: Option<PathBuf>,
)
    requires
        call_ensures(Backend::<I>::select_opened, (backend, named, language_id), file),
    ensures
        language_id@ == "rust"@ ==> file == named,
        language_id@ != "rust"@ ==> file is None,
{
}

/// A document that is saved is analyzed, whatever it is written in, where its URI
/// can be turned into a file.
pub proof fn law_did_save<I>(backend: &Backend<I>, uri: &Url, file: Option<PathBuf>)
    requires
        call_ensures(Backend::<I>::did_save, (backend, uri), file),
    ensures
        match file {
            Some(path) => call_ensures(Url::to_file_path, (uri,), Ok(path)),
            None => call_ensures(Url::to_file_path, (uri,), Err(())),
        },
{
    let answer = choose|answer: Result<PathBuf, ()>| #[trigger]
        call_ensures(Url::to_file_path, (uri,), answer) && file == answer.ok();
    match answer {
        Ok(_) => {},
        Err(nothing) => {
            assert(nothing == ());
        },
    }
}

/// The server tells its status and what was analyzed as they are.
pub proof fn law_getters<I>(
    backend: &Backend<I>,
    status: AnalysisStatus,
    analyzed: &Option<Crate<I>>,
)
    requires
        call_ensures(Backend::<I>::status, (backend,), status),
        call_ensures(Backend::<I>::analyzed, (backend,), analyzed),
    ensures
        status == backend@.status,
        *analyzed == backend@.analyzed,
{
}

} // verus!
